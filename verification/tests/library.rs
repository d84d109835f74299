use nyx_tui::captcha::{decode_png_luma, font, solve, solve_luma, PngError};
use nyx_tui::commands::{flag_submissions, flags_report, writeup_report};
use nyx_tui::config::{ConfigFile, ConfigManager};
use nyx_tui::download::{
    check_captcha_image, check_captcha_page, check_download, check_reply, digest_hex,
    download_path, ova_file_name, DownloadCheck, part_file_name, resolve,
};
use nyx_tui::flags::{check_flag_submission, parse_flag_response, FlagType};
use nyx_tui::i18n::{Lang, Msg};
use nyx_tui::leaderboard::{compute, position_of};
use nyx_tui::machines::{difficulty_rank, release_sort_key, Machine};
use nyx_tui::session::resolve_url;
use nyx_tui::tui::downloads::{DownloadState, Phase};
use nyx_tui::tui::keys::{handle_key, Key, KeyEffect, KeyPress};
use nyx_tui::tui::layout::{popup_area, report_size, visible_rows_in, wrap_text, Rect};
use nyx_tui::tui::state::AppState;
use nyx_tui::tui::view::{blood_counts, filter_title, machines_footer, slot_label, submitted_day};
use nyx_tui::tui::{ActionKind, InputMode, MachineSort, Popup, PopupKind, ReportKind, Tab, TuiData};
use nyx_tui::writeups::{check_writeup_submission, flatten_writeups, parse_ok, WriteupEntry};

const MD5: &str = "616D84A31B380C79CCEED4886E5448E2";

fn machine(slug: &str, first_user: &str, first_root: &str) -> Machine {
    Machine {
        slug: slug.into(),
        name: slug.to_uppercase(),
        first_user: first_user.into(),
        first_root: first_root.into(),
        ..Default::default()
    }
}

fn key(c: char) -> KeyPress {
    KeyPress { key: Key::Char(c), ctrl: false }
}

fn press(app: &mut AppState, k: KeyPress) -> KeyEffect {
    handle_key(app, k)
}

fn app_with(machines: Vec<Machine>, writeups: Vec<(String, WriteupEntry)>) -> AppState {
    AppState::new(TuiData { machines, writeups })
}

#[test]
fn languages_round_trip_through_their_codes() {
    for lang in [Lang::En, Lang::Es] {
        assert_eq!(Lang::from_code(lang.as_str()), lang);
        assert_eq!(lang.toggle().toggle(), lang);
    }
    assert_eq!(Lang::from_code("  Es "), Lang::Es);
    assert_eq!(Lang::Es.display_name(), "Español");
}

#[test]
fn messages_have_both_languages() {
    assert_eq!(Msg::FlagsSubmitted(2, "apex".into()).render(Lang::En),
        "[✓] 2 flag(s) submitted for apex — check First Bloods in Progress.");
    assert_eq!(Msg::DoneNote(3, true).render(Lang::En), " · done: 3 (hidden)");
    assert_eq!(Msg::DoneNote(3, false).render(Lang::Es), " · hechas: 3");
}

#[test]
fn wrapped_lines_never_exceed_the_width() {
    let lines = wrap_text("the quick brown fox jumps over the lazy dog", 7);
    assert_eq!(lines, vec!["the", "quick", "brown", "fox", "jumps", "over", "the", "lazy", "dog"]);
    for line in &lines {
        assert!(line.chars().count() <= 7);
    }
    assert_eq!(wrap_text("a  b", 5), vec!["a  b"]);
    assert_eq!(wrap_text("ab", 0), vec!["a", "b"]);
    assert_eq!(wrap_text("xx yyyyyyy", 4), vec!["xx", "yyyy", "yyy"]);
}

#[test]
fn report_and_popup_boxes() {
    let entries = vec![(ReportKind::Success, "short".to_string())];
    assert_eq!(report_size(&entries), (42, 4));
    let area = Rect { x: 10, y: 5, width: 80, height: 24 };
    assert_eq!(popup_area(area, 40, 10), Rect { x: 30, y: 12, width: 40, height: 10 });
    assert_eq!(popup_area(area, 100, 30), area);
    assert_eq!(visible_rows_in(2), 0);
    assert_eq!(visible_rows_in(20), 17);
}

#[test]
fn leaderboard_ranks_ties_by_name() {
    let machines = vec![machine("a", "zed", ""), machine("b", "amy", "")];
    let list = compute(&machines, &[]);
    assert_eq!(list.len(), 2);
    assert_eq!(list[0].user, "amy");
    assert_eq!(list[1].user, "zed");
    assert_eq!(list[0].points, 20);
    assert_eq!(position_of(&list, "  ZED "), Some(2));
}

#[test]
fn leaderboard_points_follow_the_rates() {
    let mut m = machine("a", "neo", "neo");
    m.creator = "neo".into();
    let writeups = vec![(
        "a".to_string(),
        WriteupEntry { author: "Neo".into(), ..Default::default() },
    )];
    let list = compute(&[m], &writeups);
    assert_eq!(list.len(), 1);
    let e = &list[0];
    assert_eq!((e.vms, e.first_user, e.first_root, e.writeups), (1, 1, 1, 1));
    assert_eq!(e.points, 25 + 20 + 30 + 15);
}

#[test]
fn release_keys_and_difficulty_ranks() {
    assert_eq!(release_sort_key("2025-1-2"), (2025, 1, 2));
    assert_eq!(release_sort_key(" 2025 - 01 - 22 "), (2025, 1, 22));
    assert_eq!(release_sort_key("2025-01"), (0, 0, 0));
    assert_eq!(release_sort_key("99999999999-01-02"), (0, 0, 0));
    assert_eq!(difficulty_rank(" HARD "), 3);
    assert_eq!(difficulty_rank("insane"), 4);
}

#[test]
fn flag_checks_and_replies() {
    assert_eq!(
        check_flag_submission(&format!(" {MD5} "), " neo "),
        Ok((MD5.to_lowercase(), "neo".to_string()))
    );
    assert!(check_flag_submission("xyz", "neo").is_err());
    assert_eq!(
        check_flag_submission(MD5, "n"),
        Err("Set your username first (a).".to_string())
    );
    assert_eq!(parse_flag_response("oops"), Err("The server rejected the flag.".to_string()));
    assert_eq!(parse_flag_response(r#"{"ok":true}"#), Ok("Flag accepted".to_string()));
    assert_eq!(
        parse_flag_response(r#"{"ok":false,"error":"Too many requests"}"#),
        Err("Too many requests".to_string())
    );
}

#[test]
fn writeup_checks_and_replies() {
    assert_eq!(check_writeup_submission("https://x.y/z ", "Text"), Ok("https://x.y/z".to_string()));
    assert!(check_writeup_submission(" https://x.y/z", "Text").is_err());
    assert!(check_writeup_submission("ftp://x", "Text").is_err());
    assert_eq!(check_writeup_submission("https://x", "Audio"), Err("Type must be Text or Video.".to_string()));
    assert_eq!(parse_ok(r#"{"ok":true}"#, "fallback"), Ok("fallback".to_string()));
    assert_eq!(parse_ok("not json", "fallback"), Err("The server rejected the operation.".to_string()));
}

#[test]
fn writeups_map_flattens_sorted_by_slug() {
    let entry = |author: &str| WriteupEntry { author: author.into(), ..Default::default() };
    let groups = vec![
        ("Zeta".to_string(), vec![entry("ann")]),
        ("alpha".to_string(), vec![entry(""), entry("bob")]),
    ];
    let flat = flatten_writeups(&groups);
    let view: Vec<(&str, &str)> = flat.iter().map(|(s, w)| (s.as_str(), w.author.as_str())).collect();
    assert_eq!(view, vec![("alpha", "alpha"), ("alpha", "bob"), ("Zeta", "ann")]);
}

#[test]
fn tabs_and_list_keys() {
    let mut app = app_with(vec![machine("a", "", ""), machine("b", "x", "")], vec![]);
    app.next_tab();
    assert_eq!(app.tab, Tab::Progress);
    app.previous_tab();
    assert_eq!(app.tab, Tab::Machines);
    press(&mut app, KeyPress { key: Key::Down, ctrl: false });
    assert_eq!(app.selected, 1);
    press(&mut app, KeyPress { key: Key::Down, ctrl: false });
    assert_eq!(app.selected, 1);
    press(&mut app, key('g'));
    assert_eq!(app.selected, 0);
    press(&mut app, key('s'));
    assert_eq!(app.machine_sort, MachineSort::Nombre);
    press(&mut app, key('b'));
    assert!(app.only_first_blood);
    assert_eq!(app.visible_machines().len(), 2);
}

#[test]
fn filter_typing_and_erasing() {
    let mut app = app_with(vec![machine("apex", "", ""), machine("blue", "", "")], vec![]);
    press(&mut app, key('/'));
    assert_eq!(app.input_mode, InputMode::Filter);
    press(&mut app, key('a'));
    assert_eq!(app.filter, "a");
    assert_eq!(app.visible_machines().len(), 1);
    press(&mut app, KeyPress { key: Key::Backspace, ctrl: false });
    assert_eq!(app.filter, "");
    press(&mut app, key('z'));
    press(&mut app, KeyPress { key: Key::Esc, ctrl: false });
    assert_eq!(app.filter, "");
    assert_eq!(app.input_mode, InputMode::Normal);
    assert_eq!(filter_title(&app), None);
}

#[test]
fn control_c_quits_even_in_a_popup() {
    let mut app = app_with(vec![], vec![]);
    press(&mut app, key('a'));
    assert!(app.popup.is_some());
    press(&mut app, KeyPress { key: Key::Char('c'), ctrl: true });
    assert!(app.quit);
}

#[test]
fn username_popup_saves_through_the_host() {
    let mut app = app_with(vec![], vec![]);
    press(&mut app, key('a'));
    press(&mut app, key('n'));
    let effect = press(&mut app, KeyPress { key: Key::Enter, ctrl: false });
    assert!(matches!(effect, KeyEffect::Nothing));
    assert_eq!(app.status.as_deref(), Some("The username needs at least 2 characters."));
    assert!(app.popup.is_some());
    press(&mut app, key('e'));
    press(&mut app, key('o'));
    match press(&mut app, KeyPress { key: Key::Enter, ctrl: false }) {
        KeyEffect::SaveUsername(name) => assert_eq!(name, "neo"),
        _ => panic!("the username should be saved"),
    }
    assert!(app.popup.is_none());
    app.username_saved("neo".into(), Ok(()));
    assert_eq!(app.username, "neo");
    assert_eq!(app.status.as_deref(), Some("[✓] Username set to neo."));
}

#[test]
fn flag_popup_validates_and_queues() {
    let mut app = app_with(vec![machine("apex", "", "someone")], vec![]);
    press(&mut app, key('f'));
    assert_eq!(app.status.as_deref(), Some("Set your username first (a)."));
    app.username = "neo".into();
    press(&mut app, key('f'));
    let popup = app.popup.clone().expect("flag popup");
    assert_eq!(popup.kind, PopupKind::Flag);
    assert_eq!(popup.flag_types, vec!["user"]);
    press(&mut app, key('x'));
    press(&mut app, KeyPress { key: Key::Enter, ctrl: false });
    assert_eq!(
        app.status.as_deref(),
        Some("The user flag must be an MD5 hash: 32 hex characters.")
    );
    press(&mut app, KeyPress { key: Key::Backspace, ctrl: false });
    press(&mut app, KeyPress { key: Key::Enter, ctrl: false });
    assert_eq!(app.status.as_deref(), Some("Fill at least one flag."));
    for c in MD5.chars() {
        press(&mut app, key(c));
    }
    press(&mut app, KeyPress { key: Key::Enter, ctrl: false });
    let action = app.take_action().expect("queued action");
    assert_eq!(action.kind, ActionKind::SubmitFlag);
    assert_eq!(action.machine, "apex");
    assert_eq!(action.values, vec![(0, format!("user:{MD5}"))]);
    assert_eq!(app.fetching.as_deref(), Some("Submitting flag for apex..."));
}

#[test]
fn popup_fields_wrap_around() {
    let mut p = Popup {
        kind: PopupKind::WriteupSubmit,
        machine: String::new(),
        machine_slug: String::new(),
        buffers: vec![String::new(), "Text".into(), "en".into()],
        field: 0,
        notice: None,
        readonly: false,
        text: None,
        flag_types: vec![],
    };
    p.previous_field();
    assert_eq!(p.field, 2);
    p.next_field();
    assert_eq!(p.field, 0);
    p.push('h');
    p.pop();
    p.pop();
    assert_eq!(p.buffers[0], "");
}

#[test]
fn completed_marks_toggle_and_hide() {
    let writeups = vec![(
        "blue".to_string(),
        WriteupEntry { author: "neo".into(), url: "https://w/1".into(), ..Default::default() },
    )];
    let mut app = app_with(vec![machine("apex", "", ""), machine("blue", "", "")], writeups);
    app.username = "Neo".into();
    assert_eq!(app.done_count(), 1);
    match press(&mut app, key('m')) {
        KeyEffect::SaveCompleted(marks) => assert_eq!(marks, vec!["apex"]),
        _ => panic!("marks should be saved"),
    }
    assert_eq!(app.status.as_deref(), Some("APEX marked as completed."));
    assert_eq!(app.done_count(), 2);
    press(&mut app, key('x'));
    assert!(app.hide_completed);
    assert_eq!(app.status.as_deref(), Some("completed machines hidden"));
    assert_eq!(app.visible_machines().len(), 0);
    assert_eq!(machines_footer(&app, Lang::En), " Machines 0/2  · done: 2 (hidden) · first blood open: 2 ");
    press(&mut app, key('x'));
    press(&mut app, key('m'));
    assert_eq!(app.completed, Vec::<String>::new());
    assert_eq!(app.status.as_deref(), Some("APEX marked as not completed."));
}

#[test]
fn progress_enter_opens_the_writeup() {
    let writeups = vec![(
        "blue".to_string(),
        WriteupEntry { author: "neo".into(), url: "https://w/1".into(), ..Default::default() },
    )];
    let mut app = app_with(vec![], writeups);
    app.username = "neo".into();
    app.next_tab();
    match press(&mut app, KeyPress { key: Key::Enter, ctrl: false }) {
        KeyEffect::OpenLink(url) => assert_eq!(url, "https://w/1"),
        _ => panic!("the link should open"),
    }
    app.link_opened("https://w/1", Err("no browser".into()));
    assert_eq!(app.status.as_deref(), Some("xdg-open failed: no browser"));
}

#[test]
fn flag_values_and_reports() {
    let values = vec![(0, "user:abc".to_string()), (1, "nocolon".to_string()), (2, "admin:x:y".to_string())];
    let flags = flag_submissions(&values);
    assert_eq!(flags, vec![(FlagType::User, "abc".to_string()), (FlagType::Root, "x:y".to_string())]);
    assert_eq!(flags_report("apex", &vec![], Lang::En).unwrap_err(), "No flag was submitted.");
    let report = flags_report("apex", &vec![(FlagType::Root, "ok".to_string())], Lang::En).unwrap();
    assert_eq!(report.title, " Flags — apex ");
    assert_eq!(report.entries, vec![(ReportKind::Success, "root flag: ✓ ACCEPTED — ok".to_string())]);
    assert!(report.changed);
    let w = writeup_report("apex", "thanks".into(), Lang::En);
    assert_eq!(w.title, " Writeup — apex ");
    assert!(!w.changed);
}

#[test]
fn preferences_read_back_what_was_saved() {
    let manager = ConfigManager::with_config(None);
    assert_eq!(manager.username(), "");
    assert_eq!(manager.language(), Lang::En);
    let saved = manager.saving_username("  neo ");
    let mut manager = ConfigManager::with_config(Some(saved));
    assert_eq!(manager.username(), "neo");
    let saved = manager.saving_language(Lang::Es);
    manager.saved(saved);
    let saved = manager.saving_completed_machines(vec!["alpha".into()]);
    manager.saved(saved);
    assert_eq!(manager.username(), "neo");
    assert_eq!(manager.language(), Lang::Es);
    assert_eq!(manager.completed_machines(), vec!["alpha"]);
    let odd = ConfigFile { username: String::new(), completed: vec![], language: "xx".into() };
    assert_eq!(ConfigManager::with_config(Some(odd)).language(), Lang::En);
}

#[test]
fn download_rules() {
    assert_eq!(download_path("APex"), "/download.php?vm=APex");
    assert_eq!(resolve("/x".into()), "https://vulnyx.com/x");
    assert_eq!(resolve("http://a".into()), "http://a");
    assert_eq!(resolve_url("data/m.json"), "https://vulnyx.com/data/m.json");
    assert_eq!(resolve_url("/data/m.json"), "https://vulnyx.com/data/m.json");
    assert!(check_captcha_page("<img src=captcha.php>").is_ok());
    assert!(check_captcha_page("<html></html>").is_err());
    assert!(check_captcha_image(&[0x89, b'P', b'N', b'G']).is_ok());
    assert!(check_captcha_image(&[0x89, b'P']).is_err());
    assert_eq!(check_reply("application/octet-stream", ""), None);
    assert_eq!(
        check_reply("text/html; charset=utf-8", "Verification failed"),
        Some("CAPTCHA verification failed — wrong code.".to_string())
    );
    assert_eq!(ova_file_name("APex"), "APex.ova");
    assert_eq!(part_file_name("APex.ova"), "APex.ova.part");
    assert_eq!(digest_hex(&[0xab, 0x01]), "AB01");
    assert_eq!(
        check_download(10, 9, &[0xab], "ab"),
        Err("Incomplete download: 9 of 10 bytes".to_string())
    );
    assert_eq!(check_download(0, 9, &[0xab], " ab "), Ok(()));
    assert_eq!(check_download(0, 9, &[0xab], ""), Ok(()));
    assert_eq!(
        check_download(9, 9, &[0xab], "cd"),
        Err("MD5 mismatch: expected cd, got AB — the download is corrupt.".to_string())
    );
}

#[test]
fn download_job_states() {
    let mut state = DownloadState::default();
    assert!(state.is_active());
    state.captcha_ready("/tmp/c.png".into(), vec!["##".into()]);
    assert!(state.is_awaiting_captcha());
    state.code_submitted();
    assert_eq!(state.phase, Phase::Downloading);
    state.finish(Err("boom".into()), false);
    assert_eq!(state.phase, Phase::Failed);
    assert_eq!(state.message, "boom");
    assert!(!state.is_active());
}

#[test]
fn table_cells() {
    assert_eq!(slot_label(&machine("a", "", "")), "user+root");
    assert_eq!(slot_label(&machine("a", "x", "")), "root");
    assert_eq!(slot_label(&machine("a", "x", "y")), "taken");
    let m = machine("a", "neo", "neo");
    let bloods = vec![(&m, "user"), (&m, "root"), (&m, "root")];
    assert_eq!(blood_counts(&bloods), (1, 2));
    assert_eq!(submitted_day("2026-08-08 15:27"), "2026-08-08");
    assert_eq!(submitted_day(""), "");
}

fn adler32(data: &[u8]) -> u32 {
    let (mut a, mut b) = (1u32, 0u32);
    for &x in data {
        a = (a + x as u32) % 65521;
        b = (b + a) % 65521;
    }
    (b << 16) | a
}

fn png(width: u32, height: u32, raw: &[u8]) -> Vec<u8> {
    let mut out = vec![0x89, b'P', b'N', b'G', 0x0D, 0x0A, 0x1A, 0x0A];
    let mut ihdr = Vec::new();
    ihdr.extend_from_slice(&width.to_be_bytes());
    ihdr.extend_from_slice(&height.to_be_bytes());
    ihdr.extend_from_slice(&[8, 2, 0, 0, 0]);
    let mut zlib = vec![0x78, 0x01, 0x01];
    let len = raw.len() as u16;
    zlib.extend_from_slice(&len.to_le_bytes());
    zlib.extend_from_slice(&(!len).to_le_bytes());
    zlib.extend_from_slice(raw);
    zlib.extend_from_slice(&adler32(raw).to_be_bytes());
    for (kind, data) in [(b"IHDR", ihdr), (b"IDAT", zlib), (b"IEND", vec![])] {
        out.extend_from_slice(&(data.len() as u32).to_be_bytes());
        out.extend_from_slice(kind);
        out.extend_from_slice(&data);
        out.extend_from_slice(&[0, 0, 0, 0]);
    }
    out
}

#[test]
fn png_rows_are_unfiltered() {
    // Two pixels per row: row 0 unfiltered, row 1 "up", row 2 "sub".
    let raw = [
        0, 30, 60, 90, 3, 6, 9, //
        2, 3, 3, 3, 0, 0, 0, //
        1, 10, 10, 10, 5, 5, 5,
    ];
    let (w, h, luma) = decode_png_luma(&png(2, 3, &raw)).unwrap();
    assert_eq!((w, h), (2, 3));
    assert_eq!(luma, vec![60, 6, 63, 6, 10, 15]);
    assert!(decode_png_luma(b"not a png").is_err());
}

fn glyph_bits(c: char) -> u16 {
    font().into_iter().find(|(ch, _)| *ch == c).unwrap().1
}

fn captcha_bitmap(text: &str) -> (usize, usize, Vec<u8>) {
    let (width, height) = (3 + text.len() * 9, 14);
    let mut luma = vec![255u8; width * height];
    for (g, c) in text.chars().enumerate() {
        let bits = glyph_bits(c);
        for i in 0..15 {
            if bits & (1 << (14 - i)) != 0 {
                let (row, col) = (i / 3, i % 3);
                for dy in 0..2 {
                    for dx in 0..2 {
                        let x = 3 + g * 9 + col * 2 + dx;
                        let y = 2 + row * 2 + dy;
                        luma[y * width + x] = 0;
                    }
                }
            }
        }
    }
    (width, height, luma)
}

#[test]
fn captcha_glyphs_are_read() {
    let (w, h, luma) = captcha_bitmap("AB7X2");
    assert_eq!(solve_luma(w, h, &luma), Some("AB7X2".to_string()));
    let (w, h, luma) = captcha_bitmap("AB7X");
    assert_eq!(solve_luma(w, h, &luma), None);
    let (w, h, mut luma) = captcha_bitmap("AB7X2");
    for (x, y) in [(3, 2), (4, 2), (3, 3), (4, 3)] {
        luma[y * w + x] = 255;
    }
    assert_eq!(solve_luma(w, h, &luma), None);
    let mut raw = Vec::new();
    let (w, h, luma) = captcha_bitmap("KQ9ZW");
    for y in 0..h {
        raw.push(0);
        for x in 0..w {
            let v = luma[y * w + x];
            raw.extend_from_slice(&[v, v, v]);
        }
    }
    assert_eq!(solve(&png(w as u32, h as u32, &raw)), Some("KQ9ZW".to_string()));
}

#[test]
fn one_row_per_name() {
    let machines = vec![machine("a", "Neo", " neo "), machine("b", "NEO", "--")];
    let list = compute(&machines, &[]);
    assert_eq!(list.len(), 1);
    assert_eq!(list[0].user, "Neo");
    assert_eq!((list[0].first_user, list[0].first_root, list[0].points), (2, 1, 70));
}

#[test]
fn expired_status_is_cleared() {
    let mut app = app_with(vec![], vec![]);
    app.expire_status(true);
    assert_eq!(app.status, None);
    app.set_status("hello".into());
    app.expire_status(false);
    assert_eq!(app.status.as_deref(), Some("hello"));
    app.tick();
    assert_eq!(app.status.as_deref(), Some("hello"));
    app.expire_status(true);
    assert_eq!(app.status, None);
    assert!(app.status_expiry.is_none());
}

#[test]
fn paeth_rows_use_the_png_predictor() {
    let raw = [
        0, 15, 15, 15, 20, 20, 20, //
        4, 251, 251, 251, 0, 0, 0,
    ];
    let (_, _, luma) = decode_png_luma(&png(2, 2, &raw)).unwrap();
    assert_eq!(luma, vec![15, 20, 10, 15]);
}

#[test]
fn shapes_shared_by_two_characters_are_not_read() {
    for text in ["AB0X2", "ABOX2", "AB5X2", "ABSX2"] {
        let (w, h, luma) = captcha_bitmap(text);
        assert_eq!(solve_luma(w, h, &luma), None, "{text}");
    }
}

#[test]
fn open_slots_are_held_by_nobody() {
    let data = TuiData {
        machines: vec![machine("a", "", "  "), machine("b", " neo ", "")],
        writeups: vec![],
    };
    assert!(data.first_bloods_of("").is_empty());
    assert!(data.first_bloods_of("   ").is_empty());
    let bloods = data.first_bloods_of("NEO");
    assert_eq!(bloods.len(), 1);
    assert_eq!((bloods[0].0.slug.as_str(), bloods[0].1), ("b", "user"));
}

#[test]
fn wrapping_keeps_every_character() {
    let text = "a  quick   brownish foxtrot jumps";
    for width in [0, 1, 3, 7, 40] {
        let joined: String = wrap_text(text, width).concat();
        let kept: String = joined.chars().filter(|c| *c != ' ').collect();
        let expected: String = text.chars().filter(|c| *c != ' ').collect();
        assert_eq!(kept, expected, "width {width}");
    }
}

#[test]
fn download_check_hashes_every_chunk() {
    let mut check = DownloadCheck::new();
    check.chunk(b"hello ");
    check.chunk(b"world");
    assert_eq!(check.written_bytes(), 11);
    assert_eq!(check.finish(11, " 5eb63bbbe01eeed093cb22bb8f5acdc3 "), Ok(()));

    let mut check = DownloadCheck::new();
    check.chunk(b"hello world");
    assert_eq!(
        check.finish(0, "0000"),
        Err("MD5 mismatch: expected 0000, got 5EB63BBBE01EEED093CB22BB8F5ACDC3 — the download is corrupt.".to_string())
    );

    let mut check = DownloadCheck::new();
    check.chunk(b"hello world");
    assert_eq!(check.finish(20, ""), Err("Incomplete download: 11 of 20 bytes".to_string()));

    let check = DownloadCheck::new();
    assert_eq!(check.finish(0, "D41D8CD98F00B204E9800998ECF8427E"), Ok(()));
}

#[test]
fn hiding_completed_machines_is_reported_in_the_interface_language() {
    let mut app = app_with(vec![machine("apex", "", "")], Vec::new());
    app.lang = Lang::Es;
    press(&mut app, key('x'));
    assert_eq!(app.status.as_deref(), Some("máquinas completadas ocultas"));
    press(&mut app, key('x'));
    assert_eq!(app.status.as_deref(), Some("máquinas completadas visibles"));
}

#[test]
fn every_counted_credit_lands_on_its_row() {
    let mut a = machine("a", " Neo ", "trin");
    a.creator = "neo".into();
    let mut b = machine("b", "-", "NEO");
    b.creator = "d4t4s3c".into();
    let writeups = vec![
        ("a".to_string(), WriteupEntry { author: "trin".into(), ..Default::default() }),
        ("b".to_string(), WriteupEntry { author: "--".into(), ..Default::default() }),
    ];
    let list = compute(&[a, b], &writeups);
    assert_eq!(list.len(), 2);
    let neo = list.iter().find(|e| e.user == "neo").expect("neo has a row");
    assert_eq!((neo.vms, neo.first_user, neo.first_root, neo.writeups), (1, 1, 1, 0));
    let trin = list.iter().find(|e| e.user == "trin").expect("trin has a row");
    assert_eq!((trin.vms, trin.first_user, trin.first_root, trin.writeups), (0, 0, 1, 1));
}

#[test]
fn position_comes_from_the_computed_board() {
    let machines = vec![machine("a", "zed", "zed"), machine("b", "amy", "")];
    let data = TuiData { machines: machines.clone(), writeups: Vec::new() };
    let list = compute(&machines, &[]);
    let p = position_of(&list, "Amy").unwrap();
    assert_eq!(data.leaderboard_position("Amy"), Some((p, list[p - 1].points)));
    assert_eq!(data.leaderboard_position("Amy"), Some((2, 20)));
    assert_eq!(data.leaderboard_position("nobody"), None);
}

#[test]
fn a_broken_zlib_stream_is_reported_with_the_inflater_error() {
    let raw = [0, 30, 60, 90, 3, 6, 9];
    let mut bytes = png(2, 1, &raw);
    // The last byte of the Adler-32 checksum, before the IDAT CRC and IEND.
    let at = bytes.len() - 12 - 4 - 1;
    bytes[at] ^= 0xFF;
    match decode_png_luma(&bytes) {
        Err(PngError::Zlib(detail)) => {
            assert!(detail.starts_with("DecompressError { status: Adler32Mismatch"), "{detail}");
            let e = PngError::Zlib(detail.clone());
            assert_eq!(e.message(), format!("zlib decompression failed: {detail}"));
        }
        other => panic!("expected a zlib failure, got {other:?}"),
    }
}

#[test]
fn lowercasing_ascii_folds_only_the_letters() {
    assert_eq!(nyx_tui::text::to_lowercase("NeO-42_x"), "neo-42_x");
    assert_eq!(nyx_tui::text::to_lowercase("ÁRBOL"), "árbol");
}
