use nyx_tui::flags::parse_flag_response;
use nyx_tui::i18n::{Lang, Msg};
use nyx_tui::leaderboard::{compute, position_of};
use nyx_tui::machines::{difficulty_rank, release_sort_key, Machine};
use nyx_tui::tui::layout::{report_box, wrap_text};
use nyx_tui::tui::ReportKind;
use nyx_tui::writeups::{parse_ok, WriteupEntry};

fn machine(first_user: &str, first_root: &str) -> Machine {
    Machine {
        first_user: first_user.into(),
        first_root: first_root.into(),
        ..Default::default()
    }
}

fn writeup(author: &str) -> (String, WriteupEntry) {
    (
        "x".into(),
        WriteupEntry {
            author: author.into(),
            ..Default::default()
        },
    )
}

#[test]
fn lang_toggle_and_codes() {
    assert_eq!(Lang::En.toggle(), Lang::Es);
    assert_eq!(Lang::Es.toggle(), Lang::En);
    assert_eq!(Lang::from_code("es"), Lang::Es);
    assert_eq!(Lang::from_code("ES"), Lang::Es);
    assert_eq!(Lang::from_code("fr"), Lang::En);
    assert_eq!(Lang::from_code(""), Lang::En);
    assert_eq!(Lang::default(), Lang::En);
}

#[test]
fn messages_render_in_both_languages() {
    assert_eq!(Msg::Cancelled.render(Lang::En), "Cancelled.");
    assert_eq!(Msg::Cancelled.render(Lang::Es), "Cancelado.");
    assert_eq!(Msg::MachinesCount(5).render(Lang::En), "5 machines");
    assert_eq!(Msg::MachinesCount(5).render(Lang::Es), "5 máquinas");
    assert_eq!(
        Msg::MarkedCompleted("apex".into()).render(Lang::Es),
        "apex marcada como completada."
    );
    assert_eq!(
        Msg::LanguageSet(Lang::Es).render(Lang::Es),
        "Idioma: Español"
    );
    assert_eq!(
        Msg::LanguageSet(Lang::En).render(Lang::Es),
        "Idioma: English"
    );
}

#[test]
fn parse_flag_response_accepts_with_bonus() {
    let message =
        parse_flag_response(r#"{"ok":true,"message":"First blood!","first_blood_bonus":20}"#)
            .unwrap();
    assert!(message.contains("First blood!"));
    assert!(message.contains("+20"));
}

#[test]
fn parse_flag_response_rejects() {
    assert!(parse_flag_response(r#"{"ok":false,"message":"Wrong flag"}"#).is_err());
}

#[test]
fn computes_leaderboard_like_the_site() {
    let machines = vec![
        machine("alice", "bob"),
        machine("alice", ""),
        machine("", ""),
    ];
    let writeups = vec![writeup("alice"), writeup("bob"), writeup("bob")];
    let list = compute(&machines, &writeups);
    // alice: 2 user bloods (40) + 1 writeup (15) = 55
    // bob:   1 root blood (30) + 2 writeups (30) = 60
    assert_eq!(list[0].user, "bob");
    assert_eq!(list[0].points, 60);
    assert_eq!(list[0].first_root, 1);
    assert_eq!(list[1].user, "alice");
    assert_eq!(list[1].points, 55);
    assert_eq!(list[1].first_user, 2);
    assert_eq!(position_of(&list, "ALICE"), Some(2));
    assert_eq!(position_of(&list, "nobody"), None);
}

#[test]
fn excluded_staff_is_absent_and_skipped() {
    // d4t4s3c creates machines and holds bloods; the site hides the
    // account everywhere, so it must earn neither rank nor points.
    let mut creator = machine("challenger", "challenger");
    creator.creator = "d4t4s3c".into();
    let machines = vec![
        creator,
        machine("d4t4s3c", "challenger"),
        machine("challenger", ""),
    ];
    let writeups = vec![writeup("d4t4s3c"), writeup("challenger")];
    let list = compute(&machines, &writeups);
    // challenger bloods: user m1 (20) + root m1 (30) + root m2 (30)
    // + user m3 (20) = 100, + 1 writeup (15) = 115
    assert_eq!(list[0].points, 115);
    assert_eq!(position_of(&list, "d4t4s3c"), None);
}

#[test]
fn placeholders_are_ignored_like_on_the_site() {
    let machines = vec![
        machine("--", "-"),
        machine("", "  "),
        Machine::default(),
    ];
    let list = compute(&machines, &[]);
    assert!(
        list.is_empty(),
        "empty and placeholder names must not create rows"
    );
}

#[test]
fn sorts_by_date_and_difficulty() {
    assert!(release_sort_key("2025-01-22") > release_sort_key("2024-12-01"));
    assert_eq!(release_sort_key("basura"), (0, 0, 0));
    assert!(difficulty_rank("Low") < difficulty_rank("Easy"));
    assert!(difficulty_rank("Easy") < difficulty_rank("Medium"));
    assert!(difficulty_rank("Medium") < difficulty_rank("Hard"));
}

#[test]
fn parse_ok_accepts_and_rejects() {
    assert_eq!(
        parse_ok(r#"{"ok":true,"message":"nice"}"#, "fallback").unwrap(),
        "nice"
    );
    assert!(parse_ok(r#"{"ok":false,"error":"nope"}"#, "fallback").is_err());
}

#[test]
fn wrap_text_wraps_breaks_and_preserves_empty() {
    assert_eq!(wrap_text("aa bb cc", 5), vec!["aa bb", "cc"]);
    assert_eq!(wrap_text("abcdefghij", 4), vec!["abcd", "efgh", "ij"]);
    assert_eq!(wrap_text("", 10), vec![String::new()]);
}

#[test]
fn report_box_caps_width_and_fits_area() {
    let long = vec![(ReportKind::Info, "a".repeat(200))];
    let (width, height) = report_box(&long, (80, 24));
    assert_eq!(width, 78); // inner capped at 76 + 2 borders
    // 200 chars wrapped at inner-2 -> 3 lines; blanks + hint + borders.
    assert_eq!(height, 2 + 3 + 1 + 2);

    let huge = vec![(ReportKind::Failure, "b".repeat(400))];
    let (width, height) = report_box(&huge, (80, 24));
    assert_eq!(width, 78);
    assert!(height <= 24, "report popup must fit an 80x24 area");

    // Narrow terminal: popup_area clamps both dimensions.
    let (width, height) = report_box(&huge, (30, 6));
    assert_eq!((width, height), (30, 6));
}
