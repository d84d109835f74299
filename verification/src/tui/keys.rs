//! Key handling: which command a key press asks for in the current state,
//! and what each command does to it.
use vstd::prelude::*;

use super::state::{
    confirmed, description_opened, flag_popup_opened, mark_toggled, moved_down, moved_up, selected_spec,
    sets_status, scroll_in_range, submit_popup_opened, username_popup_opened, writeups_opened,
    AppState, ConfirmOutcome,
};
use crate::i18n::{msg_text, Lang, Msg};
use crate::text::owned;
use super::{clamp_index, drop_last_char, name_key, texts, writeups_by, InputMode, Popup, Tab, WriteupsPopup};

verus! {

/// A key, as far as the dashboard tells keys apart.
#[derive(Debug, Clone, Copy, PartialEq, Eq, Structural)]
pub enum Key {
    Char(char),
    Enter,
    Esc,
    Backspace,
    Tab,
    BackTab,
    Up,
    Down,
    Left,
    Right,
    Home,
    Other,
}

/// A key press: the key and whether Control was held.
#[derive(Debug, Clone, Copy, PartialEq, Eq, Structural)]
pub struct KeyPress {
    pub key: Key,
    pub ctrl: bool,
}

/// What a key press asks of the dashboard.
#[derive(Debug, Clone, Copy, PartialEq, Eq, Structural)]
pub enum KeyCommand {
    Quit,
    Ignore,
    CloseWriteups,
    OpenSelectedWriteup,
    WriteupsUp,
    WriteupsDown,
    CloseReport,
    ClosePopup,
    CancelPopup,
    ConfirmPopup,
    PopupBackspace,
    PopupNextField,
    PopupPreviousField,
    PopupType(char),
    ClearFilter,
    LeaveFilter,
    FilterPop,
    FilterPush(char),
    Refresh,
    NextTab,
    PreviousTab,
    MoveDown,
    MoveUp,
    MoveStart,
    EnterFilter,
    OpenUsername,
    CycleSort,
    OpenDownloadPage,
    OpenFlag,
    OpenWriteups,
    OpenWriteupSubmit,
    ToggleFirstBlood,
    ToggleCompleted,
    ToggleHideCompleted,
    ToggleLanguage,
    OpenDescription,
    OpenProgressLink,
}

/// What the host must do after a key press.
#[derive(Debug, Clone)]
pub enum KeyEffect {
    Nothing,
    /// Open this writeup URL in the browser, then report with
    /// [`AppState::link_opened`].
    OpenLink(String),
    /// Open this download page in the browser, then report with
    /// [`AppState::download_page_opened`].
    OpenDownloadPage(String),
    /// Persist this username, then report with [`AppState::username_saved`].
    SaveUsername(String),
    /// Persist these completed marks, then report with
    /// [`AppState::preferences_saved`].
    SaveCompleted(Vec<String>),
    /// Persist this interface language, then report with
    /// [`AppState::preferences_saved`].
    SaveLanguage(Lang),
}

/// The command a key press asks for. Control-C always quits; otherwise the
/// writeups popup, then the report, then an open popup capture the keys,
/// and only then the filter line or the normal key bindings.
pub open spec fn command_for(s: AppState, k: KeyPress) -> KeyCommand {
    if k.ctrl && k.key == Key::Char('c') {
        KeyCommand::Quit
    } else if s.writeups_popup is Some {
        match k.key {
            Key::Esc => KeyCommand::CloseWriteups,
            Key::Char(c) if c == 'q' => KeyCommand::CloseWriteups,
            Key::Enter => KeyCommand::OpenSelectedWriteup,
            Key::Up => KeyCommand::WriteupsUp,
            Key::Char(c) if c == 'k' => KeyCommand::WriteupsUp,
            Key::Down => KeyCommand::WriteupsDown,
            Key::Char(c) if c == 'j' => KeyCommand::WriteupsDown,
            _ => KeyCommand::Ignore,
        }
    } else if s.report is Some {
        match k.key {
            Key::Enter | Key::Esc => KeyCommand::CloseReport,
            Key::Char(c) if c == 'q' => KeyCommand::CloseReport,
            _ => KeyCommand::Ignore,
        }
    } else if s.popup is Some {
        if s.popup->0.readonly {
            match k.key {
                Key::Enter | Key::Esc => KeyCommand::ClosePopup,
                Key::Char(c) if c == 'q' => KeyCommand::ClosePopup,
                _ => KeyCommand::Ignore,
            }
        } else {
            match k.key {
                Key::Esc => KeyCommand::CancelPopup,
                Key::Enter => KeyCommand::ConfirmPopup,
                Key::Backspace => KeyCommand::PopupBackspace,
                Key::Tab | Key::Down => KeyCommand::PopupNextField,
                Key::Up => KeyCommand::PopupPreviousField,
                Key::Char(c) => KeyCommand::PopupType(c),
                _ => KeyCommand::Ignore,
            }
        }
    } else if s.input_mode == InputMode::Filter {
        match k.key {
            Key::Esc => KeyCommand::ClearFilter,
            Key::Enter => KeyCommand::LeaveFilter,
            Key::Backspace => KeyCommand::FilterPop,
            Key::Char(c) => KeyCommand::FilterPush(c),
            _ => KeyCommand::Ignore,
        }
    } else {
        match k.key {
            Key::Esc => KeyCommand::Quit,
            Key::Tab | Key::Right => KeyCommand::NextTab,
            Key::Left | Key::BackTab => KeyCommand::PreviousTab,
            Key::Down => KeyCommand::MoveDown,
            Key::Up => KeyCommand::MoveUp,
            Key::Home => KeyCommand::MoveStart,
            Key::Enter => if s.tab == Tab::Machines {
                KeyCommand::OpenDescription
            } else {
                KeyCommand::OpenProgressLink
            },
            Key::Char(c) => normal_char_command(s, c),
            _ => KeyCommand::Ignore,
        }
    }
}

/// The command of a character key in the normal key bindings.
pub open spec fn normal_char_command(s: AppState, c: char) -> KeyCommand {
    if c == 'q' {
        KeyCommand::Quit
    } else if c == 'r' {
        KeyCommand::Refresh
    } else if c == 'j' {
        KeyCommand::MoveDown
    } else if c == 'k' {
        KeyCommand::MoveUp
    } else if c == 'g' {
        KeyCommand::MoveStart
    } else if c == '/' {
        KeyCommand::EnterFilter
    } else if c == 'a' {
        KeyCommand::OpenUsername
    } else if c == 's' {
        if s.tab == Tab::Machines {
            KeyCommand::CycleSort
        } else {
            KeyCommand::Ignore
        }
    } else if c == 'd' {
        KeyCommand::OpenDownloadPage
    } else if c == 'f' {
        KeyCommand::OpenFlag
    } else if c == 'w' {
        KeyCommand::OpenWriteups
    } else if c == 'u' {
        KeyCommand::OpenWriteupSubmit
    } else if c == 'b' {
        KeyCommand::ToggleFirstBlood
    } else if c == 'm' {
        if s.tab == Tab::Machines {
            KeyCommand::ToggleCompleted
        } else {
            KeyCommand::Ignore
        }
    } else if c == 'x' {
        if s.tab == Tab::Machines {
            KeyCommand::ToggleHideCompleted
        } else {
            KeyCommand::Ignore
        }
    } else if c == 'l' {
        KeyCommand::ToggleLanguage
    } else if c == 'i' {
        KeyCommand::OpenDescription
    } else {
        KeyCommand::Ignore
    }
}

/// `new` is `old` with only its popup's active field edited: character
/// `c` appended, or the last character erased when `c` is `None`.
pub open spec fn popup_edited(old: Popup, new: Popup, c: Option<char>) -> bool {
    &&& new == (Popup { buffers: new.buffers, ..old })
    &&& if old.field < old.buffers.len() {
        texts(new.buffers@) == texts(old.buffers@).update(
            old.field as int,
            match c {
                Some(ch) => texts(old.buffers@)[old.field as int].push(ch),
                None => drop_last_char(texts(old.buffers@)[old.field as int]),
            },
        )
    } else {
        new.buffers@ == old.buffers@
    }
}

/// The field a popup with `len` fields moves to from `field`, one step
/// forward or back, wrapping around (it stays put with fewer than two).
pub open spec fn field_step(field: usize, len: usize, forward: bool) -> usize {
    if len > 1 {
        if forward {
            ((field + 1) % (len as int)) as usize
        } else {
            ((field + len - 1) % (len as int)) as usize
        }
    } else {
        field
    }
}

/// The state's popup is replaced by one that `edit` relates to it.
pub open spec fn popup_changed(
    old: AppState,
    new: AppState,
    edit: spec_fn(Popup, Popup) -> bool,
) -> bool {
    match old.popup {
        None => new == old,
        Some(p) => {
            &&& new.popup matches Some(q) && edit(p, q)
            &&& new == (AppState { popup: new.popup, ..old })
        },
    }
}

/// The state's writeups popup moves its selection by `delta`.
pub open spec fn writeups_moved(old: AppState, new: AppState, delta: int) -> bool {
    match old.writeups_popup {
        None => new == old,
        Some(w) => new == (AppState {
            writeups_popup: Some(
                WriteupsPopup {
                    selected: clamp_index(w.selected + delta, w.entries.len() as int) as usize,
                    ..w
                },
            ),
            ..old
        }),
    }
}

/// The outcome of confirming a popup, as a key effect.
pub open spec fn effect_of(out: ConfirmOutcome) -> KeyEffect {
    match out {
        ConfirmOutcome::Nothing => KeyEffect::Nothing,
        ConfirmOutcome::SaveUsername(s) => KeyEffect::SaveUsername(s),
    }
}

/// `new` is `old` with the list position back at the top and `changed`
/// in every other respect.
pub open spec fn list_reset(old: AppState, new: AppState, changed: AppState) -> bool {
    new == (AppState { selected: 0, scroll: 0, ..changed })
}

/// Nothing happens unless the guard fails, in which case `opened` holds.
pub open spec fn guarded(old: AppState, new: AppState, e: KeyEffect, guard: bool, opened: bool) -> bool {
    &&& e is Nothing
    &&& guard ==> new == old
    &&& !guard ==> opened
}

/// What command `c` does to state `old`, giving `new` and effect `e`.
pub open spec fn applied(old: AppState, c: KeyCommand, new: AppState, e: KeyEffect) -> bool {
    let busy = old.popup is Some || old.report is Some;
    let covered = busy || old.writeups_popup is Some;
    match c {
        KeyCommand::Quit => e is Nothing && new == (AppState { quit: true, ..old }),
        KeyCommand::Ignore => e is Nothing && new == old,
        KeyCommand::CloseWriteups => e is Nothing && new == (AppState { writeups_popup: None, ..old }),
        KeyCommand::OpenSelectedWriteup => {
            &&& new == old
            &&& match old.writeups_popup {
                Some(w) => if w.selected < w.entries.len() {
                    e matches KeyEffect::OpenLink(u) && u@ == w.entries@[w.selected as int].url@
                } else {
                    e is Nothing
                },
                None => e is Nothing,
            }
        },
        KeyCommand::WriteupsUp => e is Nothing && writeups_moved(old, new, -1),
        KeyCommand::WriteupsDown => e is Nothing && writeups_moved(old, new, 1),
        KeyCommand::CloseReport => e is Nothing && new == (AppState {
            report: None,
            pending_refresh_after_close: false,
            ..old
        }),
        KeyCommand::ClosePopup => e is Nothing && new == (AppState { popup: None, ..old }),
        KeyCommand::CancelPopup => e is Nothing && sets_status(
            AppState { popup: None, ..old },
            new,
            "Cancelled."@,
        ),
        KeyCommand::ConfirmPopup => match old.popup {
            None => e is Nothing && new == old,
            Some(p) => exists|out: ConfirmOutcome|
                confirmed(old, p, new, out) && e == #[trigger] effect_of(out),
        },
        KeyCommand::PopupBackspace => e is Nothing && popup_changed(
            old,
            new,
            |p: Popup, q: Popup| popup_edited(p, q, None),
        ),
        KeyCommand::PopupType(ch) => e is Nothing && popup_changed(
            old,
            new,
            |p: Popup, q: Popup| popup_edited(p, q, Some(ch)),
        ),
        KeyCommand::PopupNextField => e is Nothing && popup_changed(
            old,
            new,
            |p: Popup, q: Popup|
                q == (Popup { field: field_step(p.field, p.buffers.len(), true), ..p }),
        ),
        KeyCommand::PopupPreviousField => e is Nothing && popup_changed(
            old,
            new,
            |p: Popup, q: Popup|
                q == (Popup { field: field_step(p.field, p.buffers.len(), false), ..p }),
        ),
        KeyCommand::ClearFilter => {
            &&& e is Nothing
            &&& new.filter@ == Seq::<char>::empty()
            &&& list_reset(
                old,
                new,
                AppState { filter: new.filter, input_mode: InputMode::Normal, ..old },
            )
        },
        KeyCommand::LeaveFilter => e is Nothing && new == (AppState {
            input_mode: InputMode::Normal,
            ..old
        }),
        KeyCommand::FilterPop => {
            &&& e is Nothing
            &&& new.filter@ == drop_last_char(old.filter@)
            &&& list_reset(old, new, AppState { filter: new.filter, ..old })
        },
        KeyCommand::FilterPush(ch) => {
            &&& e is Nothing
            &&& new.filter@ == old.filter@.push(ch)
            &&& list_reset(old, new, AppState { filter: new.filter, ..old })
        },
        KeyCommand::Refresh => e is Nothing && new == (AppState {
            refresh_requested: old.refresh_requested || old.fetching is None,
            ..old
        }),
        KeyCommand::NextTab => e is Nothing && list_reset(
            old,
            new,
            AppState { tab: old.tab.following(), ..old },
        ),
        KeyCommand::PreviousTab => {
            &&& e is Nothing
            &&& new.tab.following() == old.tab
            &&& list_reset(old, new, AppState { tab: new.tab, ..old })
        },
        KeyCommand::MoveDown => e is Nothing && moved_down(old, new),
        KeyCommand::MoveUp => e is Nothing && moved_up(old, new),
        KeyCommand::MoveStart => e is Nothing && list_reset(old, new, old),
        KeyCommand::EnterFilter => e is Nothing && new == (AppState {
            input_mode: InputMode::Filter,
            ..old
        }),
        KeyCommand::OpenUsername => guarded(old, new, e, busy, username_popup_opened(old, new)),
        KeyCommand::CycleSort => e is Nothing && list_reset(
            old,
            new,
            AppState { machine_sort: old.machine_sort.following(), ..old },
        ),
        KeyCommand::OpenDownloadPage => if old.tab != Tab::Machines {
            e is Nothing && sets_status(
                old,
                new,
                "Downloads are only available on the Machines tab."@,
            )
        } else {
            match selected_spec(old) {
                None => e is Nothing && sets_status(old, new, "Nothing selected."@),
                Some(m) => {
                    &&& e matches KeyEffect::OpenDownloadPage(u) && u@
                        == "https://vulnyx.com/download.php?vm="@ + m.name@
                    &&& new == old
                },
            }
        },
        KeyCommand::OpenFlag => guarded(old, new, e, busy, flag_popup_opened(old, new)),
        KeyCommand::OpenWriteups => guarded(old, new, e, covered, writeups_opened(old, new)),
        KeyCommand::OpenWriteupSubmit => guarded(
            old,
            new,
            e,
            covered,
            submit_popup_opened(old, new),
        ),
        KeyCommand::ToggleFirstBlood => e is Nothing && list_reset(
            old,
            new,
            AppState { only_first_blood: !old.only_first_blood, ..old },
        ),
        KeyCommand::ToggleCompleted => match e {
            KeyEffect::Nothing => mark_toggled(old, new, None),
            KeyEffect::SaveCompleted(marks) => mark_toggled(old, new, Some(marks)),
            _ => false,
        },
        KeyCommand::ToggleHideCompleted => e is Nothing && sets_status(
            AppState { hide_completed: !old.hide_completed, selected: 0, scroll: 0, ..old },
            new,
            if old.hide_completed {
                msg_text(Msg::CompletedShown, old.lang)
            } else {
                msg_text(Msg::CompletedHidden, old.lang)
            },
        ),
        KeyCommand::ToggleLanguage => {
            &&& e == KeyEffect::SaveLanguage(old.lang.other())
            &&& sets_status(
                AppState { lang: old.lang.other(), ..old },
                new,
                msg_text(Msg::LanguageSet(old.lang.other()), old.lang.other()),
            )
        },
        KeyCommand::OpenDescription => guarded(old, new, e, covered, description_opened(old, new)),
        KeyCommand::OpenProgressLink => {
            let rows = writeups_by(old.data.writeups@, name_key(old.username@));
            if old.selected < rows.len() {
                &&& e matches KeyEffect::OpenLink(u) && u@ == rows[old.selected as int].1.url@
                &&& new == old
            } else {
                &&& e is Nothing
                &&& sets_status(old, new, "No writeup link on this row."@)
            }
        },
    }
}

/// The command that key press `key` asks for in state `app`.
pub fn key_command(app: &AppState, key: KeyPress) -> (c: KeyCommand)
    ensures
        c == command_for(*app, key),
{
    if key.ctrl && key.key == Key::Char('c') {
        return KeyCommand::Quit;
    }
    if app.writeups_popup.is_some() {
        return match key.key {
            Key::Esc => KeyCommand::CloseWriteups,
            Key::Char(c) if c == 'q' => KeyCommand::CloseWriteups,
            Key::Enter => KeyCommand::OpenSelectedWriteup,
            Key::Up => KeyCommand::WriteupsUp,
            Key::Char(c) if c == 'k' => KeyCommand::WriteupsUp,
            Key::Down => KeyCommand::WriteupsDown,
            Key::Char(c) if c == 'j' => KeyCommand::WriteupsDown,
            _ => KeyCommand::Ignore,
        };
    }
    if app.report.is_some() {
        return match key.key {
            Key::Enter | Key::Esc => KeyCommand::CloseReport,
            Key::Char(c) if c == 'q' => KeyCommand::CloseReport,
            _ => KeyCommand::Ignore,
        };
    }
    match &app.popup {
        Some(p) => {
            if p.readonly {
                return match key.key {
                    Key::Enter | Key::Esc => KeyCommand::ClosePopup,
                    Key::Char(c) if c == 'q' => KeyCommand::ClosePopup,
                    _ => KeyCommand::Ignore,
                };
            }
            return match key.key {
                Key::Esc => KeyCommand::CancelPopup,
                Key::Enter => KeyCommand::ConfirmPopup,
                Key::Backspace => KeyCommand::PopupBackspace,
                Key::Tab | Key::Down => KeyCommand::PopupNextField,
                Key::Up => KeyCommand::PopupPreviousField,
                Key::Char(c) => KeyCommand::PopupType(c),
                _ => KeyCommand::Ignore,
            };
        },
        None => {},
    }
    if app.input_mode == InputMode::Filter {
        return match key.key {
            Key::Esc => KeyCommand::ClearFilter,
            Key::Enter => KeyCommand::LeaveFilter,
            Key::Backspace => KeyCommand::FilterPop,
            Key::Char(c) => KeyCommand::FilterPush(c),
            _ => KeyCommand::Ignore,
        };
    }
    match key.key {
        Key::Esc => KeyCommand::Quit,
        Key::Tab | Key::Right => KeyCommand::NextTab,
        Key::Left | Key::BackTab => KeyCommand::PreviousTab,
        Key::Down => KeyCommand::MoveDown,
        Key::Up => KeyCommand::MoveUp,
        Key::Home => KeyCommand::MoveStart,
        Key::Enter => if app.tab == Tab::Machines {
            KeyCommand::OpenDescription
        } else {
            KeyCommand::OpenProgressLink
        },
        Key::Char(c) => normal_char(app.tab, c),
        _ => KeyCommand::Ignore,
    }
}

fn normal_char(tab: Tab, c: char) -> (r: KeyCommand)
    ensures
        forall|s: AppState| s.tab == tab ==> r == #[trigger] normal_char_command(s, c),
{
    if c == 'q' {
        KeyCommand::Quit
    } else if c == 'r' {
        KeyCommand::Refresh
    } else if c == 'j' {
        KeyCommand::MoveDown
    } else if c == 'k' {
        KeyCommand::MoveUp
    } else if c == 'g' {
        KeyCommand::MoveStart
    } else if c == '/' {
        KeyCommand::EnterFilter
    } else if c == 'a' {
        KeyCommand::OpenUsername
    } else if c == 's' {
        if tab == Tab::Machines {
            KeyCommand::CycleSort
        } else {
            KeyCommand::Ignore
        }
    } else if c == 'd' {
        KeyCommand::OpenDownloadPage
    } else if c == 'f' {
        KeyCommand::OpenFlag
    } else if c == 'w' {
        KeyCommand::OpenWriteups
    } else if c == 'u' {
        KeyCommand::OpenWriteupSubmit
    } else if c == 'b' {
        KeyCommand::ToggleFirstBlood
    } else if c == 'm' {
        if tab == Tab::Machines {
            KeyCommand::ToggleCompleted
        } else {
            KeyCommand::Ignore
        }
    } else if c == 'x' {
        if tab == Tab::Machines {
            KeyCommand::ToggleHideCompleted
        } else {
            KeyCommand::Ignore
        }
    } else if c == 'l' {
        KeyCommand::ToggleLanguage
    } else if c == 'i' {
        KeyCommand::OpenDescription
    } else {
        KeyCommand::Ignore
    }
}

/// Carries out command `c` on the state.
#[verifier::rlimit(40)]
#[verifier::spinoff_prover]
pub fn apply_command(app: &mut AppState, c: KeyCommand) -> (e: KeyEffect)
    requires
        c == KeyCommand::MoveDown ==> old(app).selected < usize::MAX,
        c == KeyCommand::MoveDown || c == KeyCommand::MoveUp ==> scroll_in_range(*old(app)),
    ensures
        applied(*old(app), c, *final(app), e),
{
    match c {
        KeyCommand::Quit => {
            app.request_quit();
            KeyEffect::Nothing
        },
        KeyCommand::Ignore => KeyEffect::Nothing,
        KeyCommand::CloseWriteups => {
            app.writeups_popup = None;
            KeyEffect::Nothing
        },
        KeyCommand::OpenSelectedWriteup => match &app.writeups_popup {
            Some(w) => match w.selected_url() {
                Some(u) => KeyEffect::OpenLink(owned(u)),
                None => KeyEffect::Nothing,
            },
            None => KeyEffect::Nothing,
        },
        KeyCommand::WriteupsUp => {
            move_writeups(app, -1);
            KeyEffect::Nothing
        },
        KeyCommand::WriteupsDown => {
            move_writeups(app, 1);
            KeyEffect::Nothing
        },
        KeyCommand::CloseReport => {
            let _ = app.close_report();
            KeyEffect::Nothing
        },
        KeyCommand::ClosePopup => {
            app.popup = None;
            KeyEffect::Nothing
        },
        KeyCommand::CancelPopup => {
            app.popup = None;
            app.set_status(owned("Cancelled."));
            KeyEffect::Nothing
        },
        KeyCommand::ConfirmPopup => {
            let out = app.confirm_popup();
            let ghost g = out;
            let e = match out {
                ConfirmOutcome::Nothing => KeyEffect::Nothing,
                ConfirmOutcome::SaveUsername(s) => KeyEffect::SaveUsername(s),
            };
            assert(e == effect_of(g));
            e
        },
        KeyCommand::PopupBackspace => {
            match app.popup.take() {
                Some(mut p) => {
                    p.pop();
                    app.popup = Some(p);
                },
                None => {},
            }
            KeyEffect::Nothing
        },
        KeyCommand::PopupType(ch) => {
            match app.popup.take() {
                Some(mut p) => {
                    p.push(ch);
                    app.popup = Some(p);
                },
                None => {},
            }
            KeyEffect::Nothing
        },
        KeyCommand::PopupNextField => {
            match app.popup.take() {
                Some(mut p) => {
                    p.next_field();
                    app.popup = Some(p);
                },
                None => {},
            }
            KeyEffect::Nothing
        },
        KeyCommand::PopupPreviousField => {
            match app.popup.take() {
                Some(mut p) => {
                    p.previous_field();
                    app.popup = Some(p);
                },
                None => {},
            }
            KeyEffect::Nothing
        },
        KeyCommand::ClearFilter => {
            app.clear_filter();
            app.input_mode = InputMode::Normal;
            KeyEffect::Nothing
        },
        KeyCommand::LeaveFilter => {
            app.input_mode = InputMode::Normal;
            KeyEffect::Nothing
        },
        KeyCommand::FilterPop => {
            app.filter_pop();
            KeyEffect::Nothing
        },
        KeyCommand::FilterPush(ch) => {
            app.filter_push(ch);
            KeyEffect::Nothing
        },
        KeyCommand::Refresh => {
            app.request_refresh();
            KeyEffect::Nothing
        },
        KeyCommand::NextTab => {
            app.next_tab();
            KeyEffect::Nothing
        },
        KeyCommand::PreviousTab => {
            app.previous_tab();
            KeyEffect::Nothing
        },
        KeyCommand::MoveDown => {
            app.move_down();
            KeyEffect::Nothing
        },
        KeyCommand::MoveUp => {
            app.move_up();
            KeyEffect::Nothing
        },
        KeyCommand::MoveStart => {
            app.move_start();
            KeyEffect::Nothing
        },
        KeyCommand::EnterFilter => {
            app.enter_filter_mode();
            KeyEffect::Nothing
        },
        KeyCommand::OpenUsername => {
            app.open_username_popup();
            KeyEffect::Nothing
        },
        KeyCommand::CycleSort => {
            app.machine_sort = app.machine_sort.next();
            app.reset_list_position();
            KeyEffect::Nothing
        },
        KeyCommand::OpenDownloadPage => match app.open_download_page() {
            Some(u) => KeyEffect::OpenDownloadPage(u),
            None => KeyEffect::Nothing,
        },
        KeyCommand::OpenFlag => {
            app.open_flag_popup();
            KeyEffect::Nothing
        },
        KeyCommand::OpenWriteups => {
            app.open_writeups_popup();
            KeyEffect::Nothing
        },
        KeyCommand::OpenWriteupSubmit => {
            app.open_writeup_submit_popup();
            KeyEffect::Nothing
        },
        KeyCommand::ToggleFirstBlood => {
            app.only_first_blood = !app.only_first_blood;
            app.reset_list_position();
            KeyEffect::Nothing
        },
        KeyCommand::ToggleCompleted => match app.toggle_completed() {
            Some(marks) => KeyEffect::SaveCompleted(marks),
            None => KeyEffect::Nothing,
        },
        KeyCommand::ToggleHideCompleted => {
            app.toggle_hide_completed();
            KeyEffect::Nothing
        },
        KeyCommand::ToggleLanguage => KeyEffect::SaveLanguage(app.toggle_language()),
        KeyCommand::OpenDescription => {
            app.open_descripcion_popup();
            KeyEffect::Nothing
        },
        KeyCommand::OpenProgressLink => match app.open_selected_writeup_link() {
            Some(u) => KeyEffect::OpenLink(u),
            None => KeyEffect::Nothing,
        },
    }
}

fn move_writeups(app: &mut AppState, delta: isize)
    ensures
        writeups_moved(*old(app), *final(app), delta as int),
{
    match app.writeups_popup.take() {
        Some(mut w) => {
            w.move_selection(delta);
            app.writeups_popup = Some(w);
        },
        None => {},
    }
}

/// Handles one key press: finds the command it asks for and carries it
/// out. The effect tells the host what remains to do outside.
pub fn handle_key(app: &mut AppState, key: KeyPress) -> (e: KeyEffect)
    requires
        command_for(*old(app), key) == KeyCommand::MoveDown ==> old(app).selected < usize::MAX,
        command_for(*old(app), key) == KeyCommand::MoveDown || command_for(*old(app), key)
            == KeyCommand::MoveUp ==> scroll_in_range(*old(app)),
    ensures
        applied(*old(app), command_for(*old(app), key), *final(app), e),
{
    let c = key_command(app, key);
    apply_command(app, c)
}


/// Control-C quits from every state, whatever popup or mode is active.
pub proof fn control_c_always_quits(s: AppState)
    ensures
        command_for(s, KeyPress { key: Key::Char('c'), ctrl: true }) == KeyCommand::Quit,
{
}

/// Moving one field forward and then one back (or back, then forward)
/// returns to the field one started from.
pub proof fn field_steps_undo(field: usize, len: usize)
    requires
        field < len,
    ensures
        field_step(field_step(field, len, true), len, false) == field,
        field_step(field_step(field, len, false), len, true) == field,
{
    if len > 1 {
        let n = len as int;
        let f = field as int;
        assert(field_step(field, len, true) == (if f + 1 < n { f + 1 } else { 0 })) by {
            if f + 1 < n {
                vstd::arithmetic::div_mod::lemma_small_mod((f + 1) as nat, n as nat);
            } else {
                vstd::arithmetic::div_mod::lemma_mod_self_0(n);
            }
        }
        let g = field_step(field, len, true) as int;
        assert(field_step(g as usize, len, false) == f) by {
            if g == 0 {
                vstd::arithmetic::div_mod::lemma_small_mod((n - 1) as nat, n as nat);
            } else {
                vstd::arithmetic::div_mod::lemma_mod_add_multiples_vanish(g - 1, n);
                vstd::arithmetic::div_mod::lemma_small_mod((g - 1) as nat, n as nat);
            }
        }
        assert(field_step(field, len, false) == (if f >= 1 { f - 1 } else { n - 1 })) by {
            if f >= 1 {
                vstd::arithmetic::div_mod::lemma_mod_add_multiples_vanish(f - 1, n);
                vstd::arithmetic::div_mod::lemma_small_mod((f - 1) as nat, n as nat);
            } else {
                vstd::arithmetic::div_mod::lemma_small_mod((n - 1) as nat, n as nat);
            }
        }
        let h = field_step(field, len, false) as int;
        assert(field_step(h as usize, len, true) == f) by {
            if h + 1 < n {
                vstd::arithmetic::div_mod::lemma_small_mod((h + 1) as nat, n as nat);
            } else {
                vstd::arithmetic::div_mod::lemma_mod_self_0(n);
            }
        }
    }
}

} // verus!
