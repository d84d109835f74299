//! The dashboard's application state and its transitions.
use vstd::prelude::*;

use super::{
    instant_after_secs, instant_now, instant_reached, texts, writeups_by, ActionKind, ActionReport,
    InputMode, MachineSort, Popup, PopupKind, ReportKind, Tab, TuiAction, TuiData, WriteupsPopup,
    name_key, STATUS_LIFETIME_SECS,
};
use crate::machines::{difficulty_rank, difficulty_rank_of, release_key, release_sort_key, slot_open, Machine};
use crate::order::{
    arrange, ints, keys_view, shown_at, shows_each, sorted_indices, stable_sort_indices, text_key,
    text_key_of,
};
use crate::text::{contains, contains_seq, lowercase_of, owned, to_lowercase, trim, trimmed};
use crate::writeups::WriteupEntry;
use crate::config::strings;
use crate::i18n::{msg_text, Lang, Msg};

verus! {

pub struct AppState {
    pub tab: Tab,
    pub input_mode: InputMode,
    pub filter: String,
    pub selected: usize,
    pub scroll: usize,
    pub machine_sort: MachineSort,
    pub only_first_blood: bool,
    pub quit: bool,
    pub refresh_requested: bool,
    pub fetching: Option<String>,
    pub status: Option<String>,
    pub status_expiry: Option<std::time::Instant>,
    pub popup: Option<Popup>,
    pub pending_action: Option<TuiAction>,
    pub report: Option<ActionReport>,
    pub writeups_popup: Option<WriteupsPopup>,
    pub pending_refresh_after_close: bool,
    pub data: TuiData,
    pub last_visible_rows: Option<usize>,
    /// The self-declared username from the local configuration; the host
    /// keeps it current.
    pub username: String,
    /// Slugs of the machines marked as completed by hand (kept in the
    /// local configuration).
    pub completed: Vec<String>,
    /// Completed machines are left out of the Machines list.
    pub hide_completed: bool,
    /// The language of the interface's catalog texts.
    pub lang: Lang,
}

/// The rows the list shows at once: the renderer's last report, or 10
/// before the first one (never less than 1).
pub open spec fn window(rows: Option<usize>) -> int {
    match rows {
        Some(r) => if r >= 1 {
            r as int
        } else {
            1
        },
        None => 10,
    }
}

/// The scroll offset that keeps `selected` inside `[scroll, scroll +
/// visible)`, moving the window as little as possible.
pub open spec fn scrolled(selected: int, scroll: int, visible: int) -> int {
    if selected < scroll {
        selected
    } else if selected >= scroll + visible {
        selected + 1 - visible
    } else {
        scroll
    }
}

/// The machine matches the lowercased filter `needle`: in its name,
/// difficulty, OS, creator or one of its tech tags (an empty filter
/// matches every machine).
pub open spec fn matches_filter(m: Machine, needle: Seq<char>) -> bool {
    ||| needle.len() == 0
    ||| contains_seq(lowercase_of(m.name@), needle)
    ||| contains_seq(lowercase_of(m.difficulty@), needle)
    ||| contains_seq(lowercase_of(m.os@), needle)
    ||| contains_seq(lowercase_of(m.creator@), needle)
    ||| exists|t: int|
        0 <= t < m.tech_tags@.len() && contains_seq(lowercase_of(#[trigger] m.tech_tags@[t]@), needle)
}

/// The machine is listed: it matches the filter, in first-blood-only mode
/// has an open slot, and is not among the `hidden` slugs.
pub open spec fn is_listed(
    m: Machine,
    needle: Seq<char>,
    only_first_blood: bool,
    hidden: Set<Seq<char>>,
) -> bool {
    &&& matches_filter(m, needle)
    &&& !only_first_blood || slot_open(m.first_user@) || slot_open(m.first_root@)
    &&& !hidden.contains(m.slug@)
}

/// The listed machines, in catalog order.
pub open spec fn listed(
    ms: Seq<Machine>,
    needle: Seq<char>,
    only_first_blood: bool,
    hidden: Set<Seq<char>>,
) -> Seq<Machine>
    decreases ms.len(),
{
    if ms.len() == 0 {
        Seq::empty()
    } else {
        listed(ms.drop_last(), needle, only_first_blood, hidden) + if is_listed(
            ms.last(),
            needle,
            only_first_blood,
            hidden,
        ) {
            seq![ms.last()]
        } else {
            Seq::empty()
        }
    }
}

/// The machine `slug` counts as completed: marked by hand, or one of the
/// user's writeups on the site is about it.
pub open spec fn is_done(s: AppState, slug: Seq<char>) -> bool {
    ||| exists|i: int| 0 <= i < s.completed@.len() && (#[trigger] s.completed@[i])@ == slug
    ||| exists|i: int|
        0 <= i < writeups_by(s.data.writeups@, name_key(s.username@)).len() && (
        #[trigger] writeups_by(s.data.writeups@, name_key(s.username@))[i]).0@ == slug
}

/// The slugs the Machines list leaves out: the completed machines while
/// they are hidden, otherwise none.
pub open spec fn hidden_slugs(s: AppState) -> Set<Seq<char>> {
    if s.hide_completed {
        Set::new(|slug: Seq<char>| is_done(s, slug))
    } else {
        Set::empty()
    }
}

/// The key a sort order compares machines by: the lowercased name; the
/// release date, newest first; or the difficulty rank.
pub open spec fn sort_key(m: Machine, sort: MachineSort) -> Seq<u64> {
    match sort {
        MachineSort::Sitio => Seq::empty(),
        MachineSort::Nombre => text_key(lowercase_of(m.name@)),
        MachineSort::Fecha => {
            let (y, mo, d) = release_key(m.release_date@);
            seq![
                (u32::MAX - y) as u64,
                (u32::MAX - mo) as u64,
                (u32::MAX - d) as u64,
            ]
        },
        MachineSort::Dificultad => seq![difficulty_rank_of(m.difficulty@) as u64],
    }
}

/// The machines that pass the filters, in catalog order.
pub open spec fn listed_machines(s: AppState) -> Seq<Machine> {
    listed(s.data.machines@, lowercase_of(s.filter@), s.only_first_blood, hidden_slugs(s))
}

/// The Machines tab's rows: the listed machines, in site order or stably
/// sorted by the chosen key.
pub open spec fn visible_spec(s: AppState) -> Seq<Machine> {
    let l = listed_machines(s);
    if s.machine_sort == MachineSort::Sitio {
        l
    } else {
        arrange(l, sorted_indices(l.map_values(|m: Machine| sort_key(m, s.machine_sort))))
    }
}

/// The machine under the selection (Machines tab only).
pub open spec fn selected_spec(s: AppState) -> Option<Machine> {
    if s.tab != Tab::Machines || s.selected >= visible_spec(s).len() {
        None
    } else {
        Some(visible_spec(s)[s.selected as int])
    }
}

/// The number of rows of the current tab.
pub open spec fn row_count_spec(s: AppState) -> int {
    match s.tab {
        Tab::Machines => visible_spec(s).len() as int,
        Tab::Progress => writeups_by(s.data.writeups@, name_key(s.username@)).len() as int,
    }
}

/// The arithmetic of keeping the selection visible stays in range.
pub open spec fn scroll_in_range(s: AppState) -> bool {
    s.scroll + window(s.last_visible_rows) <= usize::MAX
}

/// `new` is `old` with the selection one row further down (stopping at the
/// last row) and scrolled into view.
pub open spec fn moved_down(old: AppState, new: AppState) -> bool {
    let last = if row_count_spec(old) >= 1 {
        row_count_spec(old) - 1
    } else {
        0
    };
    let sel = if old.selected + 1 < last {
        old.selected + 1
    } else {
        last
    };
    new == (AppState {
        selected: sel as usize,
        scroll: scrolled(sel, old.scroll as int, window(old.last_visible_rows)) as usize,
        ..old
    })
}

/// `new` is `old` with the selection one row further up (stopping at the
/// first row) and scrolled into view.
pub open spec fn moved_up(old: AppState, new: AppState) -> bool {
    let sel = if old.selected >= 1 {
        old.selected - 1
    } else {
        0
    };
    new == (AppState {
        selected: sel as usize,
        scroll: scrolled(sel, old.scroll as int, window(old.last_visible_rows)) as usize,
        ..old
    })
}

fn text_contains(hay: &String, needle: &String) -> (r: bool)
    ensures
        r == contains_seq(hay@, needle@),
{
    contains(hay.as_str(), needle.as_str())
}

fn lower_contains(hay: &String, needle: &String) -> (r: bool)
    ensures
        r == contains_seq(lowercase_of(hay@), needle@),
{
    let l = to_lowercase(hay.as_str());
    text_contains(&l, needle)
}

fn machine_matches(m: &Machine, needle: &String) -> (r: bool)
    ensures
        r == matches_filter(*m, needle@),
{
    if needle.as_str().is_empty() || lower_contains(&m.name, needle) || lower_contains(
        &m.difficulty,
        needle,
    ) || lower_contains(&m.os, needle) || lower_contains(&m.creator, needle) {
        return true;
    }
    let mut t: usize = 0;
    while t < m.tech_tags.len()
        invariant
            t <= m.tech_tags.len(),
            needle@.len() != 0,
            forall|k: int|
                0 <= k < t ==> !contains_seq(lowercase_of(#[trigger] m.tech_tags@[k]@), needle@),
        decreases m.tech_tags.len() - t,
    {
        if lower_contains(&m.tech_tags[t], needle) {
            return true;
        }
        t += 1;
    }
    false
}

fn machine_sort_key(m: &Machine, sort: MachineSort) -> (r: Vec<u64>)
    ensures
        r@ == sort_key(*m, sort),
{
    match sort {
        MachineSort::Sitio => Vec::new(),
        MachineSort::Nombre => {
            let l = to_lowercase(m.name.as_str());
            text_key_of(l.as_str())
        },
        MachineSort::Fecha => {
            let (y, mo, d) = release_sort_key(m.release_date.as_str());
            let mut v: Vec<u64> = Vec::new();
            v.push((u32::MAX - y) as u64);
            v.push((u32::MAX - mo) as u64);
            v.push((u32::MAX - d) as u64);
            assert(v@ =~= sort_key(*m, sort));
            v
        },
        MachineSort::Dificultad => {
            let mut v: Vec<u64> = Vec::new();
            v.push(difficulty_rank(m.difficulty.as_str()) as u64);
            assert(v@ =~= sort_key(*m, sort));
            v
        },
    }
}

impl AppState {
    pub fn new(data: TuiData) -> (r: Self)
        ensures
            r.tab == Tab::Machines,
            r.input_mode == InputMode::Normal,
            r.filter@ == Seq::<char>::empty(),
            r.selected == 0,
            r.scroll == 0,
            r.machine_sort == MachineSort::Sitio,
            !r.only_first_blood,
            !r.quit,
            !r.refresh_requested,
            r.fetching is None,
            r.status is None,
            r.status_expiry is None,
            r.popup is None,
            r.pending_action is None,
            r.report is None,
            r.writeups_popup is None,
            !r.pending_refresh_after_close,
            r.data == data,
            r.last_visible_rows is None,
            r.username@ == Seq::<char>::empty(),
            r.completed@.len() == 0,
            !r.hide_completed,
            r.lang == Lang::En,
    {
        AppState {
            tab: Tab::Machines,
            input_mode: InputMode::Normal,
            filter: String::new(),
            selected: 0,
            scroll: 0,
            machine_sort: MachineSort::Sitio,
            only_first_blood: false,
            quit: false,
            refresh_requested: false,
            fetching: None,
            status: None,
            status_expiry: None,
            popup: None,
            pending_action: None,
            report: None,
            writeups_popup: None,
            pending_refresh_after_close: false,
            data,
            last_visible_rows: None,
            username: String::new(),
            completed: Vec::new(),
            hide_completed: false,
            lang: Lang::En,
        }
    }

    /// Entry state: draws immediately, then loads all data.
    pub fn loading() -> (r: Self)
        ensures
            r.fetching matches Some(f) && f@ == "Loading data..."@,
            r.data.machines@.len() == 0,
            r.data.writeups@.len() == 0,
            r.tab == Tab::Machines,
            r.input_mode == InputMode::Normal,
            r.filter@ == Seq::<char>::empty(),
            r.selected == 0,
            r.scroll == 0,
            r.machine_sort == MachineSort::Sitio,
            !r.only_first_blood,
            !r.quit,
            !r.refresh_requested,
            r.status is None,
            r.status_expiry is None,
            r.popup is None,
            r.pending_action is None,
            r.report is None,
            r.writeups_popup is None,
            !r.pending_refresh_after_close,
            r.last_visible_rows is None,
            r.username@ == Seq::<char>::empty(),
            r.completed@.len() == 0,
            !r.hide_completed,
            r.lang == Lang::En,
    {
        let mut state = Self::new(TuiData { machines: Vec::new(), writeups: Vec::new() });
        state.fetching = Some(owned("Loading data..."));
        state
    }

    pub fn request_quit(&mut self)
        ensures
            *final(self) == (AppState { quit: true, ..*old(self) }),
    {
        self.quit = true;
    }

    /// Shows a status message in the footer, expiring after 5 seconds.
    pub fn set_status(&mut self, message: String)
        ensures
            final(self).status == Some(message),
            final(self).status_expiry is Some,
            *final(self) == (AppState {
                status: final(self).status,
                status_expiry: final(self).status_expiry,
                ..*old(self)
            }),
    {
        self.status = Some(message);
        let now = instant_now();
        // Where the clock cannot represent the deadline, the message
        // expires at once rather than never.
        let expiry = match instant_after_secs(&now, STATUS_LIFETIME_SECS) {
            Some(deadline) => deadline,
            None => now,
        };
        self.status_expiry = Some(expiry);
    }

    /// Clears the status message once it has expired; called once per
    /// event-loop iteration.
    pub fn tick(&mut self)
        ensures
            ({
                ||| *final(self) == *old(self)
                ||| (old(self).status_expiry is Some && *final(self) == (AppState {
                    status: None,
                    status_expiry: None,
                    ..*old(self)
                }))
            }),
    {
        let expired = match &self.status_expiry {
            Some(expiry) => instant_reached(&instant_now(), expiry),
            None => false,
        };
        self.expire_status(expired);
    }

    /// Clears the status message when the clock says (`expired`) that its
    /// deadline has passed; a status without a deadline stays.
    pub fn expire_status(&mut self, expired: bool)
        ensures
            expired && old(self).status_expiry is Some ==> *final(self) == (AppState {
                status: None,
                status_expiry: None,
                ..*old(self)
            }),
            !(expired && old(self).status_expiry is Some) ==> *final(self) == *old(self),
    {
        if expired && self.status_expiry.is_some() {
            self.status = None;
            self.status_expiry = None;
        }
    }

    pub fn set_data(&mut self, data: TuiData)
        ensures
            *final(self) == (AppState { data: data, selected: 0, scroll: 0, ..*old(self) }),
    {
        self.data = data;
        self.selected = 0;
        self.scroll = 0;
    }

    pub fn next_tab(&mut self)
        ensures
            *final(self) == (AppState {
                tab: old(self).tab.following(),
                selected: 0,
                scroll: 0,
                ..*old(self)
            }),
    {
        self.tab = self.tab.next();
        self.reset_list_position();
    }

    pub fn previous_tab(&mut self)
        ensures
            final(self).tab.following() == old(self).tab,
            *final(self) == (AppState {
                tab: final(self).tab,
                selected: 0,
                scroll: 0,
                ..*old(self)
            }),
    {
        self.tab = self.tab.previous();
        self.reset_list_position();
    }

    pub(crate) fn reset_list_position(&mut self)
        ensures
            *final(self) == (AppState { selected: 0, scroll: 0, ..*old(self) }),
    {
        self.selected = 0;
        self.scroll = 0;
    }

    /// The catalog rows of the Machines tab: filtered by name, difficulty,
    /// OS, creator or tech tag, restricted to open first-blood slots when
    /// asked, and ordered by `machine_sort`.
    /// Whether machine `slug` counts as completed, given the user's own
    /// writeups `own`.
    fn completed_with(&self, slug: &String, own: &Vec<&(String, WriteupEntry)>) -> (r: bool)
        requires
            own@.map_values(|p: &(String, WriteupEntry)| *p) == writeups_by(
                self.data.writeups@,
                name_key(self.username@),
            ),
        ensures
            r == is_done(*self, slug@),
    {
        let mut i: usize = 0;
        while i < self.completed.len()
            invariant
                i <= self.completed.len(),
                forall|k: int| 0 <= k < i ==> (#[trigger] self.completed@[k])@ != slug@,
            decreases self.completed.len() - i,
        {
            if crate::text::str_eq(self.completed[i].as_str(), slug.as_str()) {
                return true;
            }
            i += 1;
        }
        let ghost rows = writeups_by(self.data.writeups@, name_key(self.username@));
        let mut j: usize = 0;
        while j < own.len()
            invariant
                j <= own.len(),
                rows == own@.map_values(|p: &(String, WriteupEntry)| *p),
                rows == writeups_by(self.data.writeups@, name_key(self.username@)),
                forall|k: int| 0 <= k < self.completed@.len() ==> (#[trigger] self.completed@[k])@ != slug@,
                forall|k: int| 0 <= k < j ==> (#[trigger] rows[k]).0@ != slug@,
            decreases own.len() - j,
        {
            assert(rows[j as int] == *own@[j as int]);
            if crate::text::str_eq(own[j].0.as_str(), slug.as_str()) {
                return true;
            }
            j += 1;
        }
        false
    }

    pub fn visible_machines(&self) -> (r: Vec<&Machine>)
        ensures
            r@.map_values(|m: &Machine| *m) == visible_spec(*self),
    {
        let needle = to_lowercase(self.filter.as_str());
        let own = self.own_writeups_rows();
        let mut picked: Vec<&Machine> = Vec::new();
        let mut i: usize = 0;
        while i < self.data.machines.len()
            invariant
                i <= self.data.machines.len(),
                needle@ == lowercase_of(self.filter@),
                own@.map_values(|p: &(String, WriteupEntry)| *p) == writeups_by(
                    self.data.writeups@,
                    name_key(self.username@),
                ),
                picked@.map_values(|m: &Machine| *m) == listed(
                    self.data.machines@.take(i as int),
                    needle@,
                    self.only_first_blood,
                    hidden_slugs(*self),
                ),
            decreases self.data.machines.len() - i,
        {
            let m = &self.data.machines[i];
            let ghost before = picked@.map_values(|m: &Machine| *m);
            if machine_matches(m, &needle) && (!self.only_first_blood || m.any_slot_open()) && !(
            self.hide_completed && self.completed_with(&m.slug, &own)) {
                picked.push(m);
            }
            proof {
                let ms = self.data.machines@.take(i + 1);
                assert(ms.drop_last() == self.data.machines@.take(i as int));
                assert(ms.last() == *m);
                assert(hidden_slugs(*self).contains(m.slug@) == (self.hide_completed && is_done(
                    *self,
                    m.slug@,
                )));
                assert(picked@.map_values(|m: &Machine| *m) =~= before + if is_listed(
                    *m,
                    needle@,
                    self.only_first_blood,
                    hidden_slugs(*self),
                ) {
                    seq![*m]
                } else {
                    Seq::<Machine>::empty()
                });
            }
            i += 1;
        }
        assert(self.data.machines@.take(self.data.machines.len() as int) == self.data.machines@);
        if self.machine_sort == MachineSort::Sitio {
            return picked;
        }
        let ghost l = picked@.map_values(|m: &Machine| *m);
        let mut keys: Vec<Vec<u64>> = Vec::new();
        let mut k: usize = 0;
        while k < picked.len()
            invariant
                k <= picked.len(),
                l == picked@.map_values(|m: &Machine| *m),
                keys_view(keys@) == l.take(k as int).map_values(
                    |m: Machine| sort_key(m, self.machine_sort),
                ),
            decreases picked.len() - k,
        {
            let key = machine_sort_key(picked[k], self.machine_sort);
            let ghost prev = keys@;
            keys.push(key);
            proof {
                assert(keys_view(keys@) =~= keys_view(prev).push(sort_key(l[k as int], self.machine_sort)));
                assert(l.take(k + 1).map_values(|m: Machine| sort_key(m, self.machine_sort))
                    =~= l.take(k as int).map_values(|m: Machine| sort_key(m, self.machine_sort)).push(
                    sort_key(l[k as int], self.machine_sort),
                ));
            }
            k += 1;
        }
        assert(l.take(picked.len() as int) == l);
        let order = stable_sort_indices(&keys);
        let mut out: Vec<&Machine> = Vec::new();
        let mut j: usize = 0;
        while j < order.len()
            invariant
                j <= order.len() == keys.len() == picked.len(),
                l == picked@.map_values(|m: &Machine| *m),
                forall|q: int| 0 <= q < order.len() ==> #[trigger] order@[q] < keys.len(),
                out@.map_values(|m: &Machine| *m) == arrange(l, ints(order@).take(j as int)),
            decreases order.len() - j,
        {
            let q = order[j];
            let ghost prev = out@;
            out.push(picked[q]);
            proof {
                assert(ints(order@).take(j + 1) == ints(order@).take(j as int).push(q as int));
                assert(out@.map_values(|m: &Machine| *m) =~= prev.map_values(|m: &Machine| *m).push(
                    l[q as int],
                ));
                assert(arrange(l, ints(order@).take(j + 1)) =~= arrange(l, ints(order@).take(j as int)).push(
                    l[q as int],
                ));
            }
            j += 1;
        }
        assert(ints(order@).take(order.len() as int) == ints(order@));
        out
    }

    /// Own writeups (Progress tab), aligned with the rendered rows.
    pub fn own_writeups_rows(&self) -> (r: Vec<&(String, WriteupEntry)>)
        ensures
            r@.map_values(|p: &(String, WriteupEntry)| *p) == writeups_by(
                self.data.writeups@,
                name_key(self.username@),
            ),
    {
        self.data.own_writeups(self.username.as_str())
    }

    /// Dismisses the result popup; returns true if a refresh was queued.
    pub fn close_report(&mut self) -> (r: bool)
        ensures
            r == old(self).pending_refresh_after_close,
            *final(self) == (AppState {
                report: None,
                pending_refresh_after_close: false,
                ..*old(self)
            }),
    {
        self.report = None;
        let queued = self.pending_refresh_after_close;
        self.pending_refresh_after_close = false;
        queued
    }

    /// The machine under the selection (Machines tab only).
    pub fn selected_machine(&self) -> (r: Option<&Machine>)
        ensures
            match r {
                Some(m) => selected_spec(*self) == Some(*m),
                None => selected_spec(*self) is None,
            },
    {
        if self.tab != Tab::Machines {
            return None;
        }
        let v = self.visible_machines();
        if self.selected < v.len() {
            Some(v[self.selected])
        } else {
            None
        }
    }

    fn row_count(&self) -> (r: usize)
        ensures
            r == row_count_spec(*self),
    {
        match self.tab {
            Tab::Machines => self.visible_machines().len(),
            Tab::Progress => self.data.own_writeups(self.username.as_str()).len(),
        }
    }

    pub fn move_down(&mut self)
        requires
            old(self).selected < usize::MAX,
            scroll_in_range(*old(self)),
        ensures
            moved_down(*old(self), *final(self)),
    {
        let count = self.row_count();
        let last = if count >= 1 {
            count - 1
        } else {
            0
        };
        self.selected = if self.selected + 1 < last {
            self.selected + 1
        } else {
            last
        };
        self.ensure_selected_visible();
    }

    pub fn move_up(&mut self)
        requires
            scroll_in_range(*old(self)),
        ensures
            moved_up(*old(self), *final(self)),
    {
        self.selected = if self.selected >= 1 {
            self.selected - 1
        } else {
            0
        };
        self.ensure_selected_visible();
    }

    pub fn move_start(&mut self)
        ensures
            *final(self) == (AppState { selected: 0, scroll: 0, ..*old(self) }),
    {
        self.selected = 0;
        self.scroll = 0;
    }

    /// Keeps `selected` inside the `[scroll, scroll + visible)` window.
    pub fn ensure_selected_visible(&mut self)
        requires
            scroll_in_range(*old(self)),
        ensures
            *final(self) == (AppState {
                scroll: scrolled(
                    old(self).selected as int,
                    old(self).scroll as int,
                    window(old(self).last_visible_rows),
                ) as usize,
                ..*old(self)
            }),
    {
        let visible: usize = match self.last_visible_rows {
            Some(r) => if r >= 1 {
                r
            } else {
                1
            },
            None => 10,
        };
        if self.selected < self.scroll {
            self.scroll = self.selected;
        } else if self.selected >= self.scroll + visible {
            self.scroll = self.selected - visible + 1;
        }
    }

    /// Row budget reported by the renderer after layout.
    pub fn set_visible_rows(&mut self, rows: usize)
        requires
            old(self).scroll + (if rows >= 1 {
                rows as int
            } else {
                1
            }) <= usize::MAX,
        ensures
            ({
                let r = if rows >= 1 {
                    rows
                } else {
                    1
                };
                *final(self) == (AppState {
                    last_visible_rows: Some(r),
                    scroll: scrolled(old(self).selected as int, old(self).scroll as int, r as int)
                        as usize,
                    ..*old(self)
                })
            }),
    {
        self.last_visible_rows = Some(
            if rows >= 1 {
                rows
            } else {
                1
            },
        );
        self.ensure_selected_visible();
    }

    pub fn enter_filter_mode(&mut self)
        ensures
            *final(self) == (AppState { input_mode: InputMode::Filter, ..*old(self) }),
    {
        self.input_mode = InputMode::Filter;
    }

    pub fn filter_push(&mut self, c: char)
        ensures
            final(self).filter@ == old(self).filter@.push(c),
            *final(self) == (AppState {
                filter: final(self).filter,
                selected: 0,
                scroll: 0,
                ..*old(self)
            }),
    {
        self.filter.push(c);
        self.reset_list_position();
    }

    pub fn filter_pop(&mut self)
        ensures
            final(self).filter@ == super::drop_last_char(old(self).filter@),
            *final(self) == (AppState {
                filter: final(self).filter,
                selected: 0,
                scroll: 0,
                ..*old(self)
            }),
    {
        self.filter.pop();
        self.reset_list_position();
    }

    pub fn clear_filter(&mut self)
        ensures
            final(self).filter@ == Seq::<char>::empty(),
            *final(self) == (AppState {
                filter: final(self).filter,
                selected: 0,
                scroll: 0,
                ..*old(self)
            }),
    {
        self.filter.clear();
        self.reset_list_position();
    }

    /// Manual refresh: only allowed while idle.
    pub fn request_refresh(&mut self)
        ensures
            *final(self) == (AppState {
                refresh_requested: old(self).refresh_requested || old(self).fetching is None,
                ..*old(self)
            }),
    {
        if self.fetching.is_none() {
            self.refresh_requested = true;
        }
    }

    /// Whether the event loop should run a (re)fetch right now.
    pub fn should_fetch(&self, pending_fetch: bool) -> (r: bool)
        ensures
            r == (pending_fetch || self.refresh_requested),
    {
        pending_fetch || self.refresh_requested
    }
}

} // verus!

verus! {

/// The pieces joined with `sep` between them (`[String]::join`).
pub open spec fn join(parts: Seq<Seq<char>>, sep: Seq<char>) -> Seq<char>
    decreases parts.len(),
{
    if parts.len() == 0 {
        Seq::empty()
    } else if parts.len() == 1 {
        parts[0]
    } else {
        join(parts.drop_last(), sep) + sep + parts.last()
    }
}

/// `parts.join(sep)`.
pub fn join_texts(parts: &Vec<String>, sep: &str) -> (r: String)
    ensures
        r@ == join(texts(parts@), sep@),
{
    let ghost tv = texts(parts@);
    let mut out = String::new();
    let mut i: usize = 0;
    while i < parts.len()
        invariant
            i <= parts.len(),
            tv == texts(parts@),
            out@ == join(tv.take(i as int), sep@),
        decreases parts.len() - i,
    {
        proof {
            assert(tv.take(i + 1).drop_last() == tv.take(i as int));
            assert(tv.take(i + 1).last() == parts@[i as int]@);
        }
        if i == 0 {
            out = parts[0].clone();
            assert(tv.take(1) =~= seq![parts@[0]@]);
        } else {
            out.append(sep);
            out.append(parts[i].as_str());
        }
        i += 1;
    }
    assert(tv.take(parts.len() as int) == tv);
    out
}

/// `new` is `old` with the status message `text` shown.
pub open spec fn sets_status(old: AppState, new: AppState, text: Seq<char>) -> bool {
    &&& new.status matches Some(s) && s@ == text
    &&& new.status_expiry is Some
    &&& new == (AppState { status: new.status, status_expiry: new.status_expiry, ..old })
}

/// `new` is `old` with only its popup replaced.
pub open spec fn only_popup_changed(old: AppState, new: AppState) -> bool {
    new == (AppState { popup: new.popup, ..old })
}

/// The first-blood line of a slot: open, or its holder.
pub open spec fn slot_line(holder: Seq<char>) -> Seq<char> {
    if slot_open(holder) {
        "OPEN — claim it!"@
    } else {
        "taken by "@ + holder
    }
}

/// The description popup's text for a machine.
pub open spec fn description(m: Machine) -> Seq<char> {
    "Difficulty: "@ + m.difficulty@ + " · OS: "@ + m.os@ + " · Points: "@ + crate::text::decimal(
        m.pts_user as nat,
    ) + "/"@ + crate::text::decimal(m.pts_root as nat) + "\nPlatform: "@ + join(
        texts(m.platforms@),
        ", "@,
    ) + " · Size: "@ + m.size@ + "\nCreator: "@ + m.creator@ + " · Date: "@ + m.release_date@
        + "\nMD5: "@ + (if m.md5@.len() == 0 {
        "-"@
    } else {
        m.md5@
    }) + "\nTech tags: "@ + (if m.tech_tags@.len() == 0 {
        "-"@
    } else {
        join(texts(m.tech_tags@), ", "@)
    }) + "\n\nFirst blood user: "@ + slot_line(m.first_user@) + "\nFirst blood root: "@ + slot_line(
        m.first_root@,
    )
}

/// The username popup, prefilled with `name`.
pub open spec fn is_username_popup(p: Popup, name: Seq<char>) -> bool {
    &&& p.kind == PopupKind::Username
    &&& p.machine@.len() == 0
    &&& p.machine_slug@.len() == 0
    &&& texts(p.buffers@) == seq![name]
    &&& p.field == 0
    &&& p.notice matches Some(n) && n@
        == "Your username is attached to flags, writeups and the leaderboard."@
    &&& !p.readonly
    &&& p.text is None
    &&& p.flag_types@.len() == 0
}

/// The read-only description popup of machine `m`.
pub open spec fn is_description_popup(p: Popup, m: Machine) -> bool {
    &&& p.kind == PopupKind::Descripcion
    &&& p.machine@ == m.name@
    &&& p.machine_slug@ == m.slug@
    &&& p.buffers@.len() == 0
    &&& p.field == 0
    &&& p.notice is None
    &&& p.readonly
    &&& p.text matches Some(t) && t@ == description(m)
    &&& p.flag_types@.len() == 0
}

/// The writeups of the machine with slug `slug`, in order.
pub open spec fn writeups_of(ws: Seq<(String, WriteupEntry)>, slug: Seq<char>) -> Seq<WriteupEntry>
    decreases ws.len(),
{
    if ws.len() == 0 {
        Seq::empty()
    } else {
        writeups_of(ws.drop_last(), slug) + if ws.last().0@ == slug {
            seq![ws.last().1]
        } else {
            Seq::empty()
        }
    }
}

/// The writeup submission popup for machine `m`: URL, type "Text",
/// language "en".
pub open spec fn is_submit_popup(p: Popup, m: Machine) -> bool {
    &&& p.kind == PopupKind::WriteupSubmit
    &&& p.machine@ == m.name@
    &&& p.machine_slug@ == m.slug@
    &&& texts(p.buffers@) == seq![Seq::<char>::empty(), "Text"@, "en"@]
    &&& p.field == 0
    &&& p.notice is None
    &&& !p.readonly
    &&& p.text is None
    &&& p.flag_types@.len() == 0
}

/// The slots a flag popup offers for `m`, in order: user, then root.
pub open spec fn open_slots(m: Machine) -> Seq<Seq<char>> {
    (if slot_open(m.first_user@) {
        seq!["user"@]
    } else {
        Seq::empty()
    }) + (if slot_open(m.first_root@) {
        seq!["root"@]
    } else {
        Seq::empty()
    })
}

/// The notices of the slots already taken on `m`.
pub open spec fn taken_notices(m: Machine) -> Seq<Seq<char>> {
    (if slot_open(m.first_user@) {
        Seq::empty()
    } else {
        seq!["User flag: taken by "@ + m.first_user@]
    }) + (if slot_open(m.first_root@) {
        Seq::empty()
    } else {
        seq!["Root flag: taken by "@ + m.first_root@]
    })
}

/// The flag popup for `m`: one empty field per open slot, and a notice
/// naming the holders of the taken ones.
pub open spec fn is_flag_popup(p: Popup, m: Machine) -> bool {
    &&& p.kind == PopupKind::Flag
    &&& p.machine@ == m.name@
    &&& p.machine_slug@ == m.slug@
    &&& p.buffers@.len() == open_slots(m).len()
    &&& forall|i: int| 0 <= i < p.buffers@.len() ==> (#[trigger] p.buffers@[i])@.len() == 0
    &&& p.field == 0
    &&& (if taken_notices(m).len() == 0 {
        p.notice is None
    } else {
        p.notice matches Some(n) && n@ == join(taken_notices(m), " · "@)
    })
    &&& !p.readonly
    &&& p.text is None
    &&& p.flag_types@.map_values(|t: &'static str| t@) == open_slots(m)
}

/// The report shown when both first-blood slots of `m` are taken.
pub open spec fn is_slots_taken_report(r: ActionReport, m: Machine) -> bool {
    &&& r.title@ == " First blood — "@ + m.name@ + " "@
    &&& r.entries@.len() == 2
    &&& r.entries@[0].0 == ReportKind::Failure
    &&& r.entries@[0].1@ == "First blood: ✗ BOTH SLOTS ALREADY TAKEN"@
    &&& r.entries@[1].0 == ReportKind::Info
    &&& r.entries@[1].1@ == "user → "@ + m.first_user@ + " · root → "@ + m.first_root@
    &&& !r.changed
    &&& r.status@ == "[!] "@ + m.name@ + ": no first-blood slots left."@
}

fn push_notice(v: &mut Vec<String>, s: String)
    ensures
        texts(final(v)@) == texts(old(v)@).push(s@),
{
    v.push(s);
    assert(texts(v@) =~= texts(old(v)@).push(s@));
}

/// `new` shows the username popup, prefilled with the stored name.
pub open spec fn username_popup_opened(old: AppState, new: AppState) -> bool {
    &&& new.popup matches Some(p) && is_username_popup(p, old.username@)
    &&& only_popup_changed(old, new)
}

/// `new` shows the description of the selected machine, or says that
/// nothing is selected.
pub open spec fn description_opened(old: AppState, new: AppState) -> bool {
    match selected_spec(old) {
        None => sets_status(old, new, "Nothing selected."@),
        Some(m) => {
            &&& new.popup matches Some(p) && is_description_popup(p, m)
            &&& only_popup_changed(old, new)
        },
    }
}

/// `new` shows the community writeups of the selected machine, or the
/// status says why there are none to show.
pub open spec fn writeups_opened(old: AppState, new: AppState) -> bool {
    if old.tab != Tab::Machines {
        sets_status(
            old,
            new,
            "Writeups are available on the Machines tab."@,
        )
    } else {
        match selected_spec(old) {
            None => sets_status(old, new, "Nothing selected."@),
            Some(m) => {
                let entries = writeups_of(old.data.writeups@, m.slug@);
                if entries.len() == 0 {
                    sets_status(
                        old,
                        new,
                        "No community writeups for "@ + m.name@ + " yet."@,
                    )
                } else {
                    &&& new.writeups_popup matches Some(w) && w.machine@
                        == m.name@ && w.entries@.map_values(|e: WriteupEntry| e@)
                        == entries.map_values(|e: WriteupEntry| e@) && w.selected == 0
                    &&& new == (AppState {
                        writeups_popup: new.writeups_popup,
                        ..old
                    })
                }
            },
        }
    }
}

/// `new` shows the writeup submission popup for the selected machine, or
/// the status says why it cannot.
pub open spec fn submit_popup_opened(old: AppState, new: AppState) -> bool {
    if old.tab != Tab::Machines {
        sets_status(
            old,
            new,
            "Writeup submission is available on the Machines tab."@,
        )
    } else {
        match selected_spec(old) {
            None => sets_status(old, new, "Nothing selected."@),
            Some(m) => if trim(old.username@).len() == 0 {
                sets_status(old, new, "Set your username first (a)."@)
            } else {
                &&& new.popup matches Some(p) && is_submit_popup(p, m)
                &&& only_popup_changed(old, new)
            },
        }
    }
}

/// `new` shows the flag popup for the selected machine (or the report
/// that both slots are taken), or the status says why it cannot.
pub open spec fn flag_popup_opened(old: AppState, new: AppState) -> bool {
    if old.tab != Tab::Machines {
        sets_status(
            old,
            new,
            "Flags are only available on the Machines tab."@,
        )
    } else {
        match selected_spec(old) {
            None => sets_status(old, new, "Nothing selected."@),
            Some(m) => if trim(old.username@).len() == 0 {
                sets_status(old, new, "Set your username first (a)."@)
            } else if !slot_open(m.first_user@) && !slot_open(m.first_root@) {
                &&& new.report matches Some(r) && is_slots_taken_report(r, m)
                &&& new == (AppState { report: new.report, ..old })
            } else {
                &&& new.popup matches Some(p) && is_flag_popup(p, m)
                &&& only_popup_changed(old, new)
            },
        }
    }
}

impl AppState {
    /// Opens the username popup, prefilled with the stored name.
    pub fn open_username_popup(&mut self)
        ensures
            old(self).popup is Some || old(self).report is Some ==> *final(self) == *old(self),
            !(old(self).popup is Some || old(self).report is Some) ==> username_popup_opened(
                *old(self),
                *final(self),
            ),
    {
        if self.popup.is_some() || self.report.is_some() {
            return;
        }
        let mut buffers: Vec<String> = Vec::new();
        buffers.push(self.username.clone());
        assert(texts(buffers@) =~= seq![self.username@]);
        self.popup = Some(
            Popup {
                kind: PopupKind::Username,
                machine: String::new(),
                machine_slug: String::new(),
                buffers,
                field: 0,
                notice: Some(owned("Your username is attached to flags, writeups and the leaderboard.")),
                readonly: false,
                text: None,
                flag_types: Vec::new(),
            },
        );
    }

    /// The description popup's text for machine `m`.
    fn description_text(m: &Machine) -> (r: String)
        ensures
            r@ == description(*m),
    {
        let mut t = owned("Difficulty: ");
        t.append(m.difficulty.as_str());
        t.append(" · OS: ");
        t.append(m.os.as_str());
        t.append(" · Points: ");
        crate::text::push_decimal(&mut t, m.pts_user);
        t.append("/");
        crate::text::push_decimal(&mut t, m.pts_root);
        t.append("\nPlatform: ");
        let platforms = join_texts(&m.platforms, ", ");
        t.append(platforms.as_str());
        t.append(" · Size: ");
        t.append(m.size.as_str());
        t.append("\nCreator: ");
        t.append(m.creator.as_str());
        t.append(" · Date: ");
        t.append(m.release_date.as_str());
        t.append("\nMD5: ");
        if m.md5.as_str().is_empty() {
            t.append("-");
        } else {
            t.append(m.md5.as_str());
        }
        t.append("\nTech tags: ");
        if m.tech_tags.len() == 0 {
            t.append("-");
        } else {
            let tags = join_texts(&m.tech_tags, ", ");
            t.append(tags.as_str());
        }
        t.append("\n\nFirst blood user: ");
        if m.user_slot_open() {
            t.append("OPEN — claim it!");
        } else {
            t.append("taken by ");
            t.append(m.first_user.as_str());
        }
        t.append("\nFirst blood root: ");
        if m.root_slot_open() {
            t.append("OPEN — claim it!");
        } else {
            t.append("taken by ");
            t.append(m.first_root.as_str());
        }
        t
    }

    /// Opens the read-only description popup for the selected machine.
    pub fn open_descripcion_popup(&mut self)
        ensures
            old(self).popup is Some || old(self).report is Some || old(self).writeups_popup is Some
                ==> *final(self) == *old(self),
            !(old(self).popup is Some || old(self).report is Some || old(self).writeups_popup is Some)
                ==> description_opened(*old(self), *final(self)),
    {
        if self.popup.is_some() || self.report.is_some() || self.writeups_popup.is_some() {
            return;
        }
        let found = match self.selected_machine() {
            Some(machine) => Some(
                (machine.name.clone(), machine.slug.clone(), Self::description_text(machine)),
            ),
            None => None,
        };
        match found {
            None => {
                self.set_status(owned("Nothing selected."));
            },
            Some((name, slug, text)) => {
                self.popup = Some(
                    Popup {
                        kind: PopupKind::Descripcion,
                        machine: name,
                        machine_slug: slug,
                        buffers: Vec::new(),
                        field: 0,
                        notice: None,
                        readonly: true,
                        text: Some(text),
                        flag_types: Vec::new(),
                    },
                );
            },
        }
    }

    /// Opens the community writeups popup for the selected machine.
    pub fn open_writeups_popup(&mut self)
        ensures
            old(self).writeups_popup is Some || old(self).popup is Some || old(self).report is Some
                ==> *final(self) == *old(self),
            !(old(self).writeups_popup is Some || old(self).popup is Some || old(self).report is Some)
                ==> writeups_opened(*old(self), *final(self)),
    {
        if self.writeups_popup.is_some() || self.popup.is_some() || self.report.is_some() {
            return;
        }
        if self.tab != Tab::Machines {
            self.set_status(owned("Writeups are available on the Machines tab."));
            return;
        }
        let found = match self.selected_machine() {
            Some(machine) => Some((machine.name.clone(), machine.slug.clone())),
            None => None,
        };
        let (name, slug) = match found {
            None => {
                self.set_status(owned("Nothing selected."));
                return;
            },
            Some(p) => p,
        };
        let mut entries: Vec<WriteupEntry> = Vec::new();
        let mut i: usize = 0;
        while i < self.data.writeups.len()
            invariant
                i <= self.data.writeups.len(),
                entries@.map_values(|e: WriteupEntry| e@) == writeups_of(
                    self.data.writeups@.take(i as int),
                    slug@,
                ).map_values(|e: WriteupEntry| e@),
            decreases self.data.writeups.len() - i,
        {
            let ghost before = entries@;
            let ghost ws = self.data.writeups@.take(i + 1);
            let ghost prev = writeups_of(self.data.writeups@.take(i as int), slug@);
            let is_match = crate::text::str_eq(self.data.writeups[i].0.as_str(), slug.as_str());
            if is_match {
                let d = self.data.writeups[i].1.duplicate();
                entries.push(d);
                proof {
                    assert(entries@ == before.push(d));
                    assert(entries@.map_values(|e: WriteupEntry| e@) =~= before.map_values(
                        |e: WriteupEntry| e@,
                    ).push(d@));
                }
            }
            proof {
                assert(ws.drop_last() == self.data.writeups@.take(i as int));
                assert(ws.last() == self.data.writeups@[i as int]);
                let w = self.data.writeups@[i as int];
                if is_match {
                    assert(writeups_of(ws, slug@) == prev + seq![w.1]);
                    assert((prev + seq![w.1]).map_values(|e: WriteupEntry| e@) =~= prev.map_values(
                        |e: WriteupEntry| e@,
                    ).push(w.1@));
                } else {
                    assert(writeups_of(ws, slug@) =~= prev);
                }
            }
            i += 1;
        }
        assert(self.data.writeups@.take(self.data.writeups.len() as int) == self.data.writeups@);
        if entries.len() == 0 {
            let mut msg = owned("No community writeups for ");
            msg.append(name.as_str());
            msg.append(" yet.");
            self.set_status(msg);
            return;
        }
        self.writeups_popup = Some(WriteupsPopup { machine: name, entries, selected: 0 });
    }

    /// Opens the writeup submission popup for the selected machine.
    pub fn open_writeup_submit_popup(&mut self)
        ensures
            old(self).popup is Some || old(self).report is Some || old(self).writeups_popup is Some
                ==> *final(self) == *old(self),
            !(old(self).popup is Some || old(self).report is Some || old(self).writeups_popup is Some)
                ==> submit_popup_opened(*old(self), *final(self)),
    {
        if self.popup.is_some() || self.report.is_some() || self.writeups_popup.is_some() {
            return;
        }
        if self.tab != Tab::Machines {
            self.set_status(owned("Writeup submission is available on the Machines tab."));
            return;
        }
        let found = match self.selected_machine() {
            Some(machine) => Some((machine.name.clone(), machine.slug.clone())),
            None => None,
        };
        let (name, slug) = match found {
            None => {
                self.set_status(owned("Nothing selected."));
                return;
            },
            Some(p) => p,
        };
        if trimmed(self.username.as_str()).as_str().is_empty() {
            self.set_status(owned("Set your username first (a)."));
            return;
        }
        let mut buffers: Vec<String> = Vec::new();
        buffers.push(String::new());
        buffers.push(owned("Text"));
        buffers.push(owned("en"));
        assert(texts(buffers@) =~= seq![Seq::<char>::empty(), "Text"@, "en"@]);
        self.popup = Some(
            Popup {
                kind: PopupKind::WriteupSubmit,
                machine: name,
                machine_slug: slug,
                buffers,
                field: 0,
                notice: None,
                readonly: false,
                text: None,
                flag_types: Vec::new(),
            },
        );
    }

    /// Opens the first-blood flag popup for the selected machine. Slots
    /// already taken render as notices; the popup only offers fields for
    /// the open slots.
    pub fn open_flag_popup(&mut self)
        ensures
            old(self).popup is Some || old(self).report is Some ==> *final(self) == *old(self),
            !(old(self).popup is Some || old(self).report is Some) ==> flag_popup_opened(
                *old(self),
                *final(self),
            ),
    {
        if self.popup.is_some() || self.report.is_some() {
            return;
        }
        if self.tab != Tab::Machines {
            self.set_status(owned("Flags are only available on the Machines tab."));
            return;
        }
        let found = match self.selected_machine() {
            Some(machine) => Some(
                (
                    machine.name.clone(),
                    machine.slug.clone(),
                    machine.first_user.clone(),
                    machine.first_root.clone(),
                    machine.user_slot_open(),
                    machine.root_slot_open(),
                ),
            ),
            None => None,
        };
        let (name, slug, first_user, first_root, user_open, root_open) = match found {
            None => {
                self.set_status(owned("Nothing selected."));
                return;
            },
            Some(p) => p,
        };
        if trimmed(self.username.as_str()).as_str().is_empty() {
            self.set_status(owned("Set your username first (a)."));
            return;
        }
        if !user_open && !root_open {
            let mut title = owned(" First blood — ");
            title.append(name.as_str());
            title.append(" ");
            let mut holders = owned("user → ");
            holders.append(first_user.as_str());
            holders.append(" · root → ");
            holders.append(first_root.as_str());
            let mut entries: Vec<(ReportKind, String)> = Vec::new();
            entries.push((ReportKind::Failure, owned("First blood: ✗ BOTH SLOTS ALREADY TAKEN")));
            entries.push((ReportKind::Info, holders));
            let mut status = owned("[!] ");
            status.append(name.as_str());
            status.append(": no first-blood slots left.");
            self.report = Some(ActionReport { title, entries, changed: false, status });
            return;
        }
        let mut buffers: Vec<String> = Vec::new();
        let mut flag_types: Vec<&'static str> = Vec::new();
        let mut notices: Vec<String> = Vec::new();
        if user_open {
            buffers.push(String::new());
            flag_types.push("user");
        } else {
            let mut n = owned("User flag: taken by ");
            n.append(first_user.as_str());
            push_notice(&mut notices, n);
        }
        if root_open {
            buffers.push(String::new());
            flag_types.push("root");
        } else {
            let mut n = owned("Root flag: taken by ");
            n.append(first_root.as_str());
            push_notice(&mut notices, n);
        }
        let notice = if notices.len() == 0 {
            None
        } else {
            Some(join_texts(&notices, " · "))
        };
        proof {
            let m = selected_spec(*old(self))->Some_0;
            assert(texts(notices@) =~= taken_notices(m));
            assert(flag_types@.map_values(|t: &'static str| t@) =~= open_slots(m));
        }
        self.popup = Some(
            Popup {
                kind: PopupKind::Flag,
                machine: name,
                machine_slug: slug,
                buffers,
                field: 0,
                notice,
                readonly: false,
                text: None,
                flag_types,
            },
        );
    }
}

} // verus!

verus! {

/// What the host must do after a popup is confirmed.
#[derive(Debug, Clone)]
pub enum ConfirmOutcome {
    Nothing,
    /// Persist this username, then report with [`AppState::username_saved`].
    SaveUsername(String),
}

/// Field `i` of a popup, trimmed (empty when there is no such field).
pub open spec fn field_value(p: Popup, i: int) -> Seq<char> {
    if 0 <= i < p.buffers@.len() {
        trim(p.buffers@[i]@)
    } else {
        Seq::empty()
    }
}

/// The `type:md5` values of the first `n` flag fields, skipping empty
/// ones, or the slot type of the first field that is not an MD5 hash.
pub open spec fn flag_values(bufs: Seq<Seq<char>>, types: Seq<Seq<char>>, n: int) -> Result<
    Seq<Seq<char>>,
    Seq<char>,
>
    decreases n,
{
    if n <= 0 {
        Ok(Seq::empty())
    } else {
        match flag_values(bufs, types, n - 1) {
            Err(t) => Err(t),
            Ok(typed) => {
                let f = trim(bufs[n - 1]);
                if f.len() == 0 {
                    Ok(typed)
                } else if !crate::flags::is_md5_flag(f) {
                    Err(types[n - 1])
                } else {
                    Ok(typed.push(types[n - 1] + ":"@ + f))
                }
            },
        }
    }
}

/// The values an action carries, by text.
pub open spec fn values_view(v: Seq<(usize, String)>) -> Seq<(usize, Seq<char>)> {
    v.map_values(|p: (usize, String)| (p.0, p.1@))
}

/// `new` is `old` with its popup put back and the status `text` shown.
pub open spec fn refused(old: AppState, new: AppState, text: Seq<char>) -> bool {
    sets_status(old, new, text)
}

/// The writeup type sent: the field when it is "Text" or "Video", else
/// "Text".
pub open spec fn chosen_type(t: Seq<char>) -> Seq<char> {
    if t == "Text"@ || t == "Video"@ {
        t
    } else {
        "Text"@
    }
}

/// The writeup language sent: the field, or "en" when it is empty.
pub open spec fn chosen_language(l: Seq<char>) -> Seq<char> {
    if l.len() != 0 {
        l
    } else {
        "en"@
    }
}

/// What confirming popup `p` does to state `old`, giving `new` and `out`.
pub open spec fn confirmed(old: AppState, p: Popup, new: AppState, out: ConfirmOutcome) -> bool {
    match p.kind {
        PopupKind::Username => {
            let u = field_value(p, 0);
            if vstd::utf8::encode_utf8(u).len() < 2 {
                out is Nothing && refused(old, new, "The username needs at least 2 characters."@)
            } else {
                &&& out matches ConfirmOutcome::SaveUsername(s) && s@ == u
                &&& new == (AppState { popup: None, ..old })
            }
        },
        PopupKind::Flag => {
            let n = if p.buffers@.len() < p.flag_types@.len() {
                p.buffers@.len()
            } else {
                p.flag_types@.len()
            };
            &&& out is Nothing
            &&& match flag_values(
                texts(p.buffers@),
                p.flag_types@.map_values(|t: &'static str| t@),
                n as int,
            ) {
                Err(t) => refused(
                    old,
                    new,
                    "The "@ + t + " flag must be an MD5 hash: 32 hex characters."@,
                ),
                Ok(typed) => if typed.len() == 0 {
                    refused(old, new, "Fill at least one flag."@)
                } else {
                    &&& new.pending_action matches Some(a) && a.kind == ActionKind::SubmitFlag
                        && a.machine@ == p.machine_slug@ && values_view(a.values@)
                        == typed.map_values(|t: Seq<char>| (0usize, t))
                    &&& new == (AppState { popup: None, pending_action: new.pending_action, ..old })
                },
            }
        },
        PopupKind::WriteupSubmit => {
            let url = field_value(p, 0);
            &&& out is Nothing
            &&& if url.len() == 0 {
                refused(old, new, "Indicate the writeup URL."@)
            } else {
                &&& new.pending_action matches Some(a) && a.kind == ActionKind::SubmitWriteup
                    && a.machine@ == p.machine_slug@ && values_view(a.values@) == seq![
                    (0usize, url),
                    (1usize, chosen_type(field_value(p, 1))),
                    (2usize, chosen_language(field_value(p, 2))),
                ]
                &&& new == (AppState { popup: None, pending_action: new.pending_action, ..old })
            }
        },
        PopupKind::Descripcion => out is Nothing && new == (AppState { popup: None, ..old }),
    }
}

fn field_of(p: &Popup, i: usize) -> (r: String)
    ensures
        r@ == field_value(*p, i as int),
{
    if i < p.buffers.len() {
        trimmed(p.buffers[i].as_str())
    } else {
        String::new()
    }
}

impl AppState {
    /// Confirms the popup: validates its input and queues the matching
    /// action (or asks the host to save the username).
    pub fn confirm_popup(&mut self) -> (r: ConfirmOutcome)
        ensures
            match old(self).popup {
                None => r is Nothing && *final(self) == *old(self),
                Some(p) => confirmed(*old(self), p, *final(self), r),
            },
    {
        let popup = match self.popup.take() {
            None => return ConfirmOutcome::Nothing,
            Some(p) => p,
        };
        let ghost base = *self;
        match popup.kind {
            PopupKind::Username => {
                let username = field_of(&popup, 0);
                if username.as_str().as_bytes().len() < 2 {
                    self.popup = Some(popup);
                    self.set_status(owned("The username needs at least 2 characters."));
                    return ConfirmOutcome::Nothing;
                }
                ConfirmOutcome::SaveUsername(username)
            },
            PopupKind::Flag => {
                let n = if popup.buffers.len() < popup.flag_types.len() {
                    popup.buffers.len()
                } else {
                    popup.flag_types.len()
                };
                let ghost bufs = texts(popup.buffers@);
                let ghost types = popup.flag_types@.map_values(|t: &'static str| t@);
                let mut typed: Vec<(usize, String)> = Vec::new();
                let mut i: usize = 0;
                while i < n
                    invariant
                        i <= n <= popup.buffers.len(),
                        n <= popup.flag_types.len(),
                        n == (if popup.buffers@.len() < popup.flag_types@.len() {
                            popup.buffers@.len()
                        } else {
                            popup.flag_types@.len()
                        }),
                        *self == base,
                        base == (AppState { popup: None, ..*old(self) }),
                        old(self).popup == Some(popup),
                        popup.kind == PopupKind::Flag,
                        bufs == texts(popup.buffers@),
                        types == popup.flag_types@.map_values(|t: &'static str| t@),
                        flag_values(bufs, types, i as int) matches Ok(t) && values_view(typed@)
                            == t.map_values(|x: Seq<char>| (0usize, x)),
                    decreases n - i,
                {
                    let flag = trimmed(popup.buffers[i].as_str());
                    let flag_type = popup.flag_types[i];
                    let ghost prev = flag_values(bufs, types, i as int)->Ok_0;
                    assert(bufs[i as int] == popup.buffers@[i as int]@);
                    assert(types[i as int] == flag_type@);
                    if flag.as_str().is_empty() {
                    } else if !crate::flags::md5_shaped(flag.as_str()) {
                        let mut msg = owned("The ");
                        msg.append(flag_type);
                        msg.append(" flag must be an MD5 hash: 32 hex characters.");
                        proof {
                            assert(flag_values(bufs, types, i as int + 1) == Err::<
                                Seq<Seq<char>>,
                                Seq<char>,
                            >(types[i as int]));
                            lemma_flag_values_err(bufs, types, i as int + 1, n as int);
                            assert(msg@ =~= "The "@ + types[i as int]
                                + " flag must be an MD5 hash: 32 hex characters."@);
                        }
                        self.popup = Some(popup);
                        self.set_status(msg);
                        return ConfirmOutcome::Nothing;
                    } else {
                        let mut v = owned(flag_type);
                        v.append(":");
                        v.append(flag.as_str());
                        let ghost before = typed@;
                        typed.push((0, v));
                        proof {
                            assert(values_view(typed@) =~= values_view(before).push((0usize, v@)));
                            assert(prev.push(v@).map_values(|x: Seq<char>| (0usize, x))
                                =~= prev.map_values(|x: Seq<char>| (0usize, x)).push((0usize, v@)));
                        }
                    }
                    i += 1;
                }
                if typed.len() == 0 {
                    self.popup = Some(popup);
                    self.set_status(owned("Fill at least one flag."));
                    return ConfirmOutcome::Nothing;
                }
                self.pending_action = Some(
                    TuiAction {
                        kind: ActionKind::SubmitFlag,
                        machine: popup.machine_slug.clone(),
                        values: typed,
                    },
                );
                ConfirmOutcome::Nothing
            },
            PopupKind::WriteupSubmit => {
                let url = field_of(&popup, 0);
                if url.as_str().is_empty() {
                    self.popup = Some(popup);
                    self.set_status(owned("Indicate the writeup URL."));
                    return ConfirmOutcome::Nothing;
                }
                let t = field_of(&popup, 1);
                let tipo = if crate::text::str_eq(t.as_str(), "Text") || crate::text::str_eq(
                    t.as_str(),
                    "Video",
                ) {
                    t
                } else {
                    owned("Text")
                };
                let l = field_of(&popup, 2);
                let language = if !l.as_str().is_empty() {
                    l
                } else {
                    owned("en")
                };
                let mut values: Vec<(usize, String)> = Vec::new();
                values.push((0, url));
                values.push((1, tipo));
                values.push((2, language));
                proof {
                    assert(values_view(values@) =~= seq![
                        (0usize, field_value(popup, 0)),
                        (1usize, chosen_type(field_value(popup, 1))),
                        (2usize, chosen_language(field_value(popup, 2))),
                    ]);
                }
                self.pending_action = Some(
                    TuiAction {
                        kind: ActionKind::SubmitWriteup,
                        machine: popup.machine_slug.clone(),
                        values,
                    },
                );
                ConfirmOutcome::Nothing
            },
            PopupKind::Descripcion => ConfirmOutcome::Nothing,
        }
    }

    /// The host saved (or failed to save) the username `username`.
    pub fn username_saved(&mut self, username: String, outcome: Result<(), String>)
        ensures
            match outcome {
                Ok(()) => {
                    &&& final(self).username@ == username@
                    &&& final(self).status matches Some(s) && s@ == "[✓] Username set to "@
                        + username@ + "."@
                    &&& final(self).status_expiry is Some
                    &&& *final(self) == (AppState {
                        username: final(self).username,
                        status: final(self).status,
                        status_expiry: final(self).status_expiry,
                        ..*old(self)
                    })
                },
                Err(e) => sets_status(*old(self), *final(self), "Failed to save: "@ + e@),
            },
    {
        match outcome {
            Ok(()) => {
                let mut msg = owned("[✓] Username set to ");
                msg.append(username.as_str());
                msg.append(".");
                self.username = username;
                self.set_status(msg);
            },
            Err(e) => {
                let mut msg = owned("Failed to save: ");
                msg.append(e.as_str());
                self.set_status(msg);
            },
        }
    }

    /// The writeup URL of the selected Progress row, to open in the
    /// browser; without one, the status says so.
    pub fn open_selected_writeup_link(&mut self) -> (r: Option<String>)
        ensures
            ({
                let rows = writeups_by(old(self).data.writeups@, name_key(old(self).username@));
                if old(self).selected < rows.len() {
                    &&& r matches Some(u) && u@ == rows[old(self).selected as int].1.url@
                    &&& *final(self) == *old(self)
                } else {
                    &&& r is None
                    &&& sets_status(*old(self), *final(self), "No writeup link on this row."@)
                }
            }),
    {
        let rows = self.own_writeups_rows();
        if self.selected < rows.len() {
            let url = rows[self.selected].1.url.clone();
            Some(url)
        } else {
            self.set_status(owned("No writeup link on this row."));
            None
        }
    }

    /// The host tried to open `url` in the browser.
    pub fn link_opened(&mut self, url: &str, outcome: Result<(), String>)
        ensures
            match outcome {
                Ok(()) => sets_status(*old(self), *final(self), "Opened in browser: "@ + url@),
                Err(e) => sets_status(*old(self), *final(self), "xdg-open failed: "@ + e@),
            },
    {
        let msg = match outcome {
            Ok(()) => crate::text::concat("Opened in browser: ", url),
            Err(e) => crate::text::concat("xdg-open failed: ", e.as_str()),
        };
        self.set_status(msg);
    }

    /// The download page of the selected machine, to open in the browser
    /// (Machines tab); otherwise the status says why there is none.
    pub fn open_download_page(&mut self) -> (r: Option<String>)
        ensures
            if old(self).tab != Tab::Machines {
                r is None && sets_status(
                    *old(self),
                    *final(self),
                    "Downloads are only available on the Machines tab."@,
                )
            } else {
                match selected_spec(*old(self)) {
                    None => r is None && sets_status(*old(self), *final(self), "Nothing selected."@),
                    Some(m) => {
                        &&& r matches Some(u) && u@ == "https://vulnyx.com/download.php?vm="@
                            + m.name@
                        &&& *final(self) == *old(self)
                    },
                }
            },
    {
        if self.tab != Tab::Machines {
            self.set_status(owned("Downloads are only available on the Machines tab."));
            return None;
        }
        let name = match self.selected_machine() {
            Some(machine) => Some(machine.name.clone()),
            None => None,
        };
        match name {
            None => {
                self.set_status(owned("Nothing selected."));
                None
            },
            Some(n) => Some(crate::text::concat("https://vulnyx.com/download.php?vm=", n.as_str())),
        }
    }

    /// The host tried to open the download page `url` in the browser.
    pub fn download_page_opened(&mut self, url: &str, outcome: Result<(), String>)
        ensures
            match outcome {
                Ok(()) => sets_status(*old(self), *final(self), "[↓] Download page opened: "@ + url@),
                Err(e) => sets_status(*old(self), *final(self), "xdg-open failed: "@ + e@),
            },
    {
        let msg = match outcome {
            Ok(()) => crate::text::concat("[↓] Download page opened: ", url),
            Err(e) => crate::text::concat("xdg-open failed: ", e.as_str()),
        };
        self.set_status(msg);
    }

    /// Takes the queued user action, if any, and labels the wait for it.
    pub fn take_action(&mut self) -> (r: Option<TuiAction>)
        ensures
            r == old(self).pending_action,
            match r {
                None => *final(self) == *old(self),
                Some(a) => {
                    &&& final(self).fetching matches Some(f) && f@ == match a.kind {
                        ActionKind::SubmitFlag => "Submitting flag for "@ + a.machine@ + "..."@,
                        ActionKind::SubmitWriteup => "Submitting writeup for "@ + a.machine@
                            + "..."@,
                    }
                    &&& *final(self) == (AppState {
                        pending_action: None,
                        fetching: final(self).fetching,
                        ..*old(self)
                    })
                },
            },
    {
        let action = self.pending_action.take();
        match &action {
            None => {},
            Some(a) => {
                let label = match a.kind {
                    ActionKind::SubmitFlag => crate::text::concat("Submitting flag for ", a.machine.as_str()),
                    ActionKind::SubmitWriteup => crate::text::concat(
                        "Submitting writeup for ",
                        a.machine.as_str(),
                    ),
                };
                let mut l = label;
                l.append("...");
                self.fetching = Some(l);
            },
        }
        action
    }

    /// The host finished the action: its report is shown, or the failure.
    pub fn action_finished(&mut self, result: Result<ActionReport, String>)
        ensures
            final(self).fetching is None,
            final(self).status_expiry is Some,
            match result {
                Ok(report) => {
                    &&& final(self).status matches Some(s) && s@ == report.status@
                    &&& final(self).report == Some(report)
                    &&& *final(self) == (AppState {
                        status: final(self).status,
                        status_expiry: final(self).status_expiry,
                        pending_refresh_after_close: report.changed,
                        report: Some(report),
                        fetching: None,
                        ..*old(self)
                    })
                },
                Err(e) => {
                    &&& final(self).status matches Some(s) && s@ == "Action failed: "@ + e@
                    &&& *final(self) == (AppState {
                        status: final(self).status,
                        status_expiry: final(self).status_expiry,
                        fetching: None,
                        ..*old(self)
                    })
                },
            },
    {
        match result {
            Ok(report) => {
                self.set_status(report.status.clone());
                self.pending_refresh_after_close = report.changed;
                self.report = Some(report);
            },
            Err(e) => {
                self.set_status(crate::text::concat("Action failed: ", e.as_str()));
            },
        }
        self.fetching = None;
    }

    /// Starts a (re)fetch when one is due: the refresh request is consumed
    /// and the wait labelled.
    pub fn start_fetch(&mut self, pending_fetch: bool) -> (r: bool)
        ensures
            r == (pending_fetch || old(self).refresh_requested),
            r ==> {
                &&& final(self).fetching matches Some(f) && f@ == "Refreshing data..."@
                &&& *final(self) == (AppState {
                    refresh_requested: false,
                    fetching: final(self).fetching,
                    ..*old(self)
                })
            },
            !r ==> *final(self) == *old(self),
    {
        if self.should_fetch(pending_fetch) {
            self.refresh_requested = false;
            self.fetching = Some(owned("Refreshing data..."));
            true
        } else {
            false
        }
    }

    /// The host finished fetching: the new data is shown, or the failure.
    pub fn fetch_finished(&mut self, result: Result<TuiData, String>)
        ensures
            final(self).fetching is None,
            final(self).status_expiry is Some,
            match result {
                Ok(data) => {
                    &&& final(self).status matches Some(s) && s@ == "Data refreshed."@
                    &&& *final(self) == (AppState {
                        data: data,
                        selected: 0,
                        scroll: 0,
                        status: final(self).status,
                        status_expiry: final(self).status_expiry,
                        fetching: None,
                        ..*old(self)
                    })
                },
                Err(e) => {
                    &&& final(self).status matches Some(s) && s@ == "Fetch failed: "@ + e@
                    &&& *final(self) == (AppState {
                        status: final(self).status,
                        status_expiry: final(self).status_expiry,
                        fetching: None,
                        ..*old(self)
                    })
                },
            },
    {
        self.fetching = None;
        match result {
            Ok(data) => {
                self.set_data(data);
                self.set_status(owned("Data refreshed."));
            },
            Err(e) => {
                self.set_status(crate::text::concat("Fetch failed: ", e.as_str()));
            },
        }
    }
}

proof fn lemma_flag_values_err(bufs: Seq<Seq<char>>, types: Seq<Seq<char>>, k: int, n: int)
    requires
        0 < k <= n,
        flag_values(bufs, types, k) is Err,
    ensures
        flag_values(bufs, types, n) == flag_values(bufs, types, k),
    decreases n - k,
{
    if k < n {
        lemma_flag_values_err(bufs, types, k, n - 1);
    }
}


/// How many of the machines `ms` count as completed in state `s`.
pub open spec fn done_among(s: AppState, ms: Seq<Machine>) -> nat
    decreases ms.len(),
{
    if ms.len() == 0 {
        0
    } else {
        done_among(s, ms.drop_last()) + if is_done(s, ms.last().slug@) {
            1nat
        } else {
            0nat
        }
    }
}

/// `ss` without any `x`.
pub open spec fn without(ss: Seq<Seq<char>>, x: Seq<char>) -> Seq<Seq<char>>
    decreases ss.len(),
{
    if ss.len() == 0 {
        Seq::empty()
    } else {
        without(ss.drop_last(), x) + if ss.last() == x {
            Seq::empty()
        } else {
            seq![ss.last()]
        }
    }
}

/// The hand-made marks after toggling machine `slug`: removed when it was
/// marked, added at the end otherwise.
pub open spec fn toggled_marks(marks: Seq<Seq<char>>, slug: Seq<char>) -> Seq<Seq<char>> {
    if marks.contains(slug) {
        without(marks, slug)
    } else {
        marks.push(slug)
    }
}

/// What toggling the completed mark does to state `old`, giving `new`
/// and the marks `r` to persist.
pub open spec fn mark_toggled(old: AppState, new: AppState, r: Option<Vec<String>>) -> bool {
    match selected_spec(old) {
        None => r is None && sets_status(old, new, "Nothing selected."@),
        Some(m) => {
            let was = strings(old.completed@).contains(m.slug@);
            &&& strings(new.completed@) == toggled_marks(strings(old.completed@), m.slug@)
            &&& r matches Some(list) && strings(list@) == strings(new.completed@)
            &&& sets_status(
                AppState { completed: new.completed, ..old },
                new,
                if was {
                    m.name@ + " marked as not completed."@
                } else {
                    m.name@ + " marked as completed."@
                },
            )
        },
    }
}

impl AppState {
    /// Marks the selected machine as completed, or removes the mark it
    /// has; returns the marks for the host to persist (then reported with
    /// [`AppState::completed_saved`]).
    pub fn toggle_completed(&mut self) -> (r: Option<Vec<String>>)
        ensures
            mark_toggled(*old(self), *final(self), r),
    {
        let found = match self.selected_machine() {
            Some(machine) => Some((owned(machine.name.as_str()), owned(machine.slug.as_str()))),
            None => None,
        };
        let (name, slug) = match found {
            None => {
                self.set_status(owned("Nothing selected."));
                return None;
            },
            Some(p) => p,
        };
        let ghost marks = strings(self.completed@);
        let mut was = false;
        let mut kept: Vec<String> = Vec::new();
        let mut i: usize = 0;
        while i < self.completed.len()
            invariant
                i <= self.completed.len(),
                marks == strings(self.completed@),
                strings(kept@) == without(marks.take(i as int), slug@),
                was == marks.take(i as int).contains(slug@),
            decreases self.completed.len() - i,
        {
            let ghost before = kept@;
            assert(marks.take(i + 1) == marks.take(i as int).push(marks[i as int]));
            if crate::text::str_eq(self.completed[i].as_str(), slug.as_str()) {
                was = true;
            } else {
                kept.push(owned(self.completed[i].as_str()));
            }
            proof {
                assert(marks.take(i + 1).drop_last() == marks.take(i as int));
                assert(strings(kept@) =~= without(marks.take(i + 1), slug@));
                assert(marks.take(i + 1).contains(slug@) == (marks.take(i as int).contains(slug@)
                    || marks[i as int] == slug@));
            }
            i += 1;
        }
        assert(marks.take(self.completed.len() as int) == marks);
        let mut msg = owned(name.as_str());
        if was {
            msg.append(" marked as not completed.");
            self.completed = kept;
        } else {
            msg.append(" marked as completed.");
            let ghost before = self.completed@;
            self.completed.push(slug);
            assert(strings(self.completed@) =~= strings(before).push(slug@));
        }
        self.set_status(msg);
        Some(crate::config::copy_strings(&self.completed))
    }

    /// Hides the completed machines from the Machines list, or shows them
    /// again.
    pub fn toggle_hide_completed(&mut self)
        ensures
            sets_status(
                AppState { hide_completed: !old(self).hide_completed, selected: 0, scroll: 0, ..*old(self) },
                *final(self),
                if old(self).hide_completed {
                    msg_text(Msg::CompletedShown, old(self).lang)
                } else {
                    msg_text(Msg::CompletedHidden, old(self).lang)
                },
            ),
    {
        self.hide_completed = !self.hide_completed;
        self.reset_list_position();
        let text = if self.hide_completed {
            Msg::CompletedHidden.render(self.lang)
        } else {
            Msg::CompletedShown.render(self.lang)
        };
        self.set_status(text);
    }

    /// Switches the interface language and says so in the new language;
    /// returns it for the host to persist (then reported with
    /// [`AppState::preferences_saved`]).
    pub fn toggle_language(&mut self) -> (r: Lang)
        ensures
            r == old(self).lang.other(),
            sets_status(
                AppState { lang: r, ..*old(self) },
                *final(self),
                msg_text(Msg::LanguageSet(r), r),
            ),
    {
        self.lang = self.lang.toggle();
        let text = Msg::LanguageSet(self.lang).render(self.lang);
        self.set_status(text);
        self.lang
    }

    /// The host tried to persist the preferences (completed marks or
    /// language).
    pub fn preferences_saved(&mut self, outcome: Result<(), String>)
        ensures
            match outcome {
                Ok(()) => *final(self) == *old(self),
                Err(e) => sets_status(*old(self), *final(self), "Failed to save: "@ + e@),
            },
    {
        match outcome {
            Ok(()) => {},
            Err(e) => {
                self.set_status(crate::text::concat("Failed to save: ", e.as_str()));
            },
        }
    }

    /// Whether machine `slug` counts as completed: marked by hand, or one
    /// of the user's writeups is about it.
    pub fn is_completed(&self, slug: &String) -> (r: bool)
        ensures
            r == is_done(*self, slug@),
    {
        let own = self.own_writeups_rows();
        self.completed_with(slug, &own)
    }

    /// How many catalog machines count as completed.
    pub fn done_count(&self) -> (r: usize)
        ensures
            r == done_among(*self, self.data.machines@),
    {
        let own = self.own_writeups_rows();
        let mut n: usize = 0;
        let mut i: usize = 0;
        while i < self.data.machines.len()
            invariant
                i <= self.data.machines.len(),
                own@.map_values(|p: &(String, WriteupEntry)| *p) == writeups_by(
                    self.data.writeups@,
                    name_key(self.username@),
                ),
                n == done_among(*self, self.data.machines@.take(i as int)),
                n <= i,
            decreases self.data.machines.len() - i,
        {
            proof {
                let t = self.data.machines@.take(i + 1);
                assert(t.drop_last() == self.data.machines@.take(i as int));
            }
            if self.completed_with(&self.data.machines[i].slug, &own) {
                n = n + 1;
            }
            i += 1;
        }
        assert(self.data.machines@.take(self.data.machines.len() as int) == self.data.machines@);
        n
    }
}


} // verus!

verus! {

/// Erasing the last character of the filter undoes typing one.
pub proof fn filter_erase_undoes_typing(filter: Seq<char>, c: char)
    ensures
        super::drop_last_char(filter.push(c)) == filter,
{
    assert(filter.push(c).drop_last() =~= filter);
}

/// After scrolling, the selected row lies inside the visible window.
pub proof fn selection_stays_in_view(selected: int, scroll: int, visible: int)
    requires
        visible >= 1,
    ensures
        scrolled(selected, scroll, visible) <= selected < scrolled(selected, scroll, visible)
            + visible,
{
}

/// Moving the selection keeps it on the rows: down never passes the last
/// row (or the first, without rows) and never goes up; up never goes
/// down; both keep the selected row in view.
pub proof fn moves_stay_on_rows(old: AppState, new: AppState)
    ensures
        moved_down(old, new) ==> new.selected <= if row_count_spec(old) >= 1 {
            row_count_spec(old) - 1
        } else {
            0
        },
        moved_down(old, new) && old.selected < row_count_spec(old) && old.selected < usize::MAX
            ==> new.selected >= old.selected,
        moved_up(old, new) ==> new.selected <= old.selected,
        (moved_down(old, new) && old.selected < usize::MAX || moved_up(old, new)) && scroll_in_range(
            old,
        ) ==> new.scroll <= new.selected < new.scroll + window(old.last_visible_rows),
{
    let w = window(old.last_visible_rows);
    let last = if row_count_spec(old) >= 1 {
        row_count_spec(old) - 1
    } else {
        0
    };
    let down = if old.selected + 1 < last {
        old.selected + 1
    } else {
        last
    };
    let up = if old.selected >= 1 {
        old.selected - 1
    } else {
        0
    };
    selection_stays_in_view(down, old.scroll as int, w);
    selection_stays_in_view(up, old.scroll as int, w);
}

/// The Machines list is ordered by the chosen sort key (site order keeps
/// the catalog order), and it lists exactly the machines that pass the
/// filters, each once.
pub proof fn machine_list_is_sorted(s: AppState)
    ensures
        s.machine_sort != MachineSort::Sitio ==> forall|i: int, j: int|
            0 <= i < j < visible_spec(s).len() ==> crate::order::key_le(
                sort_key(#[trigger] visible_spec(s)[i], s.machine_sort),
                sort_key(#[trigger] visible_spec(s)[j], s.machine_sort),
            ),
        visible_spec(s).len() == listed_machines(s).len(),
        shows_each(visible_spec(s), listed_machines(s)),
{
    let l = listed_machines(s);
    if s.machine_sort != MachineSort::Sitio {
        let keys = l.map_values(|m: Machine| sort_key(m, s.machine_sort));
        let order = sorted_indices(keys);
        crate::order::sorted_indices_sort_stably(keys);
        let v = visible_spec(s);
        assert(v == arrange(l, order));
        assert(keys.len() == l.len());
        assert(v.len() == l.len());
        assert forall|i: int, j: int| 0 <= i < j < v.len() implies crate::order::key_le(
            sort_key(#[trigger] v[i], s.machine_sort),
            sort_key(#[trigger] v[j], s.machine_sort),
        ) by {
            assert(order.contains(order[i]));
            assert(order.contains(order[j]));
            assert(crate::order::key_le(keys[order[i]], keys[order[j]]));
        }
        let at = |k: int| choose|i: int| 0 <= i < order.len() && order[i] == k;
        assert forall|k: int| 0 <= k < l.len() implies 0 <= #[trigger] at(k) < v.len() && v[at(k)]
            == l[k] by {
            assert(order.contains(k));
        }
        assert(shown_at(v, l, at));
        assert(visible_spec(s).len() == l.len());
    } else {
        assert(visible_spec(s) == l);
        let at = |k: int| k;
        assert(shown_at(l, l, at));
    }
}

/// A release date `r1` is no older than `r2`: a later year, or the same
/// year and a later month, or the same year and month and a day no
/// earlier.
pub open spec fn released_no_earlier(r1: (u32, u32, u32), r2: (u32, u32, u32)) -> bool {
    ||| r1.0 > r2.0
    ||| r1.0 == r2.0 && r1.1 > r2.1
    ||| r1.0 == r2.0 && r1.1 == r2.1 && r1.2 >= r2.2
}

proof fn lemma_three_keys_le(x1: u64, y1: u64, z1: u64, x2: u64, y2: u64, z2: u64)
    requires
        crate::order::key_le(seq![x1, y1, z1], seq![x2, y2, z2]),
    ensures
        x1 < x2 || (x1 == x2 && y1 < y2) || (x1 == x2 && y1 == y2 && z1 <= z2),
{
    let a = seq![x2, y2, z2];
    let b = seq![x1, y1, z1];
    assert(a.drop_first() =~= seq![y2, z2]);
    assert(b.drop_first() =~= seq![y1, z1]);
    assert(a.drop_first().drop_first() =~= seq![z2]);
    assert(b.drop_first().drop_first() =~= seq![z1]);
    assert(a.drop_first().drop_first().drop_first() =~= Seq::<u64>::empty());
    assert(b.drop_first().drop_first().drop_first() =~= Seq::<u64>::empty());
    reveal_with_fuel(crate::order::key_lt, 4);
}

proof fn lemma_one_key_le(x1: u64, x2: u64)
    requires
        crate::order::key_le(seq![x1], seq![x2]),
    ensures
        x1 <= x2,
{
    assert(seq![x2].drop_first() =~= Seq::<u64>::empty());
    assert(seq![x1].drop_first() =~= Seq::<u64>::empty());
    reveal_with_fuel(crate::order::key_lt, 2);
}

/// What each sort order of the Machines list means, row against later
/// row: by date, the newest release comes first (year, then month, then
/// day); by difficulty, the easier machine comes first; by name, the
/// lowercased names are in order.
pub proof fn machine_sorts_mean_what_they_say(s: AppState)
    ensures
        s.machine_sort == MachineSort::Fecha ==> forall|i: int, j: int|
            0 <= i < j < visible_spec(s).len() ==> released_no_earlier(
                release_key((#[trigger] visible_spec(s)[i]).release_date@),
                release_key((#[trigger] visible_spec(s)[j]).release_date@),
            ),
        s.machine_sort == MachineSort::Dificultad ==> forall|i: int, j: int|
            0 <= i < j < visible_spec(s).len() ==> difficulty_rank_of(
                (#[trigger] visible_spec(s)[i]).difficulty@,
            ) <= difficulty_rank_of((#[trigger] visible_spec(s)[j]).difficulty@),
        s.machine_sort == MachineSort::Nombre ==> forall|i: int, j: int|
            0 <= i < j < visible_spec(s).len() ==> crate::order::key_le(
                lowercase_of((#[trigger] visible_spec(s)[i]).name@).map_values(|c: char| c as u64),
                lowercase_of((#[trigger] visible_spec(s)[j]).name@).map_values(|c: char| c as u64),
            ),
{
    machine_list_is_sorted(s);
    let v = visible_spec(s);
    if s.machine_sort == MachineSort::Fecha {
        assert forall|i: int, j: int| 0 <= i < j < v.len() implies released_no_earlier(
            release_key((#[trigger] v[i]).release_date@),
            release_key((#[trigger] v[j]).release_date@),
        ) by {
            let (y1, m1, d1) = release_key(v[i].release_date@);
            let (y2, m2, d2) = release_key(v[j].release_date@);
            assert(crate::order::key_le(sort_key(v[i], s.machine_sort), sort_key(v[j], s.machine_sort)));
            lemma_three_keys_le(
                (u32::MAX - y1) as u64,
                (u32::MAX - m1) as u64,
                (u32::MAX - d1) as u64,
                (u32::MAX - y2) as u64,
                (u32::MAX - m2) as u64,
                (u32::MAX - d2) as u64,
            );
        }
    }
    if s.machine_sort == MachineSort::Dificultad {
        assert forall|i: int, j: int| 0 <= i < j < v.len() implies difficulty_rank_of(
            (#[trigger] v[i]).difficulty@,
        ) <= difficulty_rank_of((#[trigger] v[j]).difficulty@) by {
            assert(crate::order::key_le(sort_key(v[i], s.machine_sort), sort_key(v[j], s.machine_sort)));
            lemma_one_key_le(difficulty_rank_of(v[i].difficulty@) as u64, difficulty_rank_of(v[j].difficulty@) as u64);
        }
    }
    if s.machine_sort == MachineSort::Nombre {
        assert forall|i: int, j: int| 0 <= i < j < v.len() implies crate::order::key_le(
            lowercase_of((#[trigger] v[i]).name@).map_values(|c: char| c as u64),
            lowercase_of((#[trigger] v[j]).name@).map_values(|c: char| c as u64),
        ) by {
            assert(crate::order::key_le(sort_key(v[i], s.machine_sort), sort_key(v[j], s.machine_sort)));
        }
    }
}

/// Machine `m` gets through the Machines tab's filters: the lowercased
/// filter is empty or occurs in its lowercased name, difficulty, system,
/// creator or one of its tags; in first-blood-only mode one of its slots
/// is still open; and it is not a completed machine while those are
/// hidden.
pub open spec fn gets_through(s: AppState, m: Machine) -> bool {
    let f = lowercase_of(s.filter@);
    &&& (f.len() == 0 || contains_seq(lowercase_of(m.name@), f) || contains_seq(
        lowercase_of(m.difficulty@),
        f,
    ) || contains_seq(lowercase_of(m.os@), f) || contains_seq(lowercase_of(m.creator@), f) || exists|
        t: int,
    |
        0 <= t < m.tech_tags@.len() && contains_seq(lowercase_of(#[trigger] m.tech_tags@[t]@), f))
    &&& (!s.only_first_blood || trim(m.first_user@).len() == 0 || trim(m.first_root@).len() == 0)
    &&& !(s.hide_completed && is_done(s, m.slug@))
}

proof fn lemma_listed_members(
    ms: Seq<Machine>,
    needle: Seq<char>,
    only_first_blood: bool,
    hidden: Set<Seq<char>>,
)
    ensures
        forall|m: Machine|
            #[trigger] listed(ms, needle, only_first_blood, hidden).contains(m) <==> ms.contains(m)
                && is_listed(m, needle, only_first_blood, hidden),
    decreases ms.len(),
{
    if ms.len() > 0 {
        let rest = ms.drop_last();
        let last = ms.last();
        lemma_listed_members(rest, needle, only_first_blood, hidden);
        let l0 = listed(rest, needle, only_first_blood, hidden);
        let tail: Seq<Machine> = if is_listed(last, needle, only_first_blood, hidden) {
            seq![last]
        } else {
            Seq::empty()
        };
        let l = listed(ms, needle, only_first_blood, hidden);
        assert(l == l0 + tail);
        assert forall|m: Machine| #[trigger] l.contains(m) <==> ms.contains(m) && is_listed(
            m,
            needle,
            only_first_blood,
            hidden,
        ) by {
            if l.contains(m) {
                let k = choose|k: int| 0 <= k < l.len() && l[k] == m;
                if k < l0.len() {
                    assert(l0[k] == m);
                    assert(l0.contains(m));
                    assert(rest.contains(m));
                    let q = choose|q: int| 0 <= q < rest.len() && rest[q] == m;
                    assert(ms[q] == m);
                } else {
                    assert(tail[k - l0.len()] == m);
                    assert(ms[ms.len() - 1] == m);
                }
            }
            if ms.contains(m) && is_listed(m, needle, only_first_blood, hidden) {
                let q = choose|q: int| 0 <= q < ms.len() && ms[q] == m;
                if q < rest.len() {
                    assert(rest[q] == m);
                    assert(l0.contains(m));
                    let k = choose|k: int| 0 <= k < l0.len() && l0[k] == m;
                    assert(l[k] == m);
                } else {
                    assert(m == last);
                    assert(l[l0.len() as int] == m);
                }
            }
        }
    }
}

/// The Machines tab shows a machine exactly when it is in the catalog and
/// gets through the filters, whatever the sort order.
pub proof fn machines_tab_shows_what_gets_through(s: AppState)
    ensures
        forall|m: Machine|
            #[trigger] visible_spec(s).contains(m) <==> s.data.machines@.contains(m) && gets_through(
                s,
                m,
            ),
{
    let l = listed_machines(s);
    lemma_listed_members(s.data.machines@, lowercase_of(s.filter@), s.only_first_blood, hidden_slugs(s));
    assert forall|m: Machine| is_listed(m, lowercase_of(s.filter@), s.only_first_blood, hidden_slugs(s))
        <==> #[trigger] gets_through(s, m) by {
        if s.hide_completed {
            assert(hidden_slugs(s).contains(m.slug@) <==> is_done(s, m.slug@));
        } else {
            assert(!hidden_slugs(s).contains(m.slug@));
        }
    }
    let v = visible_spec(s);
    if s.machine_sort == MachineSort::Sitio {
        assert(v == l);
    } else {
        let keys = l.map_values(|m: Machine| sort_key(m, s.machine_sort));
        let order = sorted_indices(keys);
        crate::order::sorted_indices_sort_stably(keys);
        assert(v == arrange(l, order));
        assert forall|m: Machine| #[trigger] v.contains(m) <==> l.contains(m) by {
            if v.contains(m) {
                let i = choose|i: int| 0 <= i < v.len() && v[i] == m;
                assert(order.contains(order[i]));
                assert(l[order[i]] == m);
            }
            if l.contains(m) {
                let k = choose|k: int| 0 <= k < l.len() && l[k] == m;
                assert(order.contains(k));
                let i = choose|i: int| 0 <= i < order.len() && order[i] == k;
                assert(v[i] == m);
            }
        }
    }
}

} // verus!

verus! {

proof fn lemma_without_absent(marks: Seq<Seq<char>>, slug: Seq<char>)
    requires
        !marks.contains(slug),
    ensures
        without(marks, slug) == marks,
    decreases marks.len(),
{
    if marks.len() > 0 {
        assert(!marks.drop_last().contains(slug)) by {
            if marks.drop_last().contains(slug) {
                let k = choose|k: int| 0 <= k < marks.len() - 1 && marks.drop_last()[k] == slug;
                assert(marks[k] == slug);
            }
        }
        lemma_without_absent(marks.drop_last(), slug);
        assert(marks.last() != slug) by {
            assert(marks[marks.len() - 1] == marks.last());
        }
        assert(marks.drop_last() + seq![marks.last()] == marks);
    } else {
        assert(without(marks, slug) =~= marks);
    }
}

/// Marking a machine as completed and then unmarking it gives the marks
/// back as they were.
pub proof fn marking_twice_restores_marks(marks: Seq<Seq<char>>, slug: Seq<char>)
    requires
        !marks.contains(slug),
    ensures
        toggled_marks(toggled_marks(marks, slug), slug) == marks,
{
    let once = marks.push(slug);
    assert(once.contains(slug)) by {
        assert(once[marks.len() as int] == slug);
    }
    assert(once.drop_last() == marks);
    lemma_without_absent(marks, slug);
}

} // verus!

verus! {

/// Every value that confirming the flag popup queues is the slot type of
/// one of its fields, a colon, and that field's text, trimmed, which is an
/// MD5 hash.
pub proof fn queued_flags_are_md5(bufs: Seq<Seq<char>>, types: Seq<Seq<char>>, n: int)
    ensures
        flag_values(bufs, types, n) matches Ok(typed) ==> forall|k: int|
            0 <= k < typed.len() ==> exists|j: int|
                0 <= j < n && #[trigger] typed[k] == types[j] + ":"@ + trim(bufs[j])
                    && crate::flags::is_md5_flag(trim(bufs[j])),
    decreases n,
{
    if n > 0 {
        queued_flags_are_md5(bufs, types, n - 1);
        match flag_values(bufs, types, n - 1) {
            Ok(prev) => {
                let f = trim(bufs[n - 1]);
                if f.len() != 0 && crate::flags::is_md5_flag(f) {
                    let typed = prev.push(types[n - 1] + ":"@ + f);
                    assert forall|k: int| 0 <= k < typed.len() implies exists|j: int|
                        0 <= j < n && #[trigger] typed[k] == types[j] + ":"@ + trim(bufs[j])
                            && crate::flags::is_md5_flag(trim(bufs[j])) by {
                        if k < prev.len() {
                            assert(typed[k] == prev[k]);
                        } else {
                            assert(typed[k] == types[n - 1] + ":"@ + trim(bufs[n - 1]));
                        }
                    }
                }
            },
            Err(_) => {},
        }
    }
}

} // verus!
