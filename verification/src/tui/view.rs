//! The texts the dashboard shows besides the catalog's own: table cells,
//! panel titles and footers, computed from the state for the renderer.
use vstd::prelude::*;

use super::state::{done_among, visible_spec, AppState};
use super::{bloods_of, name_key, writeups_by, InputMode};
use crate::i18n::{msg_text, Lang, Msg};
use crate::machines::{slot_open, split_on, Machine};
use crate::text::{chars_of, concat, string_of_range};

verus! {

/// The first-blood cell of a machine: which of its slots are still open.
pub open spec fn slot_label_text(m: Machine) -> Seq<char> {
    if slot_open(m.first_user@) && slot_open(m.first_root@) {
        "user+root"@
    } else if slot_open(m.first_user@) {
        "user"@
    } else if slot_open(m.first_root@) {
        "root"@
    } else {
        "taken"@
    }
}

/// The first-blood cell of machine `m`.
pub fn slot_label(m: &Machine) -> (r: &'static str)
    ensures
        r@ == slot_label_text(*m),
{
    let user = m.user_slot_open();
    let root = m.root_slot_open();
    if user && root {
        "user+root"
    } else if user {
        "user"
    } else if root {
        "root"
    } else {
        "taken"
    }
}

/// How many of the first bloods `bs` are of slot `kind`.
pub open spec fn count_kind(bs: Seq<(Machine, Seq<char>)>, kind: Seq<char>) -> nat
    decreases bs.len(),
{
    if bs.len() == 0 {
        0
    } else {
        count_kind(bs.drop_last(), kind) + if bs.last().1 == kind {
            1nat
        } else {
            0nat
        }
    }
}

/// The first bloods as machine and slot.
pub open spec fn bloods_view(bs: Seq<(&Machine, &'static str)>) -> Seq<(Machine, Seq<char>)> {
    bs.map_values(|p: (&Machine, &'static str)| (*p.0, p.1@))
}

/// How many user and how many root first bloods `bloods` holds.
pub fn blood_counts(bloods: &Vec<(&Machine, &'static str)>) -> (r: (usize, usize))
    ensures
        r.0 == count_kind(bloods_view(bloods@), "user"@),
        r.1 == count_kind(bloods_view(bloods@), "root"@),
{
    let ghost bs = bloods_view(bloods@);
    let mut users: usize = 0;
    let mut roots: usize = 0;
    let mut i: usize = 0;
    while i < bloods.len()
        invariant
            i <= bloods.len(),
            bs == bloods_view(bloods@),
            users == count_kind(bs.take(i as int), "user"@),
            roots == count_kind(bs.take(i as int), "root"@),
            users <= i,
            roots <= i,
        decreases bloods.len() - i,
    {
        assert(bs.take(i + 1).drop_last() == bs.take(i as int));
        assert(bs.take(i + 1).last() == (*bloods@[i as int].0, bloods@[i as int].1@));
        if crate::text::str_eq(bloods[i].1, "user") {
            users = users + 1;
        }
        if crate::text::str_eq(bloods[i].1, "root") {
            roots = roots + 1;
        }
        i += 1;
    }
    assert(bs.take(bloods.len() as int) == bs);
    (users, roots)
}

/// The day of a "date time" stamp: the text before the first space.
pub fn submitted_day(stamp: &str) -> (r: String)
    ensures
        r@ == split_on(stamp@, ' ')[0],
{
    let cs = chars_of(stamp);
    let mut i: usize = 0;
    while i < cs.len() && cs[i] != ' '
        invariant
            i <= cs.len(),
            cs@ == stamp@,
            forall|k: int| 0 <= k < i ==> cs@[k] != ' ',
        decreases cs.len() - i,
    {
        i += 1;
    }
    proof {
        lemma_first_piece(stamp@, i as int);
    }
    string_of_range(&cs, 0, i)
}

proof fn lemma_split_single(s: Seq<char>)
    requires
        forall|k: int| 0 <= k < s.len() ==> s[k] != ' ',
    ensures
        split_on(s, ' ') == seq![s],
    decreases s.len(),
{
    if s.len() > 0 {
        assert forall|k: int| 0 <= k < s.len() - 1 implies s.drop_last()[k] != ' ' by {
            assert(s.drop_last()[k] == s[k]);
        }
        lemma_split_single(s.drop_last());
        assert(s.drop_last().push(s.last()) == s);
        assert(seq![s.drop_last()].update(0, s.drop_last().push(s.last())) =~= seq![s]);
    } else {
        assert(s =~= Seq::<char>::empty());
        assert(split_on(s, ' ') =~= seq![s]);
    }
}

proof fn lemma_split_at_space(s: Seq<char>, j: int)
    requires
        0 <= j < s.len(),
        s[j] == ' ',
    ensures
        split_on(s, ' ').len() >= 2,
    decreases s.len(),
{
    crate::machines::lemma_split_nonempty(s.drop_last(), ' ');
    if j < s.len() - 1 {
        assert(s.drop_last()[j] == ' ');
        lemma_split_at_space(s.drop_last(), j);
    }
}

proof fn lemma_first_piece(s: Seq<char>, i: int)
    requires
        0 <= i <= s.len(),
        forall|k: int| 0 <= k < i ==> s[k] != ' ',
        i == s.len() || s[i] == ' ',
    ensures
        split_on(s, ' ')[0] == s.take(i),
    decreases s.len(),
{
    if i == s.len() {
        lemma_split_single(s);
        assert(s.take(i) == s);
    } else {
        let d = s.drop_last();
        assert forall|k: int| 0 <= k < i implies d[k] != ' ' by {
            assert(d[k] == s[k]);
        }
        if i < d.len() {
            assert(d[i] == s[i]);
        }
        lemma_first_piece(d, i);
        assert(d.take(i) == s.take(i));
        crate::machines::lemma_split_nonempty(d, ' ');
        if i < d.len() {
            lemma_split_at_space(d, i);
        }
    }
}


/// The filter as the list's border shows it: with a cursor while it is
/// typed, otherwise only when there is one.
pub open spec fn filter_title_text(editing: bool, filter: Seq<char>) -> Option<Seq<char>> {
    if editing {
        Some(" filter: "@ + filter + "▏"@)
    } else if filter.len() > 0 {
        Some(" filter: "@ + filter + " "@)
    } else {
        None
    }
}

/// The filter title of the list's border in state `app`.
pub fn filter_title(app: &AppState) -> (r: Option<String>)
    ensures
        match filter_title_text(app.input_mode == InputMode::Filter, app.filter@) {
            Some(t) => r matches Some(s) && s@ == t,
            None => r is None,
        },
{
    if app.input_mode == InputMode::Filter {
        let mut t = concat(" filter: ", app.filter.as_str());
        t.append("▏");
        Some(t)
    } else if !app.filter.as_str().is_empty() {
        let mut t = concat(" filter: ", app.filter.as_str());
        t.append(" ");
        Some(t)
    } else {
        None
    }
}

/// How many of the machines `ms` have an open first-blood slot.
pub open spec fn open_count(ms: Seq<Machine>) -> nat
    decreases ms.len(),
{
    if ms.len() == 0 {
        0
    } else {
        open_count(ms.drop_last()) + if slot_open(ms.last().first_user@) || slot_open(
            ms.last().first_root@,
        ) {
            1nat
        } else {
            0nat
        }
    }
}

/// The note on first bloods under the Machines list.
pub open spec fn blood_note(s: AppState, lang: Lang) -> Seq<char> {
    if s.only_first_blood {
        msg_text(Msg::FbOnly, lang)
    } else if open_count(s.data.machines@) > 0 {
        msg_text(Msg::FbOpen(open_count(s.data.machines@) as usize), lang)
    } else {
        Seq::empty()
    }
}

/// The line under the Machines list: shown and total machines, the sort
/// order, the completed machines and the first-blood note.
pub open spec fn machines_footer_text(s: AppState, lang: Lang) -> Seq<char> {
    msg_text(
        Msg::MachinesTitle(visible_spec(s).len() as usize, s.data.machines@.len() as usize),
        lang,
    ) + s.machine_sort.indicator_text() + msg_text(
        Msg::DoneNote(done_among(s, s.data.machines@) as usize, s.hide_completed),
        lang,
    ) + blood_note(s, lang) + " "@
}

/// The line under the Machines list in state `app`, in language `lang`.
pub fn machines_footer(app: &AppState, lang: Lang) -> (r: String)
    ensures
        r@ == machines_footer_text(*app, lang),
{
    let shown = app.visible_machines().len();
    let mut t = Msg::MachinesTitle(shown, app.data.machines.len()).render(lang);
    t.append(app.machine_sort.indicator());
    let done = app.done_count();
    let note = Msg::DoneNote(done, app.hide_completed).render(lang);
    t.append(note.as_str());
    let mut open: usize = 0;
    let mut i: usize = 0;
    while i < app.data.machines.len()
        invariant
            i <= app.data.machines.len(),
            open == open_count(app.data.machines@.take(i as int)),
            open <= i,
        decreases app.data.machines.len() - i,
    {
        assert(app.data.machines@.take(i + 1).drop_last() == app.data.machines@.take(i as int));
        if app.data.machines[i].any_slot_open() {
            open = open + 1;
        }
        i += 1;
    }
    assert(app.data.machines@.take(app.data.machines.len() as int) == app.data.machines@);
    if app.only_first_blood {
        t.append(Msg::FbOnly.render(lang).as_str());
    } else if open > 0 {
        t.append(Msg::FbOpen(open).render(lang).as_str());
    }
    t.append(" ");
    t
}

/// The line under the Progress tab: the user's first bloods and writeups.
pub fn progress_footer(app: &AppState, lang: Lang) -> (r: String)
    ensures
        r@ == msg_text(
            Msg::ProgressTitle(
                bloods_of(app.data.machines@, name_key(app.username@)).len() as usize,
                writeups_by(app.data.writeups@, name_key(app.username@)).len() as usize,
            ),
            lang,
        ),
{
    let bloods = app.data.first_bloods_of(app.username.as_str());
    let rows = app.own_writeups_rows();
    Msg::ProgressTitle(bloods.len(), rows.len()).render(lang)
}


} // verus!
