//! Interactive dashboard: application state and every state transition of
//! the event loop. Terminal drawing and the work outside the process
//! (network, files, the browser) stay with the host, which hands the
//! outcomes back through the methods here.
use vstd::prelude::*;

pub mod downloads;
pub mod keys;
pub mod layout;
pub mod state;
pub mod view;

use crate::leaderboard::{compute, leaderboard, position_from, EntryView};
use crate::machines::{slot_open, Machine};
use crate::text::{lowercase_of, to_lowercase, trim, trimmed};
use crate::writeups::WriteupEntry;

verus! {

// ---------------------------------------------------------------------
// Time, for status messages
// ---------------------------------------------------------------------

#[verifier::external_type_specification]
#[verifier::external_body]
pub struct ExInstant(std::time::Instant);

/// `Instant::now()`: nothing is claimed of the clock.
#[verifier::external_body]
fn instant_now() -> std::time::Instant {
    std::time::Instant::now()
}

/// `t.checked_add(Duration::from_secs(secs))`: the instant `secs` seconds
/// after `t`, or `None` where the clock cannot represent it. Nothing is
/// claimed of which.
#[verifier::external_body]
fn instant_after_secs(t: &std::time::Instant, secs: u64) -> Option<std::time::Instant> {
    t.checked_add(std::time::Duration::from_secs(secs))
}

/// `now >= deadline` on instants: nothing is claimed of the outcome.
#[verifier::external_body]
fn instant_reached(now: &std::time::Instant, deadline: &std::time::Instant) -> bool {
    now >= deadline
}

/// How long a status message stays visible in the footer, in seconds.
pub const STATUS_LIFETIME_SECS: u64 = 5;

// ---------------------------------------------------------------------
// Popups, actions, data
// ---------------------------------------------------------------------

/// The texts held by a vector of strings.
pub open spec fn texts(v: Seq<String>) -> Seq<Seq<char>> {
    v.map_values(|s: String| s@)
}

/// What a popup asks the user for.
#[derive(Debug, Clone, Copy, PartialEq, Eq, Structural)]
pub enum PopupKind {
    /// First-blood flag input (User / Root MD5 fields as slots allow).
    Flag,
    /// Writeup submission (URL, type, language).
    WriteupSubmit,
    /// Username setting, the self-declared submission identity.
    Username,
    /// Read-only machine description.
    Descripcion,
}

/// A popup bound to one machine. Input popups carry `buffers`; the
/// description popup is read-only and renders `text`.
#[derive(Debug, Clone)]
pub struct Popup {
    pub kind: PopupKind,
    pub machine: String,
    /// Machine slug for API submissions ("" when not applicable).
    pub machine_slug: String,
    pub buffers: Vec<String>,
    pub field: usize,
    pub notice: Option<String>,
    pub readonly: bool,
    /// Body text for read-only popups.
    pub text: Option<String>,
    /// Flag slot types parallel to `buffers` ("user" / "root").
    pub flag_types: Vec<&'static str>,
}

impl Popup {
    /// Types `c` into the active field, if there is one.
    pub fn push(&mut self, c: char)
        ensures
            old(self).field < old(self).buffers.len() ==> texts(final(self).buffers@) == texts(
                old(self).buffers@,
            ).update(old(self).field as int, texts(old(self).buffers@)[old(self).field as int].push(c)),
            old(self).field >= old(self).buffers.len() ==> final(self).buffers@ == old(self).buffers@,
            *final(self) == (Popup { buffers: final(self).buffers, ..*old(self) }),
    {
        if self.field < self.buffers.len() {
            let mut b = self.buffers[self.field].clone();
            b.push(c);
            self.buffers.set(self.field, b);
            assert(texts(self.buffers@) =~= texts(old(self).buffers@).update(
                self.field as int,
                texts(old(self).buffers@)[self.field as int].push(c),
            ));
        }
    }

    /// Erases the last character of the active field, if there is one.
    pub fn pop(&mut self)
        ensures
            old(self).field < old(self).buffers.len() ==> texts(final(self).buffers@) == texts(
                old(self).buffers@,
            ).update(old(self).field as int, drop_last_char(texts(old(self).buffers@)[old(self).field as int])),
            old(self).field >= old(self).buffers.len() ==> final(self).buffers@ == old(self).buffers@,
            *final(self) == (Popup { buffers: final(self).buffers, ..*old(self) }),
    {
        if self.field < self.buffers.len() {
            let mut b = self.buffers[self.field].clone();
            b.pop();
            self.buffers.set(self.field, b);
            assert(texts(self.buffers@) =~= texts(old(self).buffers@).update(
                self.field as int,
                drop_last_char(texts(old(self).buffers@)[self.field as int]),
            ));
        }
    }

    /// Moves to the next field, wrapping around, when there are several.
    pub fn next_field(&mut self)
        ensures
            *final(self) == (Popup { field: final(self).field, ..*old(self) }),
            final(self).field == if old(self).buffers.len() > 1 {
                ((old(self).field + 1) % (old(self).buffers.len() as int)) as usize
            } else {
                old(self).field
            },
    {
        if self.buffers.len() > 1 {
            self.field = ((self.field as u128 + 1) % (self.buffers.len() as u128)) as usize;
        }
    }

    /// Moves to the previous field, wrapping around, when there are
    /// several.
    pub fn previous_field(&mut self)
        ensures
            *final(self) == (Popup { field: final(self).field, ..*old(self) }),
            final(self).field == if old(self).buffers.len() > 1 {
                ((old(self).field + old(self).buffers.len() - 1) % (old(
                    self,
                ).buffers.len() as int)) as usize
            } else {
                old(self).field
            },
    {
        if self.buffers.len() > 1 {
            let len = self.buffers.len() as u128;
            self.field = ((self.field as u128 + len - 1) % len) as usize;
        }
    }
}

/// `s` without its last character (unchanged when empty).
pub open spec fn drop_last_char(s: Seq<char>) -> Seq<char> {
    if s.len() == 0 {
        s
    } else {
        s.drop_last()
    }
}

/// A user action queued from a popup, executed by the host application.
#[derive(Debug, Clone, Copy, PartialEq, Eq, Structural)]
pub enum ActionKind {
    SubmitFlag,
    SubmitWriteup,
}

#[derive(Debug, Clone)]
pub struct TuiAction {
    pub kind: ActionKind,
    pub machine: String,
    pub values: Vec<(usize, String)>,
}

#[derive(Debug, Clone, Default)]
pub struct TuiData {
    pub machines: Vec<Machine>,
    /// Flattened writeups map: (machine slug, entry).
    pub writeups: Vec<(String, WriteupEntry)>,
}

/// The key a name is compared under: trimmed and lowercased.
pub open spec fn name_key(s: Seq<char>) -> Seq<char> {
    lowercase_of(trim(s))
}

/// The slot whose holder is `holder` is held by the user whose key is
/// `name`: someone holds it (an open slot is held by nobody) and the
/// holder's key is `name`.
pub open spec fn held_by(holder: Seq<char>, name: Seq<char>) -> bool {
    !slot_open(holder) && name_key(holder) == name
}

/// The first bloods among `ms` held by the user whose key is `name`: for
/// each machine in order, its user blood then its root blood.
pub open spec fn bloods_of(ms: Seq<Machine>, name: Seq<char>) -> Seq<(Machine, Seq<char>)>
    decreases ms.len(),
{
    if ms.len() == 0 {
        Seq::empty()
    } else {
        let m = ms.last();
        bloods_of(ms.drop_last(), name) + (if held_by(m.first_user@, name) {
            seq![(m, "user"@)]
        } else {
            Seq::empty()
        }) + (if held_by(m.first_root@, name) {
            seq![(m, "root"@)]
        } else {
            Seq::empty()
        })
    }
}

/// The writeups among `ws` whose author's key is `name`.
pub open spec fn writeups_by(ws: Seq<(String, WriteupEntry)>, name: Seq<char>) -> Seq<(String, WriteupEntry)>
    decreases ws.len(),
{
    if ws.len() == 0 {
        Seq::empty()
    } else {
        writeups_by(ws.drop_last(), name) + if name_key(ws.last().1.author@) == name {
            seq![ws.last()]
        } else {
            Seq::empty()
        }
    }
}

/// The data is small enough for the scores to fit in a `u64`.
pub open spec fn scorable(d: TuiData) -> bool {
    30 * (3 * d.machines@.len() + d.writeups@.len()) <= u64::MAX
}

/// Whether two texts are equal.
fn text_eq(a: &String, b: &String) -> (r: bool)
    ensures
        r == (a@ == b@),
{
    crate::text::str_eq(a.as_str(), b.as_str())
}

impl TuiData {
    /// Machines the given username holds first blood on (user or root).
    pub fn first_bloods_of(&self, username: &str) -> (r: Vec<(&Machine, &'static str)>)
        ensures
            r@.map_values(|p: (&Machine, &'static str)| (*p.0, p.1@)) == bloods_of(
                self.machines@,
                name_key(username@),
            ),
    {
        let name = to_lowercase(trimmed(username).as_str());
        let mut out: Vec<(&Machine, &'static str)> = Vec::new();
        let mut i: usize = 0;
        while i < self.machines.len()
            invariant
                i <= self.machines.len(),
                name@ == name_key(username@),
                out@.map_values(|p: (&Machine, &'static str)| (*p.0, p.1@)) == bloods_of(
                    self.machines@.take(i as int),
                    name@,
                ),
            decreases self.machines.len() - i,
        {
            let m = &self.machines[i];
            let ghost before = out@.map_values(|p: (&Machine, &'static str)| (*p.0, p.1@));
            let u = to_lowercase(trimmed(m.first_user.as_str()).as_str());
            let ghost mid = before;
            if !m.user_slot_open() && text_eq(&u, &name) {
                out.push((m, "user"));
            }
            let ghost after_user = out@.map_values(|p: (&Machine, &'static str)| (*p.0, p.1@));
            let r = to_lowercase(trimmed(m.first_root.as_str()).as_str());
            if !m.root_slot_open() && text_eq(&r, &name) {
                out.push((m, "root"));
            }
            proof {
                let ms = self.machines@.take(i + 1);
                assert(ms.drop_last() == self.machines@.take(i as int));
                assert(ms.last() == *m);
                let part_u: Seq<(Machine, Seq<char>)> = if held_by(m.first_user@, name@) {
                    seq![(*m, "user"@)]
                } else {
                    Seq::empty()
                };
                let part_r: Seq<(Machine, Seq<char>)> = if held_by(m.first_root@, name@) {
                    seq![(*m, "root"@)]
                } else {
                    Seq::empty()
                };
                assert(after_user =~= before + part_u);
                assert(out@.map_values(|p: (&Machine, &'static str)| (*p.0, p.1@)) =~= before
                    + part_u + part_r);
            }
            i += 1;
        }
        assert(self.machines@.take(self.machines.len() as int) == self.machines@);
        out
    }

    /// Writeups published by the given username.
    pub fn own_writeups(&self, username: &str) -> (r: Vec<&(String, WriteupEntry)>)
        ensures
            r@.map_values(|p: &(String, WriteupEntry)| *p) == writeups_by(
                self.writeups@,
                name_key(username@),
            ),
    {
        let name = to_lowercase(trimmed(username).as_str());
        let mut out: Vec<&(String, WriteupEntry)> = Vec::new();
        let mut i: usize = 0;
        while i < self.writeups.len()
            invariant
                i <= self.writeups.len(),
                name@ == name_key(username@),
                out@.map_values(|p: &(String, WriteupEntry)| *p) == writeups_by(
                    self.writeups@.take(i as int),
                    name@,
                ),
            decreases self.writeups.len() - i,
        {
            let w = &self.writeups[i];
            let ghost before = out@.map_values(|p: &(String, WriteupEntry)| *p);
            let a = to_lowercase(trimmed(w.1.author.as_str()).as_str());
            if text_eq(&a, &name) {
                out.push(w);
            }
            proof {
                let ws = self.writeups@.take(i + 1);
                assert(ws.drop_last() == self.writeups@.take(i as int));
                assert(ws.last() == *w);
                assert(out@.map_values(|p: &(String, WriteupEntry)| *p) =~= before + if name_key(
                    w.1.author@,
                ) == name@ {
                    seq![*w]
                } else {
                    Seq::<(String, WriteupEntry)>::empty()
                });
            }
            i += 1;
        }
        assert(self.writeups@.take(self.writeups.len() as int) == self.writeups@);
        out
    }

    /// The user's overall leaderboard position (1-based) and points,
    /// computed from the public data with the site's own scoring rules.
    pub fn leaderboard_position(&self, username: &str) -> (r: Option<(usize, u64)>)
        requires
            scorable(*self),
        ensures
            ({
                let board = leaderboard(self.machines@, self.writeups@);
                match r {
                    Some((pos, pts)) => {
                        &&& pos >= 1
                        &&& position_from_view(board, trim(username@)) == Some(pos - 1)
                        &&& pts == board[pos - 1].points
                    },
                    None => position_from_view(board, trim(username@)) is None,
                }
            }),
    {
        let list = compute(self.machines.as_slice(), self.writeups.as_slice());
        let position = crate::leaderboard::position_of(list.as_slice(), username);
        proof {
            lemma_position_view(list@, trim(username@), 0);
        }
        match position {
            Some(p) => {
                proof {
                    let i = position_from(list@, trim(username@), 0)->Some_0;
                    lemma_position_in_range(list@, trim(username@), 0);
                    assert(list@[i].points == list@.map_values(|e: crate::leaderboard::LeaderboardEntry| e@)[i].points);
                }
                Some((p, list[p - 1].points))
            },
            None => None,
        }
    }
}

/// The first position, from `i` on, of a board row whose user matches
/// `name` ignoring ASCII case.
pub open spec fn position_from_view_at(board: Seq<EntryView>, name: Seq<char>, i: int) -> Option<int>
    decreases board.len() - i,
{
    if i < 0 || i >= board.len() {
        None
    } else if crate::text::eq_ignore_ascii_case_seq(board[i].user, name) {
        Some(i)
    } else {
        position_from_view_at(board, name, i + 1)
    }
}

/// The first position of a board row whose user matches `name`.
pub open spec fn position_from_view(board: Seq<EntryView>, name: Seq<char>) -> Option<int> {
    position_from_view_at(board, name, 0)
}

proof fn lemma_position_view(list: Seq<crate::leaderboard::LeaderboardEntry>, name: Seq<char>, i: int)
    requires
        0 <= i,
    ensures
        position_from(list, name, i) == position_from_view_at(
            list.map_values(|e: crate::leaderboard::LeaderboardEntry| e@),
            name,
            i,
        ),
    decreases list.len() - i,
{
    if i < list.len() {
        lemma_position_view(list, name, i + 1);
    }
}

proof fn lemma_position_in_range(list: Seq<crate::leaderboard::LeaderboardEntry>, name: Seq<char>, i: int)
    requires
        0 <= i,
    ensures
        position_from(list, name, i) matches Some(p) ==> i <= p < list.len(),
    decreases list.len() - i,
{
    if i < list.len() {
        lemma_position_in_range(list, name, i + 1);
    }
}

/// A machine shows up with its user blood exactly when it is one of `ms`,
/// its user slot has a holder (not blank once trimmed) and that holder,
/// trimmed and lowercased, is `name`; likewise with its root blood and the
/// root holder. Every entry is one of these two kinds.
pub proof fn first_bloods_are_the_held_slots(ms: Seq<Machine>, name: Seq<char>)
    ensures
        forall|m: Machine|
            #[trigger] bloods_of(ms, name).contains((m, "user"@)) <==> ms.contains(m) && trim(
                m.first_user@,
            ).len() > 0 && lowercase_of(trim(m.first_user@)) == name,
        forall|m: Machine|
            #[trigger] bloods_of(ms, name).contains((m, "root"@)) <==> ms.contains(m) && trim(
                m.first_root@,
            ).len() > 0 && lowercase_of(trim(m.first_root@)) == name,
        forall|k: int|
            0 <= k < bloods_of(ms, name).len() ==> (#[trigger] bloods_of(ms, name)[k]).1 == "user"@
                || bloods_of(ms, name)[k].1 == "root"@,
    decreases ms.len(),
{
    reveal_strlit("user");
    reveal_strlit("root");
    assert("user"@ != "root"@) by {
        assert("user"@[0] != "root"@[0]);
    }
    if ms.len() > 0 {
        let rest = ms.drop_last();
        let m = ms.last();
        first_bloods_are_the_held_slots(rest, name);
        let b0 = bloods_of(rest, name);
        let pa: Seq<(Machine, Seq<char>)> = if held_by(m.first_user@, name) {
            seq![(m, "user"@)]
        } else {
            Seq::empty()
        };
        let pb: Seq<(Machine, Seq<char>)> = if held_by(m.first_root@, name) {
            seq![(m, "root"@)]
        } else {
            Seq::empty()
        };
        let r = bloods_of(ms, name);
        assert(r == b0 + pa + pb);
        assert forall|k: int| 0 <= k < r.len() implies (#[trigger] r[k]).1 == "user"@ || r[k].1
            == "root"@ by {
            if k < b0.len() {
                assert(r[k] == b0[k]);
            } else if k < b0.len() + pa.len() {
                assert(r[k] == pa[k - b0.len()]);
            } else {
                assert(r[k] == pb[k - b0.len() - pa.len()]);
            }
        }
        assert forall|x: Machine, kind: Seq<char>|
            #![trigger r.contains((x, kind))]
            (kind == "user"@ || kind == "root"@) implies (r.contains((x, kind)) <==> (
            b0.contains((x, kind)) || (x == m && (if kind == "user"@ {
                held_by(m.first_user@, name)
            } else {
                held_by(m.first_root@, name)
            })))) by {
            if r.contains((x, kind)) {
                let k = choose|k: int| 0 <= k < r.len() && r[k] == (x, kind);
                if k < b0.len() {
                    assert(b0[k] == r[k]);
                } else if k < b0.len() + pa.len() {
                    assert(r[k] == pa[k - b0.len()]);
                } else {
                    assert(r[k] == pb[k - b0.len() - pa.len()]);
                }
            }
            if b0.contains((x, kind)) {
                let k = choose|k: int| 0 <= k < b0.len() && b0[k] == (x, kind);
                assert(r[k] == b0[k]);
            } else if x == m && kind == "user"@ && held_by(m.first_user@, name) {
                assert(r[b0.len() as int] == (m, "user"@));
            } else if x == m && kind == "root"@ && held_by(m.first_root@, name) {
                assert(r[(b0.len() + pa.len()) as int] == (m, "root"@));
            }
        }
        assert forall|x: Machine| #[trigger] ms.contains(x) <==> rest.contains(x) || x == m by {
            if ms.contains(x) {
                let k = choose|k: int| 0 <= k < ms.len() && ms[k] == x;
                if k < rest.len() {
                    assert(rest[k] == ms[k]);
                }
            }
            if rest.contains(x) {
                let k = choose|k: int| 0 <= k < rest.len() && rest[k] == x;
                assert(ms[k] == rest[k]);
            }
            if x == m {
                assert(ms[ms.len() - 1] == m);
            }
        }
        assert forall|x: Machine| #[trigger] r.contains((x, "user"@)) <==> ms.contains(x) && trim(
            x.first_user@,
        ).len() > 0 && lowercase_of(trim(x.first_user@)) == name by {
            assert(b0.contains((x, "user"@)) <==> rest.contains(x) && trim(x.first_user@).len() > 0
                && lowercase_of(trim(x.first_user@)) == name);
        }
        assert forall|x: Machine| #[trigger] r.contains((x, "root"@)) <==> ms.contains(x) && trim(
            x.first_root@,
        ).len() > 0 && lowercase_of(trim(x.first_root@)) == name by {
            assert(b0.contains((x, "root"@)) <==> rest.contains(x) && trim(x.first_root@).len() > 0
                && lowercase_of(trim(x.first_root@)) == name);
        }
    }
}

/// What `leaderboard_position` reports is what `position_of` finds in the
/// rows `compute` builds: for rows that show the board of `ms` and `ws`
/// (as `compute`'s result does), the first row matching `name` is at the
/// same place on the board, with the same points.
pub proof fn position_is_found_in_the_computed_board(
    list: Seq<crate::leaderboard::LeaderboardEntry>,
    ms: Seq<Machine>,
    ws: Seq<(String, WriteupEntry)>,
    name: Seq<char>,
)
    requires
        list.map_values(|e: crate::leaderboard::LeaderboardEntry| e@) == leaderboard(ms, ws),
    ensures
        position_from(list, name, 0) == position_from_view(leaderboard(ms, ws), name),
        position_from(list, name, 0) matches Some(i) ==> 0 <= i < list.len() && list[i].points
            == leaderboard(ms, ws)[i].points,
{
    lemma_position_view(list, name, 0);
    lemma_position_in_range(list, name, 0);
    if let Some(i) = position_from(list, name, 0) {
        assert(list.map_values(|e: crate::leaderboard::LeaderboardEntry| e@)[i] == list[i]@);
    }
}

/// One line of an action result popup.
#[derive(Debug, Clone, Copy, PartialEq, Eq, Structural)]
pub enum ReportKind {
    Success,
    Failure,
    Info,
}

/// Shown after an action; persists until dismissed.
#[derive(Debug, Clone)]
pub struct ActionReport {
    pub title: String,
    pub entries: Vec<(ReportKind, String)>,
    pub changed: bool,
    pub status: String,
}

/// Community writeups of one machine, rendered as a table popup.
#[derive(Debug, Clone)]
pub struct WriteupsPopup {
    pub machine: String,
    pub entries: Vec<WriteupEntry>,
    pub selected: usize,
}

impl WriteupsPopup {
    /// Moves the selection by `delta` rows, clamped to the list.
    pub fn move_selection(&mut self, delta: isize)
        ensures
            final(self).entries == old(self).entries,
            final(self).machine == old(self).machine,
            final(self).selected as int == clamp_index(
                old(self).selected as int + delta as int,
                old(self).entries.len() as int,
            ),
    {
        let last: usize = if self.entries.len() == 0 {
            0
        } else {
            self.entries.len() - 1
        };
        let moved: usize = if delta < 0 {
            let back = (0 - (delta as i128)) as u128;
            if back > self.selected as u128 {
                0
            } else {
                self.selected - back as usize
            }
        } else {
            let fwd = delta as u128;
            if self.selected as u128 + fwd > usize::MAX as u128 {
                usize::MAX
            } else {
                self.selected + delta as usize
            }
        };
        self.selected = if moved < last {
            moved
        } else {
            last
        };
    }

    /// The URL of the selected writeup, if the selection is on one.
    pub fn selected_url(&self) -> (r: Option<&str>)
        ensures
            match r {
                Some(u) => self.selected < self.entries.len() && u@
                    == self.entries@[self.selected as int].url@,
                None => self.selected >= self.entries.len(),
            },
    {
        if self.selected < self.entries.len() {
            Some(self.entries[self.selected].url.as_str())
        } else {
            None
        }
    }
}

/// `selected.saturating_add_signed(delta).min(last)` with `last` the last
/// index of a list of `len` rows (0 when empty).
pub open spec fn clamp_index(target: int, len: int) -> int {
    let moved = if target < 0 {
        0
    } else if target > usize::MAX {
        usize::MAX as int
    } else {
        target
    };
    let last = if len == 0 {
        0
    } else {
        len - 1
    };
    if moved < last {
        moved
    } else {
        last
    }
}

#[derive(Debug, Clone, Copy, PartialEq, Eq, Structural)]
pub enum Tab {
    Machines,
    Progress,
}

impl Tab {
    /// The tab's title.
    pub open spec fn title_text(self) -> Seq<char> {
        match self {
            Tab::Machines => "Machines"@,
            Tab::Progress => "Progress"@,
        }
    }

    /// The tab after this one (the two tabs alternate).
    pub open spec fn following(self) -> Tab {
        match self {
            Tab::Machines => Tab::Progress,
            Tab::Progress => Tab::Machines,
        }
    }

    pub fn title(self) -> (r: &'static str)
        ensures
            r@ == self.title_text(),
    {
        match self {
            Tab::Machines => "Machines",
            Tab::Progress => "Progress",
        }
    }

    fn next(self) -> (r: Self)
        ensures
            r == self.following(),
    {
        match self {
            Tab::Machines => Tab::Progress,
            Tab::Progress => Tab::Machines,
        }
    }

    fn previous(self) -> (r: Self)
        ensures
            r.following() == self,
    {
        match self {
            Tab::Machines => Tab::Progress,
            Tab::Progress => Tab::Machines,
        }
    }
}

/// Sort order of the Machines tab (cycles: site order, name, date,
/// difficulty).
#[derive(Debug, Clone, Copy, PartialEq, Eq, Structural, Default)]
pub enum MachineSort {
    #[default]
    Sitio,
    Nombre,
    Fecha,
    Dificultad,
}

impl MachineSort {
    /// The next order of the cycle.
    pub open spec fn following(self) -> MachineSort {
        match self {
            MachineSort::Sitio => MachineSort::Nombre,
            MachineSort::Nombre => MachineSort::Fecha,
            MachineSort::Fecha => MachineSort::Dificultad,
            MachineSort::Dificultad => MachineSort::Sitio,
        }
    }

    /// The title note naming the order.
    pub open spec fn indicator_text(self) -> Seq<char> {
        match self {
            MachineSort::Sitio => Seq::empty(),
            MachineSort::Nombre => " · sort: name"@,
            MachineSort::Fecha => " · sort: date"@,
            MachineSort::Dificultad => " · sort: difficulty"@,
        }
    }

    fn next(self) -> (r: Self)
        ensures
            r == self.following(),
    {
        match self {
            MachineSort::Sitio => MachineSort::Nombre,
            MachineSort::Nombre => MachineSort::Fecha,
            MachineSort::Fecha => MachineSort::Dificultad,
            MachineSort::Dificultad => MachineSort::Sitio,
        }
    }

    pub fn indicator(self) -> (r: &'static str)
        ensures
            r@ == self.indicator_text(),
    {
        match self {
            MachineSort::Sitio => {
                proof {
                    reveal_strlit("");
                }
                ""
            },
            MachineSort::Nombre => " · sort: name",
            MachineSort::Fecha => " · sort: date",
            MachineSort::Dificultad => " · sort: difficulty",
        }
    }
}

/// The two tabs alternate, and the sort orders cycle through all four.
pub proof fn tabs_alternate_and_sorts_cycle(tab: Tab, sort: MachineSort)
    ensures
        tab.following() != tab,
        tab.following().following() == tab,
        sort.following() != sort,
        sort.following().following() != sort,
        sort.following().following().following() != sort,
        sort.following().following().following().following() == sort,
{
}

#[derive(Debug, Clone, Copy, PartialEq, Eq, Structural)]
pub enum InputMode {
    Normal,
    Filter,
}

} // verus!
