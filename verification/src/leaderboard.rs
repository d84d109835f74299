//! Leaderboard computation, following the site's own client-side rules:
//! first user blood +20 pts, first root blood +30, VM submission +25,
//! writeup published +15. Everything derives from the two public JSON
//! files.
use vstd::prelude::*;

use crate::machines::Machine;
use crate::order::{arrange, ints, keys_view, sorted_indices, stable_sort_indices, text_key, text_key_of};
use crate::text::{eq_ignore_ascii_case, eq_ignore_ascii_case_seq, lowercase_of, str_eq, to_lowercase, trim, trimmed};
use crate::writeups::WriteupEntry;

verus! {

/// One row of the leaderboard.
#[derive(Debug, Clone, Default, PartialEq)]
pub struct LeaderboardEntry {
    pub user: String,
    pub first_user: u64,
    pub first_root: u64,
    pub vms: u64,
    pub writeups: u64,
    pub points: u64,
}

/// The contents of a [`LeaderboardEntry`].
pub struct EntryView {
    pub user: Seq<char>,
    pub first_user: u64,
    pub first_root: u64,
    pub vms: u64,
    pub writeups: u64,
    pub points: u64,
}

impl View for LeaderboardEntry {
    type V = EntryView;

    open spec fn view(&self) -> EntryView {
        EntryView {
            user: self.user@,
            first_user: self.first_user,
            first_root: self.first_root,
            vms: self.vms,
            writeups: self.writeups,
            points: self.points,
        }
    }
}

pub const PTS_FIRST_USER: u64 = 20;

pub const PTS_FIRST_ROOT: u64 = 30;

pub const PTS_VM: u64 = 25;

pub const PTS_WRITEUP: u64 = 15;

/// What earns a user points.
#[derive(Debug, Clone, Copy, PartialEq, Eq, Structural)]
pub enum ScoreKind {
    Vm,
    FirstUser,
    FirstRoot,
    Writeup,
}

/// One credited name and what it earned.
pub type ScoreEvent = (Seq<char>, ScoreKind);

/// The credits of the machines, in order: creator, user blood, root blood.
pub open spec fn machine_events(ms: Seq<Machine>) -> Seq<ScoreEvent>
    decreases ms.len(),
{
    if ms.len() == 0 {
        Seq::empty()
    } else {
        let m = ms.last();
        machine_events(ms.drop_last()) + seq![
            (m.creator@, ScoreKind::Vm),
            (m.first_user@, ScoreKind::FirstUser),
            (m.first_root@, ScoreKind::FirstRoot),
        ]
    }
}

/// The credits of the writeups, in order: their authors.
pub open spec fn writeup_events(ws: Seq<(String, WriteupEntry)>) -> Seq<ScoreEvent>
    decreases ws.len(),
{
    if ws.len() == 0 {
        Seq::empty()
    } else {
        writeup_events(ws.drop_last()).push((ws.last().1.author@, ScoreKind::Writeup))
    }
}

/// Accounts hidden from the site's leaderboard.
pub open spec fn excluded_users() -> Seq<Seq<char>> {
    seq!["d4t4s3c"@]
}

/// The key a name is counted under: trimmed and lowercased.
pub open spec fn score_key(name: Seq<char>) -> Seq<char> {
    lowercase_of(trim(name))
}

/// A name earns points unless it is blank, a `--` or `-` placeholder, or an
/// excluded account.
pub open spec fn is_counted(name: Seq<char>) -> bool {
    let k = score_key(name);
    &&& k.len() != 0
    &&& k != "--"@
    &&& k != "-"@
    &&& !excluded_users().map_values(|u: Seq<char>| lowercase_of(u)).contains(k)
}

/// The points that a credit of kind `kind` is worth.
pub open spec fn kind_points(kind: ScoreKind) -> u64 {
    match kind {
        ScoreKind::Vm => PTS_VM,
        ScoreKind::FirstUser => PTS_FIRST_USER,
        ScoreKind::FirstRoot => PTS_FIRST_ROOT,
        ScoreKind::Writeup => PTS_WRITEUP,
    }
}

/// `e` credited once more with `kind`.
pub open spec fn credit(e: EntryView, kind: ScoreKind) -> EntryView {
    EntryView {
        user: e.user,
        first_user: if kind == ScoreKind::FirstUser {
            (e.first_user + 1) as u64
        } else {
            e.first_user
        },
        first_root: if kind == ScoreKind::FirstRoot {
            (e.first_root + 1) as u64
        } else {
            e.first_root
        },
        vms: if kind == ScoreKind::Vm {
            (e.vms + 1) as u64
        } else {
            e.vms
        },
        writeups: if kind == ScoreKind::Writeup {
            (e.writeups + 1) as u64
        } else {
            e.writeups
        },
        points: (e.points + kind_points(kind)) as u64,
    }
}

/// A fresh row for the (trimmed) name `user`.
pub open spec fn fresh_entry(user: Seq<char>) -> EntryView {
    EntryView { user, first_user: 0, first_root: 0, vms: 0, writeups: 0, points: 0 }
}

/// The index of the row counted under `key`, or -1.
pub open spec fn find_key(t: Seq<(Seq<char>, EntryView)>, key: Seq<char>) -> int
    decreases t.len(),
{
    if t.len() == 0 {
        -1
    } else if find_key(t.drop_last(), key) >= 0 {
        find_key(t.drop_last(), key)
    } else if t.last().0 == key {
        t.len() - 1
    } else {
        -1
    }
}

/// The rows after one more credit: the row of the name's key is credited,
/// or a row is opened for it (named by the trimmed name at its first
/// credit); uncounted names change nothing.
pub open spec fn score_step(t: Seq<(Seq<char>, EntryView)>, ev: ScoreEvent) -> Seq<(Seq<char>, EntryView)> {
    let (name, kind) = ev;
    if !is_counted(name) {
        t
    } else {
        let key = score_key(name);
        let i = find_key(t, key);
        if i >= 0 {
            t.update(i, (key, credit(t[i].1, kind)))
        } else {
            t.push((key, credit(fresh_entry(trim(name)), kind)))
        }
    }
}

/// The rows, keyed and in order of first credit, after the credits `evs`.
pub open spec fn tally(evs: Seq<ScoreEvent>) -> Seq<(Seq<char>, EntryView)>
    decreases evs.len(),
{
    if evs.len() == 0 {
        Seq::empty()
    } else {
        score_step(tally(evs.drop_last()), evs.last())
    }
}

/// The order of the board: more points first, then by name.
pub open spec fn rank_key(e: EntryView) -> Seq<u64> {
    seq![(u64::MAX - e.points) as u64] + text_key(e.user)
}

/// The leaderboard of the public data: every counted name's row, sorted
/// by points (descending), then by name.
pub open spec fn leaderboard(ms: Seq<Machine>, ws: Seq<(String, WriteupEntry)>) -> Seq<EntryView> {
    let rows = tally(machine_events(ms) + writeup_events(ws)).map_values(
        |p: (Seq<char>, EntryView)| p.1,
    );
    arrange(rows, sorted_indices(rows.map_values(|e: EntryView| rank_key(e))))
}

/// The keyed rows held by the builder.
pub open spec fn rows_view(v: Seq<(String, LeaderboardEntry)>) -> Seq<(Seq<char>, EntryView)> {
    v.map_values(|p: (String, LeaderboardEntry)| (p.0@, p.1@))
}

/// Every count of every row is at most `n` and its points at most `30 n`.
pub open spec fn bounded(v: Seq<(String, LeaderboardEntry)>, n: int) -> bool {
    forall|i: int|
        0 <= i < v.len() ==> {
            let e = #[trigger] v[i].1;
            &&& e.first_user <= n
            &&& e.first_root <= n
            &&& e.vms <= n
            &&& e.writeups <= n
            &&& e.points <= 30 * n
        }
}

proof fn lemma_find_key_found(t: Seq<(Seq<char>, EntryView)>, key: Seq<char>, j: int)
    requires
        0 <= j < t.len(),
        t[j].0 == key,
        forall|k: int| 0 <= k < j ==> #[trigger] t[k].0 != key,
    ensures
        find_key(t, key) == j,
    decreases t.len(),
{
    if j < t.len() - 1 {
        lemma_find_key_found(t.drop_last(), key, j);
    } else {
        lemma_find_key_absent(t.drop_last(), key);
    }
}

proof fn lemma_find_key_absent(t: Seq<(Seq<char>, EntryView)>, key: Seq<char>)
    requires
        forall|k: int| 0 <= k < t.len() ==> #[trigger] t[k].0 != key,
    ensures
        find_key(t, key) == -1,
    decreases t.len(),
{
    if t.len() > 0 {
        lemma_find_key_absent(t.drop_last(), key);
    }
}

/// Whether `key` is one of the excluded keys.
fn is_excluded(excluded: &Vec<String>, key: &str) -> (r: bool)
    ensures
        r == excluded@.map_values(|u: String| u@).contains(key@),
{
    let mut i: usize = 0;
    while i < excluded.len()
        invariant
            i <= excluded.len(),
            forall|k: int| 0 <= k < i ==> excluded@[k]@ != key@,
        decreases excluded.len() - i,
    {
        if str_eq(excluded[i].as_str(), key) {
            assert(excluded@.map_values(|u: String| u@)[i as int] == key@);
            return true;
        }
        i += 1;
    }
    proof {
        let ex = excluded@.map_values(|u: String| u@);
        if ex.contains(key@) {
            let k = choose|k: int| 0 <= k < ex.len() && #[trigger] ex[k] == key@;
            assert(excluded@[k]@ == key@);
        }
    }
    false
}

/// Credits `name` with `kind`: finds or opens the name's row, then
/// counts the credit and its points.
fn add_score(
    scores: &mut Vec<(String, LeaderboardEntry)>,
    excluded: &Vec<String>,
    name: &str,
    kind: ScoreKind,
    Ghost(n): Ghost<int>,
)
    requires
        excluded@.map_values(|u: String| u@) == excluded_users().map_values(
            |u: Seq<char>| lowercase_of(u),
        ),
        n >= 0,
        30 * (n + 1) <= u64::MAX,
        bounded(old(scores)@, n),
    ensures
        rows_view(final(scores)@) == score_step(rows_view(old(scores)@), (name@, kind)),
        bounded(final(scores)@, n + 1),
{
    let ghost t = rows_view(scores@);
    let t_name = trimmed(name);
    let key = to_lowercase(t_name.as_str());
    if key.as_str().is_empty() || str_eq(key.as_str(), "--") || str_eq(key.as_str(), "-") {
        return;
    }
    if is_excluded(excluded, key.as_str()) {
        return;
    }
    assert(is_counted(name@));
    let mut i: usize = 0;
    while i < scores.len()
        invariant
            i <= scores.len(),
            t == rows_view(scores@),
            n >= 0,
            30 * (n + 1) <= u64::MAX,
            bounded(scores@, n),
            key@ == score_key(name@),
            t == rows_view(old(scores)@),
            t_name@ == trim(name@),
            is_counted(name@),
            forall|k: int| 0 <= k < i ==> #[trigger] t[k].0 != key@,
        decreases scores.len() - i,
    {
        if str_eq(scores[i].0.as_str(), key.as_str()) {
            proof {
                lemma_find_key_found(t, key@, i as int);
            }
            let ghost before = scores@;
            let mut e = LeaderboardEntry {
                user: scores[i].1.user.clone(),
                first_user: scores[i].1.first_user,
                first_root: scores[i].1.first_root,
                vms: scores[i].1.vms,
                writeups: scores[i].1.writeups,
                points: scores[i].1.points,
            };
            assert(before[i as int].1.first_user <= n);
            assert(before[i as int].1.points <= 30 * n);
            match kind {
                ScoreKind::Vm => {
                    e.vms = e.vms + 1;
                    e.points = e.points + PTS_VM;
                },
                ScoreKind::FirstUser => {
                    e.first_user = e.first_user + 1;
                    e.points = e.points + PTS_FIRST_USER;
                },
                ScoreKind::FirstRoot => {
                    e.first_root = e.first_root + 1;
                    e.points = e.points + PTS_FIRST_ROOT;
                },
                ScoreKind::Writeup => {
                    e.writeups = e.writeups + 1;
                    e.points = e.points + PTS_WRITEUP;
                },
            }
            scores.set(i, (key, e));
            proof {
                assert(rows_view(scores@) =~= t.update(i as int, (key@, credit(t[i as int].1, kind))));
                assert forall|k: int| 0 <= k < scores@.len() implies {
                    let e = #[trigger] scores@[k].1;
                    &&& e.first_user <= n + 1
                    &&& e.first_root <= n + 1
                    &&& e.vms <= n + 1
                    &&& e.writeups <= n + 1
                    &&& e.points <= 30 * (n + 1)
                } by {
                    if k != i {
                        assert(scores@[k] == before[k]);
                    }
                }
            }
            return;
        }
        i += 1;
    }
    proof {
        lemma_find_key_absent(t, key@);
    }
    let mut e = LeaderboardEntry {
        user: t_name,
        first_user: 0,
        first_root: 0,
        vms: 0,
        writeups: 0,
        points: 0,
    };
    match kind {
        ScoreKind::Vm => {
            e.vms = 1;
            e.points = PTS_VM;
        },
        ScoreKind::FirstUser => {
            e.first_user = 1;
            e.points = PTS_FIRST_USER;
        },
        ScoreKind::FirstRoot => {
            e.first_root = 1;
            e.points = PTS_FIRST_ROOT;
        },
        ScoreKind::Writeup => {
            e.writeups = 1;
            e.points = PTS_WRITEUP;
        },
    }
    let ghost before = scores@;
    scores.push((key, e));
    proof {
        assert(rows_view(scores@) =~= t.push((key@, credit(fresh_entry(trim(name@)), kind))));
        assert forall|k: int| 0 <= k < scores@.len() implies {
            let e = #[trigger] scores@[k].1;
            &&& e.first_user <= n + 1
            &&& e.first_root <= n + 1
            &&& e.vms <= n + 1
            &&& e.writeups <= n + 1
            &&& e.points <= 30 * (n + 1)
        } by {
            if k < before.len() {
                assert(scores@[k] == before[k]);
            }
        }
    }
}

proof fn lemma_tally_append(a: Seq<ScoreEvent>, b: Seq<ScoreEvent>)
    ensures
        b.len() == 1 ==> tally(a + b) == score_step(tally(a), b[0]),
{
    if b.len() == 1 {
        assert((a + b).drop_last() == a);
        assert((a + b).last() == b[0]);
    }
}

/// Builds the full leaderboard from the public data, sorted by points
/// (descending), matching the site's default view.
pub fn compute(machines: &[Machine], writeups: &[(String, WriteupEntry)]) -> (r: Vec<LeaderboardEntry>)
    requires
        30 * (3 * machines@.len() + writeups@.len()) <= u64::MAX,
    ensures
        r@.map_values(|e: LeaderboardEntry| e@) == leaderboard(machines@, writeups@),
{
    let mut excluded: Vec<String> = Vec::new();
    excluded.push(to_lowercase("d4t4s3c"));
    assert(excluded@.map_values(|u: String| u@) =~= excluded_users().map_values(
        |u: Seq<char>| lowercase_of(u),
    ));
    let mut scores: Vec<(String, LeaderboardEntry)> = Vec::new();
    let mut i: usize = 0;
    while i < machines.len()
        invariant
            i <= machines.len(),
            30 * (3 * machines@.len() + writeups@.len()) <= u64::MAX,
            excluded@.map_values(|u: String| u@) == excluded_users().map_values(
                |u: Seq<char>| lowercase_of(u),
            ),
            bounded(scores@, 3 * i),
            rows_view(scores@) == tally(machine_events(machines@.take(i as int))),
        decreases machines.len() - i,
    {
        let m = &machines[i];
        let ghost base = machine_events(machines@.take(i as int));
        proof {
            assert(machines@.take(i + 1).drop_last() == machines@.take(i as int));
            assert(machines@.take(i + 1).last() == *m);
        }
        let ghost e1 = (m.creator@, ScoreKind::Vm);
        let ghost e2 = (m.first_user@, ScoreKind::FirstUser);
        let ghost e3 = (m.first_root@, ScoreKind::FirstRoot);
        add_score(&mut scores, &excluded, m.creator.as_str(), ScoreKind::Vm, Ghost(3 * i as int));
        add_score(&mut scores, &excluded, m.first_user.as_str(), ScoreKind::FirstUser, Ghost(3 * i + 1));
        add_score(&mut scores, &excluded, m.first_root.as_str(), ScoreKind::FirstRoot, Ghost(3 * i + 2));
        proof {
            lemma_tally_append(base, seq![e1]);
            lemma_tally_append(base + seq![e1], seq![e2]);
            lemma_tally_append(base + seq![e1] + seq![e2], seq![e3]);
            assert(base + seq![e1] + seq![e2] + seq![e3] =~= base + seq![e1, e2, e3]);
        }
        i += 1;
    }
    assert(machines@.take(machines.len() as int) == machines@);
    let ghost mev = machine_events(machines@);
    let mut j: usize = 0;
    while j < writeups.len()
        invariant
            j <= writeups.len(),
            30 * (3 * machines@.len() + writeups@.len()) <= u64::MAX,
            excluded@.map_values(|u: String| u@) == excluded_users().map_values(
                |u: Seq<char>| lowercase_of(u),
            ),
            mev == machine_events(machines@),
            bounded(scores@, 3 * machines.len() + j),
            rows_view(scores@) == tally(mev + writeup_events(writeups@.take(j as int))),
        decreases writeups.len() - j,
    {
        let ghost base = mev + writeup_events(writeups@.take(j as int));
        proof {
            assert(writeups@.take(j + 1).drop_last() == writeups@.take(j as int));
            assert(writeups@.take(j + 1).last() == writeups@[j as int]);
        }
        add_score(
            &mut scores,
            &excluded,
            writeups[j].1.author.as_str(),
            ScoreKind::Writeup,
            Ghost(3 * machines.len() + j),
        );
        proof {
            let ev = (writeups@[j as int].1.author@, ScoreKind::Writeup);
            lemma_tally_append(base, seq![ev]);
            assert(mev + writeup_events(writeups@.take(j + 1)) =~= base + seq![ev]);
        }
        j += 1;
    }
    assert(writeups@.take(writeups.len() as int) == writeups@);
    let ghost rows = tally(mev + writeup_events(writeups@)).map_values(
        |p: (Seq<char>, EntryView)| p.1,
    );
    assert(rows =~= scores@.map_values(|p: (String, LeaderboardEntry)| p.1@));
    let mut keys: Vec<Vec<u64>> = Vec::new();
    let mut k: usize = 0;
    while k < scores.len()
        invariant
            k <= scores.len(),
            rows == scores@.map_values(|p: (String, LeaderboardEntry)| p.1@),
            keys_view(keys@) == rows.take(k as int).map_values(|e: EntryView| rank_key(e)),
        decreases scores.len() - k,
    {
        let mut key: Vec<u64> = Vec::new();
        key.push(u64::MAX - scores[k].1.points);
        let name_key = text_key_of(scores[k].1.user.as_str());
        let mut c: usize = 0;
        while c < name_key.len()
            invariant
                c <= name_key.len(),
                key@ == seq![(u64::MAX - scores@[k as int].1.points) as u64] + name_key@.take(c as int),
            decreases name_key.len() - c,
        {
            key.push(name_key[c]);
            assert(name_key@.take(c + 1) == name_key@.take(c as int).push(name_key@[c as int]));
            c += 1;
        }
        assert(name_key@.take(name_key.len() as int) == name_key@);
        let ghost prev = keys@;
        keys.push(key);
        proof {
            assert(rows[k as int] == scores@[k as int].1@);
            assert(keys_view(keys@) =~= keys_view(prev).push(rank_key(rows[k as int])));
            assert(rows.take(k + 1).map_values(|e: EntryView| rank_key(e)) =~= rows.take(
                k as int,
            ).map_values(|e: EntryView| rank_key(e)).push(rank_key(rows[k as int])));
        }
        k += 1;
    }
    assert(rows.take(scores.len() as int) == rows);
    let order = stable_sort_indices(&keys);
    let mut out: Vec<LeaderboardEntry> = Vec::new();
    let mut p: usize = 0;
    while p < order.len()
        invariant
            p <= order.len() == keys.len() == scores.len(),
            rows == scores@.map_values(|p: (String, LeaderboardEntry)| p.1@),
            forall|q: int| 0 <= q < order.len() ==> #[trigger] order@[q] < keys.len(),
            out@.map_values(|e: LeaderboardEntry| e@) == arrange(rows, ints(order@).take(p as int)),
        decreases order.len() - p,
    {
        let q = order[p];
        let src = &scores[q].1;
        let e = LeaderboardEntry {
            user: src.user.clone(),
            first_user: src.first_user,
            first_root: src.first_root,
            vms: src.vms,
            writeups: src.writeups,
            points: src.points,
        };
        let ghost prev = out@;
        out.push(e);
        proof {
            assert(ints(order@).take(p + 1) == ints(order@).take(p as int).push(q as int));
            assert(out@.map_values(|e: LeaderboardEntry| e@) =~= prev.map_values(
                |e: LeaderboardEntry| e@,
            ).push(rows[q as int]));
            assert(arrange(rows, ints(order@).take(p + 1)) =~= arrange(
                rows,
                ints(order@).take(p as int),
            ).push(rows[q as int]));
        }
        p += 1;
    }
    assert(ints(order@).take(order.len() as int) == ints(order@));
    out
}

/// The first position, from `i` on, whose user matches `name` ignoring
/// ASCII case.
pub open spec fn position_from(list: Seq<LeaderboardEntry>, name: Seq<char>, i: int) -> Option<int>
    decreases list.len() - i,
{
    if i < 0 || i >= list.len() {
        None
    } else if eq_ignore_ascii_case_seq(list[i].user@, name) {
        Some(i)
    } else {
        position_from(list, name, i + 1)
    }
}

/// One-based position of `username` (trimmed, ASCII case ignored) in the
/// leaderboard, if present.
pub fn position_of(list: &[LeaderboardEntry], username: &str) -> (r: Option<usize>)
    ensures
        match position_from(list@, trim(username@), 0) {
            Some(i) => r == Some((i + 1) as usize),
            None => r is None,
        },
{
    let name = trimmed(username);
    let mut i: usize = 0;
    while i < list.len()
        invariant
            i <= list.len(),
            name@ == trim(username@),
            position_from(list@, name@, 0) == position_from(list@, name@, i as int),
        decreases list.len() - i,
    {
        if eq_ignore_ascii_case(list[i].user.as_str(), name.as_str()) {
            return Some(i + 1);
        }
        i += 1;
    }
    None
}

} // verus!

verus! {

/// A row's points are its credits at the site's rates.
pub open spec fn points_match_credits(e: EntryView) -> bool {
    e.points == PTS_FIRST_USER * e.first_user + PTS_FIRST_ROOT * e.first_root + PTS_VM * e.vms
        + PTS_WRITEUP * e.writeups
}

/// What holds of every row after `n` credits: its points match its
/// credits, no count passed `n`, and it belongs to a name that counts.
pub open spec fn row_sound(e: EntryView, n: int) -> bool {
    &&& points_match_credits(e)
    &&& e.first_user + e.first_root + e.vms + e.writeups <= n
    &&& exists|name: Seq<char>| is_counted(name) && e.user == #[trigger] trim(name)
}

proof fn lemma_find_key_range(t: Seq<(Seq<char>, EntryView)>, key: Seq<char>)
    ensures
        find_key(t, key) >= 0 ==> find_key(t, key) < t.len() && t[find_key(t, key)].0 == key,
        find_key(t, key) >= -1,
    decreases t.len(),
{
    if t.len() > 0 {
        lemma_find_key_range(t.drop_last(), key);
    }
}

proof fn lemma_tally_sound(evs: Seq<ScoreEvent>)
    requires
        30 * evs.len() <= u64::MAX,
    ensures
        forall|i: int| 0 <= i < tally(evs).len() ==> row_sound(#[trigger] tally(evs)[i].1, evs.len() as int),
    decreases evs.len(),
{
    if evs.len() > 0 {
        let prev = evs.drop_last();
        let t = tally(prev);
        let n = evs.len() as int;
        lemma_tally_sound(prev);
        let (name, kind) = evs.last();
        if is_counted(name) {
            let key = score_key(name);
            let i = find_key(t, key);
            lemma_find_key_range(t, key);
            if i >= 0 {
                let e = t[i].1;
                assert(row_sound(e, n - 1));
                let c = credit(e, kind);
                assert(e.points <= 30 * (n - 1)) by (nonlinear_arith)
                    requires
                        points_match_credits(e),
                        e.first_user + e.first_root + e.vms + e.writeups <= n - 1,
                        e.first_user >= 0,
                        e.first_root >= 0,
                        e.vms >= 0,
                        e.writeups >= 0,
                ;
                assert(row_sound(c, n));
                let u = t.update(i, (key, c));
                assert forall|k: int| 0 <= k < u.len() implies row_sound(#[trigger] u[k].1, n) by {
                    if k != i {
                        assert(row_sound(t[k].1, n - 1));
                    }
                }
            } else {
                let c = credit(fresh_entry(trim(name)), kind);
                assert(row_sound(c, n));
                let u = t.push((key, c));
                assert forall|k: int| 0 <= k < u.len() implies row_sound(#[trigger] u[k].1, n) by {
                    if k < t.len() {
                        assert(row_sound(t[k].1, n - 1));
                    }
                }
            }
        } else {
            assert forall|k: int| 0 <= k < t.len() implies row_sound(#[trigger] t[k].1, n) by {
                assert(row_sound(t[k].1, n - 1));
            }
        }
    }
}

proof fn lemma_event_counts(ms: Seq<Machine>, ws: Seq<(String, WriteupEntry)>)
    ensures
        machine_events(ms).len() == 3 * ms.len(),
        writeup_events(ws).len() == ws.len(),
    decreases ms.len() + ws.len(),
{
    if ms.len() > 0 {
        lemma_event_counts(ms.drop_last(), ws);
    } else if ws.len() > 0 {
        lemma_event_counts(ms, ws.drop_last());
    }
}

proof fn lemma_rank_key_le(a: EntryView, b: EntryView)
    requires
        crate::order::key_le(rank_key(a), rank_key(b)),
    ensures
        a.points >= b.points,
        a.points == b.points ==> crate::order::key_le(text_key(a.user), text_key(b.user)),
{
    let ka = rank_key(a);
    let kb = rank_key(b);
    assert(ka[0] == (u64::MAX - a.points) as u64);
    assert(kb[0] == (u64::MAX - b.points) as u64);
    assert(ka.drop_first() =~= text_key(a.user));
    assert(kb.drop_first() =~= text_key(b.user));
}

/// The board is ranked as on the site: more points first, and rows with
/// equal points in order of their names.
pub proof fn leaderboard_is_ranked(ms: Seq<Machine>, ws: Seq<(String, WriteupEntry)>)
    ensures
        forall|i: int, j: int|
            0 <= i < j < leaderboard(ms, ws).len() ==> (#[trigger] leaderboard(ms, ws)[i]).points
                >= (#[trigger] leaderboard(ms, ws)[j]).points && (leaderboard(ms, ws)[i].points
                == leaderboard(ms, ws)[j].points ==> crate::order::key_le(
                text_key(leaderboard(ms, ws)[i].user),
                text_key(leaderboard(ms, ws)[j].user),
            )),
{
    let rows = tally(machine_events(ms) + writeup_events(ws)).map_values(
        |p: (Seq<char>, EntryView)| p.1,
    );
    let rk = rows.map_values(|e: EntryView| rank_key(e));
    let s = sorted_indices(rk);
    crate::order::sorted_indices_sort_stably(rk);
    let board = leaderboard(ms, ws);
    assert(board == arrange(rows, s));
    assert forall|i: int, j: int| 0 <= i < j < board.len() implies (#[trigger] board[i]).points
        >= (#[trigger] board[j]).points && (board[i].points == board[j].points
        ==> crate::order::key_le(text_key(board[i].user), text_key(board[j].user))) by {
        assert(s.contains(s[i]));
        assert(s.contains(s[j]));
        assert(crate::order::key_le(rk[s[i]], rk[s[j]]));
        lemma_rank_key_le(rows[s[i]], rows[s[j]]);
    }
}

/// Every row of the board belongs to a name that counts (not blank, not a
/// placeholder, not an excluded account), and its points are its credits
/// at the site's rates. The bound keeps every count within `u64`.
pub proof fn leaderboard_rows_are_sound(ms: Seq<Machine>, ws: Seq<(String, WriteupEntry)>)
    requires
        30 * (3 * ms.len() + ws.len()) <= u64::MAX,
    ensures
        forall|i: int|
            0 <= i < leaderboard(ms, ws).len() ==> {
                &&& points_match_credits(#[trigger] leaderboard(ms, ws)[i])
                &&& exists|name: Seq<char>|
                    is_counted(name) && leaderboard(ms, ws)[i].user == #[trigger] trim(name)
            },
{
    let evs = machine_events(ms) + writeup_events(ws);
    lemma_event_counts(ms, ws);
    lemma_tally_sound(evs);
    let rows = tally(evs).map_values(|p: (Seq<char>, EntryView)| p.1);
    let rk = rows.map_values(|e: EntryView| rank_key(e));
    let s = sorted_indices(rk);
    crate::order::sorted_indices_sort_stably(rk);
    let board = leaderboard(ms, ws);
    assert forall|i: int| 0 <= i < board.len() implies {
        &&& points_match_credits(#[trigger] board[i])
        &&& exists|name: Seq<char>| is_counted(name) && board[i].user == #[trigger] trim(name)
    } by {
        assert(s.contains(s[i]));
        assert(row_sound(tally(evs)[s[i]].1, evs.len() as int));
    }
}

} // verus!

verus! {

/// Every row is filed under its name's key, and no key has two rows.
pub open spec fn keyed_once(t: Seq<(Seq<char>, EntryView)>) -> bool {
    &&& forall|i: int| 0 <= i < t.len() ==> (#[trigger] t[i]).0 == score_key(t[i].1.user)
    &&& forall|i: int, j: int| 0 <= i < j < t.len() ==> (#[trigger] t[i]).0 != (#[trigger] t[j]).0
}

proof fn lemma_find_key_none(t: Seq<(Seq<char>, EntryView)>, key: Seq<char>)
    ensures
        find_key(t, key) == -1 ==> forall|k: int| 0 <= k < t.len() ==> (#[trigger] t[k]).0 != key,
    decreases t.len(),
{
    if t.len() > 0 {
        lemma_find_key_none(t.drop_last(), key);
        if find_key(t, key) == -1 {
            assert forall|k: int| 0 <= k < t.len() implies (#[trigger] t[k]).0 != key by {
                if k < t.len() - 1 {
                    assert(t[k] == t.drop_last()[k]);
                }
            }
        }
    }
}

proof fn lemma_tally_keyed(evs: Seq<ScoreEvent>)
    ensures
        keyed_once(tally(evs)),
    decreases evs.len(),
{
    if evs.len() > 0 {
        let t = tally(evs.drop_last());
        lemma_tally_keyed(evs.drop_last());
        let (name, kind) = evs.last();
        if is_counted(name) {
            let key = score_key(name);
            let i = find_key(t, key);
            lemma_find_key_range(t, key);
            lemma_find_key_none(t, key);
            if i >= 0 {
                let u = t.update(i, (key, credit(t[i].1, kind)));
                assert forall|k: int| 0 <= k < u.len() implies (#[trigger] u[k]).0 == score_key(
                    u[k].1.user,
                ) by {
                    if k != i {
                        assert(u[k] == t[k]);
                    }
                }
                assert forall|a: int, b: int| 0 <= a < b < u.len() implies (#[trigger] u[a]).0 != (
                #[trigger] u[b]).0 by {
                    assert(u[a].0 == t[a].0 && u[b].0 == t[b].0);
                }
            } else {
                crate::text::trim_is_idempotent(name);
                let u = t.push((key, credit(fresh_entry(trim(name)), kind)));
                assert forall|k: int| 0 <= k < u.len() implies (#[trigger] u[k]).0 == score_key(
                    u[k].1.user,
                ) by {
                    if k < t.len() {
                        assert(u[k] == t[k]);
                    }
                }
                assert forall|a: int, b: int| 0 <= a < b < u.len() implies (#[trigger] u[a]).0 != (
                #[trigger] u[b]).0 by {
                    if b < t.len() {
                        assert(u[a] == t[a] && u[b] == t[b]);
                    } else {
                        assert(u[a] == t[a]);
                    }
                }
            }
        }
    }
}

/// No name has two rows: the names of the board differ even trimmed and
/// compared in lower case.
pub proof fn leaderboard_names_are_distinct(ms: Seq<Machine>, ws: Seq<(String, WriteupEntry)>)
    ensures
        forall|i: int, j: int|
            0 <= i < j < leaderboard(ms, ws).len() ==> score_key(
                (#[trigger] leaderboard(ms, ws)[i]).user,
            ) != score_key((#[trigger] leaderboard(ms, ws)[j]).user),
{
    let evs = machine_events(ms) + writeup_events(ws);
    let t = tally(evs);
    lemma_tally_keyed(evs);
    let rows = t.map_values(|p: (Seq<char>, EntryView)| p.1);
    let rk = rows.map_values(|e: EntryView| rank_key(e));
    let s = sorted_indices(rk);
    crate::order::sorted_indices_sort_stably(rk);
    let board = leaderboard(ms, ws);
    assert forall|i: int, j: int| 0 <= i < j < board.len() implies score_key(
        (#[trigger] board[i]).user,
    ) != score_key((#[trigger] board[j]).user) by {
        assert(s.contains(s[i]));
        assert(s.contains(s[j]));
        assert(s[i] != s[j]);
        assert(t[s[i]].0 == score_key(t[s[i]].1.user));
        assert(t[s[j]].0 == score_key(t[s[j]].1.user));
        if s[i] < s[j] {
            assert(t[s[i]].0 != t[s[j]].0);
        } else {
            assert(t[s[j]].0 != t[s[i]].0);
        }
    }
}

} // verus!

verus! {

/// Every credit of the public data, in the order it is counted.
pub open spec fn all_events(ms: Seq<Machine>, ws: Seq<(String, WriteupEntry)>) -> Seq<ScoreEvent> {
    machine_events(ms) + writeup_events(ws)
}

/// How many of the credits `evs` are of kind `kind` and go to a counted
/// name filed under `key`.
pub open spec fn credits_of(evs: Seq<ScoreEvent>, key: Seq<char>, kind: ScoreKind) -> nat
    decreases evs.len(),
{
    if evs.len() == 0 {
        0
    } else {
        let (name, k) = evs.last();
        credits_of(evs.drop_last(), key, kind) + if is_counted(name) && score_key(name) == key
            && k == kind {
            1nat
        } else {
            0nat
        }
    }
}

/// The number of credits of kind `kind` that row `e` shows.
pub open spec fn kind_count(e: EntryView, kind: ScoreKind) -> u64 {
    match kind {
        ScoreKind::Vm => e.vms,
        ScoreKind::FirstUser => e.first_user,
        ScoreKind::FirstRoot => e.first_root,
        ScoreKind::Writeup => e.writeups,
    }
}

/// Some row of `t` is filed under `key`.
pub open spec fn has_key(t: Seq<(Seq<char>, EntryView)>, key: Seq<char>) -> bool {
    exists|j: int| 0 <= j < t.len() && (#[trigger] t[j]).0 == key
}

proof fn lemma_credits_bounded(evs: Seq<ScoreEvent>, key: Seq<char>, kind: ScoreKind)
    ensures
        credits_of(evs, key, kind) <= evs.len(),
    decreases evs.len(),
{
    if evs.len() > 0 {
        lemma_credits_bounded(evs.drop_last(), key, kind);
    }
}

proof fn lemma_tally_counts(evs: Seq<ScoreEvent>)
    requires
        evs.len() < u64::MAX,
    ensures
        forall|i: int, kind: ScoreKind|
            0 <= i < tally(evs).len() ==> #[trigger] kind_count(tally(evs)[i].1, kind) == credits_of(
                evs,
                tally(evs)[i].0,
                kind,
            ),
        forall|key: Seq<char>, kind: ScoreKind|
            #[trigger] credits_of(evs, key, kind) > 0 ==> has_key(tally(evs), key),
        forall|k: int|
            0 <= k < evs.len() && is_counted(evs[k].0) ==> has_key(tally(evs), score_key(#[trigger] evs[k].0)),
    decreases evs.len(),
{
    if evs.len() > 0 {
        let prev = evs.drop_last();
        let t = tally(prev);
        let u = tally(evs);
        lemma_tally_counts(prev);
        lemma_tally_keyed(prev);
        let (name, ek) = evs.last();
        assert(u == score_step(t, (name, ek)));
        if !is_counted(name) {
            assert(u == t);
            assert forall|key2: Seq<char>, kind: ScoreKind| #[trigger]
                credits_of(evs, key2, kind) > 0 implies has_key(u, key2) by {
                assert(credits_of(evs, key2, kind) == credits_of(prev, key2, kind));
            }
            assert forall|k: int| 0 <= k < evs.len() && is_counted(evs[k].0) implies has_key(
                u,
                score_key(#[trigger] evs[k].0),
            ) by {
                assert(evs[k] == prev[k]);
            }
        } else {
            let key = score_key(name);
            let i = find_key(t, key);
            lemma_find_key_range(t, key);
            lemma_find_key_none(t, key);
            if i >= 0 {
                assert(u == t.update(i, (key, credit(t[i].1, ek))));
                assert forall|j: int| 0 <= j < u.len() implies (#[trigger] u[j]).0 == t[j].0 by {}
                assert forall|j: int, kind: ScoreKind| 0 <= j < u.len() implies #[trigger] kind_count(
                    u[j].1,
                    kind,
                ) == credits_of(evs, u[j].0, kind) by {
                    lemma_credits_bounded(prev, t[j].0, kind);
                    assert(kind_count(t[j].1, kind) == credits_of(prev, t[j].0, kind));
                    if j != i {
                        assert(t[j].0 != t[i].0) by {
                            if j < i {
                                assert(t[j].0 != t[i].0);
                            } else {
                                assert(t[i].0 != t[j].0);
                            }
                        }
                    }
                }
                assert forall|key2: Seq<char>, kind: ScoreKind| #[trigger]
                    credits_of(evs, key2, kind) > 0 implies has_key(u, key2) by {
                    if credits_of(prev, key2, kind) > 0 {
                        let j = choose|j: int| 0 <= j < t.len() && (#[trigger] t[j]).0 == key2;
                        assert(u[j].0 == key2);
                    } else {
                        assert(u[i].0 == key2);
                    }
                }
                assert forall|k: int| 0 <= k < evs.len() && is_counted(evs[k].0) implies has_key(
                    u,
                    score_key(#[trigger] evs[k].0),
                ) by {
                    if k < prev.len() {
                        assert(evs[k] == prev[k]);
                        let j = choose|j: int| 0 <= j < t.len() && (#[trigger] t[j]).0 == score_key(prev[k].0);
                        assert(u[j].0 == score_key(evs[k].0));
                    } else {
                        assert(u[i].0 == score_key(evs[k].0));
                    }
                }
            } else {
                let fresh = credit(fresh_entry(trim(name)), ek);
                assert(u == t.push((key, fresh)));
                assert forall|j: int, kind: ScoreKind| 0 <= j < u.len() implies #[trigger] kind_count(
                    u[j].1,
                    kind,
                ) == credits_of(evs, u[j].0, kind) by {
                    if j < t.len() {
                        assert(u[j] == t[j]);
                        assert(kind_count(t[j].1, kind) == credits_of(prev, t[j].0, kind));
                        assert(t[j].0 != key);
                    } else {
                        if credits_of(prev, key, kind) > 0 {
                            assert(has_key(t, key));
                            let w = choose|w: int| 0 <= w < t.len() && (#[trigger] t[w]).0 == key;
                            assert(t[w].0 != key);
                        }
                    }
                }
                assert forall|key2: Seq<char>, kind: ScoreKind| #[trigger]
                    credits_of(evs, key2, kind) > 0 implies has_key(u, key2) by {
                    if credits_of(prev, key2, kind) > 0 {
                        let j = choose|j: int| 0 <= j < t.len() && (#[trigger] t[j]).0 == key2;
                        assert(u[j] == t[j]);
                    } else {
                        assert(u[t.len() as int].0 == key2);
                    }
                }
                assert forall|k: int| 0 <= k < evs.len() && is_counted(evs[k].0) implies has_key(
                    u,
                    score_key(#[trigger] evs[k].0),
                ) by {
                    if k < prev.len() {
                        assert(evs[k] == prev[k]);
                        let j = choose|j: int| 0 <= j < t.len() && (#[trigger] t[j]).0 == score_key(prev[k].0);
                        assert(u[j] == t[j]);
                    } else {
                        assert(u[t.len() as int].0 == score_key(evs[k].0));
                    }
                }
            }
        }
    }
}

/// Every name that counts has a row on the board, and each count of a row
/// (machines made, user and root bloods, writeups) is the number of such
/// credits given to a counted name filed under the row's name. The bound
/// keeps every count within `u64`.
pub proof fn leaderboard_counts_every_credit(ms: Seq<Machine>, ws: Seq<(String, WriteupEntry)>)
    requires
        30 * (3 * ms.len() + ws.len()) <= u64::MAX,
    ensures
        forall|k: int|
            0 <= k < all_events(ms, ws).len() && is_counted(all_events(ms, ws)[k].0) ==> exists|i: int|
                0 <= i < leaderboard(ms, ws).len() && score_key((#[trigger] leaderboard(ms, ws)[i]).user)
                    == score_key(#[trigger] all_events(ms, ws)[k].0),
        forall|i: int, kind: ScoreKind|
            0 <= i < leaderboard(ms, ws).len() ==> #[trigger] kind_count(leaderboard(ms, ws)[i], kind)
                == credits_of(all_events(ms, ws), score_key(leaderboard(ms, ws)[i].user), kind),
{
    let evs = all_events(ms, ws);
    lemma_event_counts(ms, ws);
    lemma_tally_counts(evs);
    lemma_tally_keyed(evs);
    let t = tally(evs);
    let rows = t.map_values(|p: (Seq<char>, EntryView)| p.1);
    let rk = rows.map_values(|e: EntryView| rank_key(e));
    let s = sorted_indices(rk);
    crate::order::sorted_indices_sort_stably(rk);
    let board = leaderboard(ms, ws);
    assert(board == arrange(rows, s));
    assert forall|i: int, kind: ScoreKind| 0 <= i < board.len() implies #[trigger] kind_count(
        board[i],
        kind,
    ) == credits_of(evs, score_key(board[i].user), kind) by {
        assert(s.contains(s[i]));
        assert(board[i] == t[s[i]].1);
        assert(t[s[i]].0 == score_key(t[s[i]].1.user));
        assert(kind_count(t[s[i]].1, kind) == credits_of(evs, t[s[i]].0, kind));
    }
    assert forall|k: int| 0 <= k < evs.len() && is_counted(evs[k].0) implies exists|i: int|
        0 <= i < board.len() && score_key((#[trigger] board[i]).user) == score_key(
            #[trigger] evs[k].0,
        ) by {
        assert(has_key(t, score_key(evs[k].0)));
        let j = choose|j: int| 0 <= j < t.len() && (#[trigger] t[j]).0 == score_key(evs[k].0);
        assert(s.contains(j));
        let p = choose|p: int| 0 <= p < s.len() && s[p] == j;
        assert(board[p] == t[j].1);
        assert(t[j].0 == score_key(t[j].1.user));
    }
}

} // verus!
