//! The machine catalog (the public `/data/machines-index.json` feed) and
//! the keys the Machines tab sorts it by.
use vstd::prelude::*;

use crate::text::{
    chars_of, lowercase_of, str_eq, to_lowercase, trim, trim_bounds, trimmed,
};

verus! {

/// One machine of the catalog.
#[derive(Debug, Clone, Default)]
pub struct Machine {
    pub slug: String,
    pub name: String,
    pub creator: String,
    pub os: String,
    pub difficulty: String,
    pub release_date: String,
    pub platforms: Vec<String>,
    pub size: String,
    pub md5: String,
    pub download_url: String,
    pub first_user: String,
    pub first_root: String,
    pub tech_tags: Vec<String>,
    pub pts_user: u64,
    pub pts_root: u64,
}

/// A first-blood slot is open when the platform records no holder yet:
/// the holder's name is blank.
pub open spec fn slot_open(holder: Seq<char>) -> bool {
    trim(holder).len() == 0
}

impl Machine {
    /// No one holds the user first blood yet.
    pub fn user_slot_open(&self) -> (r: bool)
        ensures
            r == slot_open(self.first_user@),
    {
        trimmed(self.first_user.as_str()).as_str().is_empty()
    }

    /// No one holds the root first blood yet.
    pub fn root_slot_open(&self) -> (r: bool)
        ensures
            r == slot_open(self.first_root@),
    {
        trimmed(self.first_root.as_str()).as_str().is_empty()
    }

    /// Some first-blood slot is still open.
    pub fn any_slot_open(&self) -> (r: bool)
        ensures
            r == (slot_open(self.first_user@) || slot_open(self.first_root@)),
    {
        self.user_slot_open() || self.root_slot_open()
    }
}

/// `str::split(sep)`: the pieces between the separators (one piece, the
/// whole text, when there is none; empty pieces are kept).
pub open spec fn split_on(s: Seq<char>, sep: char) -> Seq<Seq<char>>
    decreases s.len(),
{
    if s.len() == 0 {
        seq![Seq::empty()]
    } else {
        let p = split_on(s.drop_last(), sep);
        if s.last() == sep {
            p.push(Seq::empty())
        } else {
            p.update(p.len() - 1, p.last().push(s.last()))
        }
    }
}

pub(crate) proof fn lemma_split_nonempty(s: Seq<char>, sep: char)
    ensures
        split_on(s, sep).len() >= 1,
    decreases s.len(),
{
    if s.len() > 0 {
        lemma_split_nonempty(s.drop_last(), sep);
    }
}

pub open spec fn is_ascii_digit(c: char) -> bool {
    '0' <= c <= '9'
}

/// The number written by the decimal digits `d`.
pub open spec fn digits_value(d: Seq<char>) -> int
    decreases d.len(),
{
    if d.len() == 0 {
        0
    } else {
        10 * digits_value(d.drop_last()) + (d.last() as int - '0' as int)
    }
}

/// `s` without a leading `+`.
pub open spec fn unsigned_digits(s: Seq<char>) -> Seq<char> {
    if s.len() > 0 && s[0] == '+' {
        s.drop_first()
    } else {
        s
    }
}

pub open spec fn all_digits(d: Seq<char>) -> bool {
    forall|i: int| 0 <= i < d.len() ==> is_ascii_digit(#[trigger] d[i])
}

/// `u32::from_str`: an optional `+`, then one or more ASCII digits whose
/// value fits in a `u32`.
pub open spec fn parse_u32(s: Seq<char>) -> Option<u32> {
    let d = unsigned_digits(s);
    if d.len() == 0 || !all_digits(d) {
        None
    } else if digits_value(d) > u32::MAX {
        None
    } else {
        Some(digits_value(d) as u32)
    }
}

/// The numbers among the trimmed `parts` (`filter_map(|p| p.trim().parse().ok())`).
pub open spec fn parsed_parts(parts: Seq<Seq<char>>) -> Seq<u32>
    decreases parts.len(),
{
    if parts.len() == 0 {
        Seq::empty()
    } else {
        parsed_parts(parts.drop_last()) + match parse_u32(trim(parts.last())) {
            Some(v) => seq![v],
            None => Seq::empty(),
        }
    }
}

/// "2025-01-22" as `(2025, 1, 22)`: exactly three numeric dash-separated
/// parts, or `(0, 0, 0)`, which sorts as the oldest possible date.
pub open spec fn release_key(date: Seq<char>) -> (u32, u32, u32) {
    let n = parsed_parts(split_on(date, '-'));
    if n.len() == 3 {
        (n[0], n[1], n[2])
    } else {
        (0, 0, 0)
    }
}

proof fn lemma_digits_bound(d: Seq<char>)
    requires
        forall|i: int| 0 <= i < d.len() ==> is_ascii_digit(#[trigger] d[i]),
    ensures
        digits_value(d) >= 0,
    decreases d.len(),
{
    if d.len() > 0 {
        lemma_digits_bound(d.drop_last());
    }
}

/// `u32::from_str` on `cs[from..to]`.
fn parse_u32_range(cs: &Vec<char>, from: usize, to: usize) -> (r: Option<u32>)
    requires
        from <= to <= cs.len(),
    ensures
        r == parse_u32(cs@.subrange(from as int, to as int)),
{
    let ghost s = cs@.subrange(from as int, to as int);
    let mut i = from;
    if i < to && cs[i] == '+' {
        i += 1;
    }
    let ghost d = cs@.subrange(i as int, to as int);
    proof {
        if s.len() > 0 && s[0] == '+' {
            assert(s.drop_first() == d);
        } else {
            assert(s == d);
        }
    }
    if i == to {
        return None;
    }
    let mut value: u64 = 0;
    let mut k = i;
    while k < to
        invariant
            i <= k <= to <= cs.len(),
            d == cs@.subrange(i as int, to as int),
            s == cs@.subrange(from as int, to as int),
            d.len() > 0,
            d == unsigned_digits(s),
            forall|j: int| 0 <= j < k - i ==> is_ascii_digit(#[trigger] d[j]),
            value as int == digits_value(d.take(k - i)),
            value <= u32::MAX,
        decreases to - k,
    {
        let c = cs[k];
        assert(d[k - i] == c);
        if !('0' <= c && c <= '9') {
            assert(!is_ascii_digit(d[k - i]));
            assert(!all_digits(d));
            return None;
        }
        assert(d.take(k - i + 1).drop_last() == d.take(k - i));
        let next = value * 10 + ((c as u32) - 48) as u64;
        if next > 4294967295 {
            proof {
                lemma_tail_digits_grow(d, k - i + 1);
            }
            return None;
        }
        value = next;
        k += 1;
    }
    assert(d.take(d.len() as int) == d);
    Some(value as u32)
}

proof fn lemma_digits_mono(d: Seq<char>, n: int, m: int)
    requires
        0 <= n <= m <= d.len(),
        forall|i: int| 0 <= i < d.len() ==> is_ascii_digit(#[trigger] d[i]),
    ensures
        digits_value(d.take(n)) <= digits_value(d.take(m)),
    decreases m - n,
{
    if n < m {
        lemma_digits_mono(d, n, m - 1);
        assert(d.take(m).drop_last() == d.take(m - 1));
        lemma_digits_bound(d.take(m - 1));
    }
}

/// Once a prefix of the digits exceeds `u32::MAX`, so does the whole
/// number, or a non-digit follows.
proof fn lemma_tail_digits_grow(d: Seq<char>, n: int)
    requires
        0 < n <= d.len(),
        digits_value(d.take(n)) > u32::MAX,
        forall|i: int| 0 <= i < n ==> is_ascii_digit(#[trigger] d[i]),
    ensures
        all_digits(d) ==> digits_value(d) > u32::MAX,
{
    if all_digits(d) {
        lemma_digits_mono(d, n, d.len() as int);
        assert(d.take(d.len() as int) == d);
    }
}

/// "2025-01-22" -> (2025, 1, 22) for chronological sorting; unparseable
/// dates sort as the oldest possible.
pub fn release_sort_key(date: &str) -> (r: (u32, u32, u32))
    ensures
        r == release_key(date@),
{
    let cs = chars_of(date);
    let mut nums: Vec<u32> = Vec::new();
    let mut start: usize = 0;
    let mut x: usize = 0;
    let ghost mut done: Seq<Seq<char>> = Seq::empty();
    assert(cs@.take(0) =~= Seq::<char>::empty());
    assert(cs@.subrange(0, 0) =~= Seq::<char>::empty());
    assert(split_on(cs@.take(0), '-') =~= done.push(cs@.subrange(0, 0)));
    while x < cs.len()
        invariant
            start <= x <= cs.len(),
            split_on(cs@.take(x as int), '-') == done.push(cs@.subrange(start as int, x as int)),
            nums@ == parsed_parts(done),
        decreases cs.len() - x,
    {
        assert(cs@.take(x + 1).drop_last() == cs@.take(x as int));
        assert(cs@.take(x + 1).last() == cs@[x as int]);
        if cs[x] == '-' {
            let (a, b) = trim_bounds(&cs, start, x);
            let parsed = parse_u32_range(&cs, a, b);
            proof {
                let part = cs@.subrange(start as int, x as int);
                let nd = done.push(part);
                assert(nd.drop_last() == done);
                assert(nd.last() == part);
            }
            if let Some(v) = parsed {
                nums.push(v);
            }
            proof {
                done = done.push(cs@.subrange(start as int, x as int));
                assert(cs@.subrange(x + 1, x + 1) =~= Seq::<char>::empty());
            }
            start = x + 1;
        } else {
            proof {
                assert(cs@.subrange(start as int, x + 1) == cs@.subrange(start as int, x as int).push(
                    cs@[x as int],
                ));
                assert(done.push(cs@.subrange(start as int, x as int)).update(
                    done.len() as int,
                    cs@.subrange(start as int, x + 1),
                ) =~= done.push(cs@.subrange(start as int, x + 1)));
            }
        }
        x += 1;
    }
    let (a, b) = trim_bounds(&cs, start, cs.len());
    let parsed = parse_u32_range(&cs, a, b);
    proof {
        let part = cs@.subrange(start as int, cs.len() as int);
        let nd = done.push(part);
        assert(nd.drop_last() == done);
        assert(cs@.take(cs.len() as int) == date@);
    }
    if let Some(v) = parsed {
        nums.push(v);
    }
    if nums.len() == 3 {
        (nums[0], nums[1], nums[2])
    } else {
        (0, 0, 0)
    }
}

/// The rank of a difficulty on the site's ladder (Low first), from its
/// trimmed, lowercased name; anything unknown comes last.
pub open spec fn difficulty_rank_of(difficulty: Seq<char>) -> u8 {
    let k = lowercase_of(trim(difficulty));
    if k == "low"@ {
        0
    } else if k == "easy"@ {
        1
    } else if k == "medium"@ {
        2
    } else if k == "hard"@ {
        3
    } else {
        4
    }
}

/// Difficulty rank for sorting (Low first, matching the site's ladder).
pub fn difficulty_rank(difficulty: &str) -> (r: u8)
    ensures
        r == difficulty_rank_of(difficulty@),
{
    let t = trimmed(difficulty);
    let k = to_lowercase(t.as_str());
    if str_eq(k.as_str(), "low") {
        0
    } else if str_eq(k.as_str(), "easy") {
        1
    } else if str_eq(k.as_str(), "medium") {
        2
    } else if str_eq(k.as_str(), "hard") {
        3
    } else {
        4
    }
}

} // verus!
