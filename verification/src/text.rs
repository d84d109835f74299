//! Character-level text helpers shared by the dashboard logic: trimming,
//! case folding, searching and decimal formatting, each with the meaning
//! that std gives the operation of the same name.
use vstd::prelude::*;

verus! {

/// Appending one character to a `String` adds it at the end.
pub assume_specification[ String::push ](s: &mut String, ch: char)
    ensures
        final(s)@ == old(s)@.push(ch),
;

/// Removing the last character of a `String` returns it, if any.
pub assume_specification[ String::pop ](s: &mut String) -> (r: Option<char>)
    ensures
        old(s)@.len() == 0 ==> r is None && final(s)@ == old(s)@,
        old(s)@.len() > 0 ==> r == Some(old(s)@.last()) && final(s)@ == old(s)@.drop_last(),
;

/// Clearing a `String` leaves it empty.
pub assume_specification[ String::clear ](s: &mut String)
    ensures
        final(s)@ == Seq::<char>::empty(),
;

/// What `str::to_lowercase` returns for a string: the Unicode lowercase
/// mapping of every character, concatenated.
pub uninterp spec fn lowercase_of(s: Seq<char>) -> Seq<char>;

/// Every character of `s` is ASCII.
pub open spec fn all_ascii(s: Seq<char>) -> bool {
    forall|i: int| 0 <= i < s.len() ==> (#[trigger] s[i] as u32) < 128
}

/// `str::to_lowercase`: the contract names the result by the input alone,
/// and on ASCII text, where the Unicode lowercase mapping only takes `A`-`Z`
/// to `a`-`z`, says what it is.
#[verifier::external_body]
pub fn to_lowercase(s: &str) -> (r: String)
    ensures
        r@ == lowercase_of(s@),
        all_ascii(s@) ==> r@ == s@.map_values(|c: char| ascii_lower(c)),
{
    s.to_lowercase()
}

/// Unicode `White_Space`, the set `char::is_whitespace` and `str::trim` use.
pub open spec fn is_white_space(c: char) -> bool {
    let u = c as u32;
    ||| 0x09 <= u <= 0x0D
    ||| u == 0x20
    ||| u == 0x85
    ||| u == 0xA0
    ||| u == 0x1680
    ||| 0x2000 <= u <= 0x200A
    ||| u == 0x2028
    ||| u == 0x2029
    ||| u == 0x202F
    ||| u == 0x205F
    ||| u == 0x3000
}

pub fn white_space(c: char) -> (r: bool)
    ensures
        r == is_white_space(c),
{
    let u = c as u32;
    (0x09 <= u && u <= 0x0D) || u == 0x20 || u == 0x85 || u == 0xA0 || u == 0x1680 || (0x2000
        <= u && u <= 0x200A) || u == 0x2028 || u == 0x2029 || u == 0x202F || u == 0x205F || u
        == 0x3000
}

/// `s` without its leading white space.
pub open spec fn trim_start(s: Seq<char>) -> Seq<char>
    decreases s.len(),
{
    if s.len() > 0 && is_white_space(s[0]) {
        trim_start(s.drop_first())
    } else {
        s
    }
}

/// `s` without its trailing white space.
pub open spec fn trim_end(s: Seq<char>) -> Seq<char>
    decreases s.len(),
{
    if s.len() > 0 && is_white_space(s.last()) {
        trim_end(s.drop_last())
    } else {
        s
    }
}

/// `str::trim`: leading and trailing white space removed.
pub open spec fn trim(s: Seq<char>) -> Seq<char> {
    trim_end(trim_start(s))
}

proof fn lemma_trim_start_skip(s: Seq<char>, i: int)
    requires
        0 <= i <= s.len(),
        forall|k: int| 0 <= k < i ==> is_white_space(#[trigger] s[k]),
    ensures
        trim_start(s) == trim_start(s.subrange(i, s.len() as int)),
    decreases i,
{
    if i > 0 {
        assert(s.drop_first().subrange(i - 1, s.drop_first().len() as int) == s.subrange(
            i,
            s.len() as int,
        ));
        lemma_trim_start_skip(s.drop_first(), i - 1);
    } else {
        assert(s.subrange(0, s.len() as int) == s);
    }
}

proof fn lemma_trim_end_cut(s: Seq<char>, j: int)
    requires
        0 <= j <= s.len(),
        forall|k: int| j <= k < s.len() ==> is_white_space(#[trigger] s[k]),
    ensures
        trim_end(s) == trim_end(s.subrange(0, j)),
    decreases s.len() - j,
{
    if j < s.len() {
        assert(s.drop_last().subrange(0, j) == s.subrange(0, j));
        lemma_trim_end_cut(s.drop_last(), j);
    } else {
        assert(s.subrange(0, j) == s);
    }
}

proof fn lemma_trim_start_shape(s: Seq<char>)
    ensures
        trim_start(s).len() == 0 || !is_white_space(trim_start(s)[0]),
    decreases s.len(),
{
    if s.len() > 0 && is_white_space(s[0]) {
        lemma_trim_start_shape(s.drop_first());
    }
}

proof fn lemma_trim_end_shape(s: Seq<char>)
    ensures
        trim_end(s).len() <= s.len(),
        trim_end(s) == s.subrange(0, trim_end(s).len() as int),
        trim_end(s).len() == 0 || !is_white_space(trim_end(s).last()),
    decreases s.len(),
{
    if s.len() > 0 && is_white_space(s.last()) {
        lemma_trim_end_shape(s.drop_last());
        let t = trim_end(s.drop_last());
        assert(s.drop_last().subrange(0, t.len() as int) == s.subrange(0, t.len() as int));
    } else {
        assert(s.subrange(0, s.len() as int) == s);
    }
}

/// Trimming twice is trimming once.
pub proof fn trim_is_idempotent(s: Seq<char>)
    ensures
        trim(trim(s)) == trim(s),
{
    let u = trim_start(s);
    let v = trim_end(u);
    lemma_trim_start_shape(s);
    lemma_trim_end_shape(u);
    if v.len() > 0 {
        assert(v[0] == u[0]);
    }
    assert(trim_start(v) == v);
    lemma_trim_end_shape(v);
    if v.len() > 0 {
        assert(!is_white_space(v.last()));
    }
    assert(trim_end(v) == v);
}

/// The characters of `s`, in order.
pub fn chars_of(s: &str) -> (r: Vec<char>)
    ensures
        r@ == s@,
{
    let mut out: Vec<char> = Vec::new();
    for c in it: s.chars()
        invariant
            out@ == it.seq().take(it.index() as int),
            it.seq() == s@,
    {
        out.push(c);
    }
    out
}

/// A `String` holding the characters `cs[from..to]`.
pub fn string_of_range(cs: &Vec<char>, from: usize, to: usize) -> (r: String)
    requires
        from <= to <= cs.len(),
    ensures
        r@ == cs@.subrange(from as int, to as int),
{
    let mut out = String::new();
    let mut i: usize = from;
    while i < to
        invariant
            from <= i <= to <= cs.len(),
            out@ == cs@.subrange(from as int, i as int),
        decreases to - i,
    {
        out.push(cs[i]);
        assert(cs@.subrange(from as int, i + 1) == cs@.subrange(from as int, i as int).push(
            cs@[i as int],
        ));
        i += 1;
    }
    out
}

/// A `String` holding the characters `cs`.
pub fn string_of(cs: &Vec<char>) -> (r: String)
    ensures
        r@ == cs@,
{
    let r = string_of_range(cs, 0, cs.len());
    assert(cs@.subrange(0, cs@.len() as int) == cs@);
    r
}

/// The bounds `(a, b)` of `trim(cs[from..to])` inside `cs`.
pub fn trim_bounds(cs: &Vec<char>, from: usize, to: usize) -> (r: (usize, usize))
    requires
        from <= to <= cs.len(),
    ensures
        from <= r.0 <= r.1 <= to,
        cs@.subrange(r.0 as int, r.1 as int) == trim(cs@.subrange(from as int, to as int)),
{
    let ghost part = cs@.subrange(from as int, to as int);
    let mut i: usize = from;
    while i < to && white_space(cs[i])
        invariant
            from <= i <= to <= cs.len(),
            part == cs@.subrange(from as int, to as int),
            forall|k: int| 0 <= k < i - from ==> is_white_space(#[trigger] part[k]),
        decreases to - i,
    {
        assert(part[i - from] == cs@[i as int]);
        i += 1;
    }
    proof {
        lemma_trim_start_skip(part, i - from);
        let rest = part.subrange(i - from, part.len() as int);
        assert(rest == cs@.subrange(i as int, to as int));
        if rest.len() > 0 {
            assert(rest[0] == cs@[i as int]);
        }
    }
    let ghost rest = cs@.subrange(i as int, to as int);
    let mut j: usize = to;
    while j > i && white_space(cs[j - 1])
        invariant
            from <= i <= j <= to <= cs.len(),
            rest == cs@.subrange(i as int, to as int),
            forall|k: int| j - i <= k < rest.len() ==> is_white_space(#[trigger] rest[k]),
        decreases j,
    {
        assert(rest[j - 1 - i] == cs@[j - 1]);
        j -= 1;
    }
    proof {
        lemma_trim_end_cut(rest, j - i);
        let mid = rest.subrange(0, j - i);
        assert(mid == cs@.subrange(i as int, j as int));
        if mid.len() > 0 {
            assert(mid.last() == cs@[j - 1]);
        }
    }
    (i, j)
}

/// `s` with leading and trailing white space removed (`str::trim`).
pub fn trimmed(s: &str) -> (r: String)
    ensures
        r@ == trim(s@),
{
    let cs = chars_of(s);
    let (a, b) = trim_bounds(&cs, 0, cs.len());
    assert(cs@.subrange(0, cs@.len() as int) == s@);
    string_of_range(&cs, a, b)
}

/// `a == b` on strings.
pub fn str_eq(a: &str, b: &str) -> (r: bool)
    ensures
        r == (a@ == b@),
{
    let x = chars_of(a);
    let y = chars_of(b);
    if x.len() != y.len() {
        return false;
    }
    let mut i: usize = 0;
    while i < x.len()
        invariant
            i <= x.len() == y.len(),
            x@ == a@,
            y@ == b@,
            forall|k: int| 0 <= k < i ==> x@[k] == y@[k],
        decreases x.len() - i,
    {
        if x[i] != y[i] {
            return false;
        }
        i += 1;
    }
    assert(x@ =~= y@);
    true
}

/// `pre` is a prefix of `s`.
pub open spec fn has_prefix(s: Seq<char>, pre: Seq<char>) -> bool {
    pre.len() <= s.len() && s.subrange(0, pre.len() as int) == pre
}

/// `str::starts_with` with a string pattern.
pub fn starts_with(s: &str, pre: &str) -> (r: bool)
    ensures
        r == has_prefix(s@, pre@),
{
    let x = chars_of(s);
    let p = chars_of(pre);
    if p.len() > x.len() {
        return false;
    }
    let mut i: usize = 0;
    while i < p.len()
        invariant
            i <= p.len() <= x.len(),
            x@ == s@,
            p@ == pre@,
            forall|k: int| 0 <= k < i ==> x@[k] == p@[k],
        decreases p.len() - i,
    {
        if x[i] != p[i] {
            assert(s@.subrange(0, pre@.len() as int)[i as int] != pre@[i as int]);
            return false;
        }
        i += 1;
    }
    assert(s@.subrange(0, pre@.len() as int) =~= pre@);
    true
}

/// `needle` occurs in `s` starting at position `at`.
pub open spec fn occurs_at(s: Seq<char>, needle: Seq<char>, at: int) -> bool {
    0 <= at && at + needle.len() <= s.len() && s.subrange(at, at + needle.len()) == needle
}

/// `str::contains` with a string pattern: `needle` occurs somewhere in `s`
/// (the empty pattern occurs everywhere).
pub open spec fn contains_seq(s: Seq<char>, needle: Seq<char>) -> bool {
    exists|at: int| occurs_at(s, needle, at)
}

fn occurs_at_exec(x: &Vec<char>, n: &Vec<char>, at: usize) -> (r: bool)
    requires
        at + n.len() <= x.len(),
    ensures
        r == occurs_at(x@, n@, at as int),
{
    let mut i: usize = 0;
    while i < n.len()
        invariant
            i <= n.len(),
            at + n.len() <= x.len(),
            forall|k: int| 0 <= k < i ==> x@[at + k] == n@[k],
        decreases n.len() - i,
    {
        if x[at + i] != n[i] {
            assert(x@.subrange(at as int, at + n@.len())[i as int] != n@[i as int]);
            return false;
        }
        i += 1;
    }
    assert(x@.subrange(at as int, at + n@.len()) =~= n@);
    true
}

/// Whether `needle` occurs in `x`, on character vectors.
pub fn contains_chars(x: &Vec<char>, n: &Vec<char>) -> (r: bool)
    ensures
        r == contains_seq(x@, n@),
{
    if n.len() > x.len() {
        assert forall|at: int| !occurs_at(x@, n@, at) by {}
        return false;
    }
    let last = x.len() - n.len();
    let mut at: usize = 0;
    while at < last
        invariant
            n.len() <= x.len(),
            last == x.len() - n.len(),
            at <= last,
            forall|k: int| 0 <= k < at ==> !occurs_at(x@, n@, k),
        decreases last - at,
    {
        if occurs_at_exec(x, n, at) {
            return true;
        }
        at += 1;
    }
    if occurs_at_exec(x, n, last) {
        return true;
    }
    assert forall|k: int| !occurs_at(x@, n@, k) by {
        if 0 <= k < at {
        }
    }
    false
}

/// `str::contains` with a string pattern.
pub fn contains(s: &str, needle: &str) -> (r: bool)
    ensures
        r == contains_seq(s@, needle@),
{
    let x = chars_of(s);
    let n = chars_of(needle);
    contains_chars(&x, &n)
}

/// ASCII letters folded to lower case, every other character kept.
pub open spec fn ascii_lower(c: char) -> char {
    if 'A' <= c <= 'Z' {
        ((c as u32) + 32) as char
    } else {
        c
    }
}

pub fn ascii_lower_char(c: char) -> (r: char)
    ensures
        r == ascii_lower(c),
{
    if 'A' <= c && c <= 'Z' {
        ((c as u8) + 32) as char
    } else {
        c
    }
}

/// `str::eq_ignore_ascii_case`.
pub open spec fn eq_ignore_ascii_case_seq(a: Seq<char>, b: Seq<char>) -> bool {
    a.len() == b.len() && forall|k: int| 0 <= k < a.len() ==> ascii_lower(#[trigger] a[k])
        == ascii_lower(b[k])
}

pub fn eq_ignore_ascii_case(a: &str, b: &str) -> (r: bool)
    ensures
        r == eq_ignore_ascii_case_seq(a@, b@),
{
    let x = chars_of(a);
    let y = chars_of(b);
    if x.len() != y.len() {
        return false;
    }
    let mut i: usize = 0;
    while i < x.len()
        invariant
            i <= x.len() == y.len(),
            x@ == a@,
            y@ == b@,
            forall|k: int| 0 <= k < i ==> ascii_lower(#[trigger] x@[k]) == ascii_lower(y@[k]),
        decreases x.len() - i,
    {
        if ascii_lower_char(x[i]) != ascii_lower_char(y[i]) {
            return false;
        }
        i += 1;
    }
    true
}

/// The decimal digit character of `d < 10`.
pub open spec fn digit_char(d: nat) -> char {
    (('0' as u32) + d) as char
}

/// The decimal representation of `n`, as `format!("{n}")` writes it.
pub open spec fn decimal(n: nat) -> Seq<char>
    decreases n,
{
    if n < 10 {
        seq![digit_char(n)]
    } else {
        decimal(n / 10).push(digit_char(n % 10))
    }
}

/// Appends the decimal representation of `n` to `out`.
pub fn push_decimal(out: &mut String, n: u64)
    ensures
        final(out)@ == old(out)@ + decimal(n as nat),
    decreases n,
{
    if n >= 10 {
        push_decimal(out, n / 10);
    }
    let d = (n % 10) as u8;
    let c = (48u8 + d) as char;
    out.push(c);
    proof {
        if n >= 10 {
            assert(decimal(n as nat) == decimal((n / 10) as nat).push(digit_char((n % 10) as nat)));
        }
    }
    assert(final(out)@ =~= old(out)@ + decimal(n as nat));
}

/// `format!("{n}")`.
pub fn decimal_string(n: u64) -> (r: String)
    ensures
        r@ == decimal(n as nat),
{
    let mut out = String::new();
    push_decimal(&mut out, n);
    assert(out@ =~= decimal(n as nat));
    out
}

/// `a` followed by `b`.
pub fn concat(a: &str, b: &str) -> (r: String)
    ensures
        r@ == a@ + b@,
{
    let mut out = String::from_str(a);
    out.append(b);
    out
}

/// A fresh `String` with the characters of `s`.
pub fn owned(s: &str) -> (r: String)
    ensures
        r@ == s@,
{
    String::from_str(s)
}

} // verus!
