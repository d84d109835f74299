//! Text layout for the dashboard's popups: greedy word wrapping and the
//! sizes and places of the boxes.
use vstd::prelude::*;

use super::{texts, ReportKind};
use crate::machines::split_on;
use crate::text::{chars_of, string_of, string_of_range};

verus! {

/// Lines of wrapped text so far, and the line being filled.
pub type WrapState = (Seq<Seq<char>>, Seq<char>);

/// Places the non-empty rest of a word: appended to the current line
/// (after a space) when it fits in `w` columns; otherwise, on an empty
/// line, its first `w` characters become a line of their own; otherwise
/// the current line is closed first.
pub open spec fn place(out: Seq<Seq<char>>, cur: Seq<char>, rest: Seq<char>, w: nat) -> WrapState
    decreases rest.len() * 2 + if cur.len() > 0 {
        1int
    } else {
        0int
    },
{
    let sep: nat = if cur.len() > 0 {
        1
    } else {
        0
    };
    if rest.len() == 0 || w == 0 {
        (out, cur)
    } else if cur.len() + sep + rest.len() <= w {
        (out, if sep == 1 {
            cur.push(' ') + rest
        } else {
            rest
        })
    } else if cur.len() == 0 {
        place(out.push(rest.take(w as int)), cur, rest.skip(w as int), w)
    } else {
        place(out.push(cur), Seq::empty(), rest, w)
    }
}

/// Adds one space-separated word: an empty word (from a run of spaces)
/// widens a started line by one space while it has room.
pub open spec fn wrap_word(st: WrapState, word: Seq<char>, w: nat) -> WrapState {
    if word.len() == 0 {
        if 0 < st.1.len() < w {
            (st.0, st.1.push(' '))
        } else {
            st
        }
    } else {
        place(st.0, st.1, word, w)
    }
}

/// The state after the words `words`, from no lines at all.
pub open spec fn wrap_words(words: Seq<Seq<char>>, w: nat) -> WrapState
    decreases words.len(),
{
    if words.len() == 0 {
        (Seq::empty(), Seq::empty())
    } else {
        wrap_word(wrap_words(words.drop_last(), w), words.last(), w)
    }
}

/// The columns a wrap uses: `width`, but at least one.
pub open spec fn columns(width: int) -> nat {
    if width >= 1 {
        width as nat
    } else {
        1
    }
}

/// `text` greedily wrapped to `width` columns (at least one): the words
/// between single spaces fill each line in turn, words longer than a line
/// are broken, and the last line is kept even when empty.
pub open spec fn wrapped(text: Seq<char>, width: int) -> Seq<Seq<char>> {
    let st = wrap_words(split_on(text, ' '), columns(width));
    st.0.push(st.1)
}

/// Every line, closed or current, fits in `w` columns.
pub open spec fn fits(out: Seq<Seq<char>>, cur: Seq<char>, w: nat) -> bool {
    &&& forall|i: int| 0 <= i < out.len() ==> (#[trigger] out[i]).len() <= w
    &&& cur.len() <= w
}

proof fn lemma_place_fits(out: Seq<Seq<char>>, cur: Seq<char>, rest: Seq<char>, w: nat)
    requires
        fits(out, cur, w),
    ensures
        fits(place(out, cur, rest, w).0, place(out, cur, rest, w).1, w),
    decreases rest.len() * 2 + if cur.len() > 0 {
        1int
    } else {
        0int
    },
{
    let sep: nat = if cur.len() > 0 {
        1
    } else {
        0
    };
    if rest.len() == 0 || w == 0 {
    } else if cur.len() + sep + rest.len() <= w {
    } else if cur.len() == 0 {
        let o2 = out.push(rest.take(w as int));
        assert forall|i: int| 0 <= i < o2.len() implies (#[trigger] o2[i]).len() <= w by {
            if i < out.len() {
                assert(o2[i] == out[i]);
            } else {
                assert(o2[i] == rest.take(w as int));
            }
        }
        lemma_place_fits(o2, cur, rest.skip(w as int), w);
    } else {
        let o2 = out.push(cur);
        assert forall|i: int| 0 <= i < o2.len() implies (#[trigger] o2[i]).len() <= w by {
            if i < out.len() {
                assert(o2[i] == out[i]);
            } else {
                assert(o2[i] == cur);
            }
        }
        lemma_place_fits(o2, Seq::empty(), rest, w);
    }
}

proof fn lemma_wrap_words_fit(words: Seq<Seq<char>>, w: nat)
    ensures
        fits(wrap_words(words, w).0, wrap_words(words, w).1, w),
    decreases words.len(),
{
    if words.len() > 0 {
        lemma_wrap_words_fit(words.drop_last(), w);
        let st = wrap_words(words.drop_last(), w);
        if words.last().len() > 0 {
            lemma_place_fits(st.0, st.1, words.last(), w);
        }
    }
}

/// No line of a wrapped text is wider than the wrap: `width` columns, or
/// one when `width` is zero.
pub proof fn wrapped_lines_fit(text: Seq<char>, width: int)
    ensures
        forall|i: int|
            0 <= i < wrapped(text, width).len() ==> (#[trigger] wrapped(text, width)[i]).len()
                <= columns(width),
{
    let w = columns(width);
    let st = wrap_words(split_on(text, ' '), w);
    lemma_wrap_words_fit(split_on(text, ' '), w);
    assert forall|i: int| 0 <= i < wrapped(text, width).len() implies (#[trigger] wrapped(
        text,
        width,
    )[i]).len() <= w by {
        if i < st.0.len() {
            assert(wrapped(text, width)[i] == st.0[i]);
        }
    }
}

/// Places `cs[from..to]` into the wrap state held in `out` and `cur`.
fn place_word(
    out: &mut Vec<String>,
    cur: &mut Vec<char>,
    cs: &Vec<char>,
    from: usize,
    to: usize,
    w: usize,
)
    requires
        from <= to <= cs.len(),
        w >= 1,
        old(cur).len() <= w,
    ensures
        (texts(final(out)@), final(cur)@) == place(
            texts(old(out)@),
            old(cur)@,
            cs@.subrange(from as int, to as int),
            w as nat,
        ),
        final(cur).len() <= w,
{
    let mut i = from;
    while i < to
        invariant
            from <= i <= to <= cs.len(),
            w >= 1,
            cur.len() <= w,
            place(texts(out@), cur@, cs@.subrange(i as int, to as int), w as nat) == place(
                texts(old(out)@),
                old(cur)@,
                cs@.subrange(from as int, to as int),
                w as nat,
            ),
        decreases (to - i) * 2 + if cur.len() > 0 {
            1int
        } else {
            0int
        },
    {
        let ghost rest = cs@.subrange(i as int, to as int);
        let rest_len = to - i;
        let sep: usize = if cur.len() > 0 {
            1
        } else {
            0
        };
        let used = cur.len();
        if (sep == 0 || used < w) && rest_len <= w - used - sep {
            if sep == 1 {
                cur.push(' ');
            }
            let ghost before = cur@;
            let mut k = i;
            while k < to
                invariant
                    i <= k <= to <= cs.len(),
                    cur@ == before + cs@.subrange(i as int, k as int),
                decreases to - k,
            {
                cur.push(cs[k]);
                assert(cs@.subrange(i as int, k + 1) == cs@.subrange(i as int, k as int).push(
                    cs@[k as int],
                ));
                k += 1;
            }
            assert(cs@.subrange(to as int, to as int) =~= Seq::<char>::empty());
            i = to;
        } else if cur.len() == 0 {
            let head = string_of_range(cs, i, i + w);
            let ghost before = out@;
            out.push(head);
            proof {
                assert(head@ =~= rest.take(w as int));
                assert(texts(out@) =~= texts(before).push(rest.take(w as int)));
                assert(cs@.subrange(i + w, to as int) =~= rest.skip(w as int));
            }
            i = i + w;
        } else {
            let line = string_of(cur);
            let ghost before = out@;
            out.push(line);
            cur.clear();
            proof {
                assert(texts(out@) =~= texts(before).push(line@));
                assert(cur@ =~= Seq::<char>::empty());
            }
        }
    }
    assert(cs@.subrange(i as int, to as int) =~= Seq::<char>::empty());
}

/// Adds the word `cs[from..to]` to the wrap state held in `out` and `cur`.
fn wrap_word_exec(
    out: &mut Vec<String>,
    cur: &mut Vec<char>,
    cs: &Vec<char>,
    from: usize,
    to: usize,
    w: usize,
)
    requires
        from <= to <= cs.len(),
        w >= 1,
        old(cur).len() <= w,
    ensures
        (texts(final(out)@), final(cur)@) == wrap_word(
            (texts(old(out)@), old(cur)@),
            cs@.subrange(from as int, to as int),
            w as nat,
        ),
        final(cur).len() <= w,
{
    if from == to {
        if cur.len() > 0 && cur.len() < w {
            cur.push(' ');
        }
    } else {
        place_word(out, cur, cs, from, to, w);
    }
}

/// Greedy word wrap of `text` to `width` columns (at least one). Words
/// are the pieces between single spaces; they fill each line in turn,
/// words longer than a line are broken at the width, and the last line is
/// always returned, so an empty text gives one empty line.
pub fn wrap_text(text: &str, width: usize) -> (r: Vec<String>)
    ensures
        texts(r@) == wrapped(text@, width as int),
{
    let w: usize = if width >= 1 {
        width
    } else {
        1
    };
    let cs = chars_of(text);
    let mut out: Vec<String> = Vec::new();
    let mut cur: Vec<char> = Vec::new();
    let mut start: usize = 0;
    let mut x: usize = 0;
    let ghost mut done: Seq<Seq<char>> = Seq::empty();
    assert(cs@.take(0) =~= Seq::<char>::empty());
    assert(cs@.subrange(0, 0) =~= Seq::<char>::empty());
    assert(split_on(cs@.take(0), ' ') =~= done.push(cs@.subrange(0, 0)));
    assert(texts(out@) =~= Seq::<Seq<char>>::empty());
    while x < cs.len()
        invariant
            start <= x <= cs.len(),
            w >= 1,
            w == columns(width as int),
            cur.len() <= w,
            split_on(cs@.take(x as int), ' ') == done.push(cs@.subrange(start as int, x as int)),
            (texts(out@), cur@) == wrap_words(done, w as nat),
        decreases cs.len() - x,
    {
        assert(cs@.take(x + 1).drop_last() == cs@.take(x as int));
        assert(cs@.take(x + 1).last() == cs@[x as int]);
        if cs[x] == ' ' {
            wrap_word_exec(&mut out, &mut cur, &cs, start, x, w);
            proof {
                let part = cs@.subrange(start as int, x as int);
                let nd = done.push(part);
                assert(nd.drop_last() == done);
                assert(nd.last() == part);
                done = nd;
                assert(cs@.subrange(x + 1, x + 1) =~= Seq::<char>::empty());
            }
            start = x + 1;
        } else {
            proof {
                assert(cs@.subrange(start as int, x + 1) == cs@.subrange(start as int, x as int).push(
                    cs@[x as int],
                ));
                assert(done.push(cs@.subrange(start as int, x as int)).update(
                    done.len() as int,
                    cs@.subrange(start as int, x + 1),
                ) =~= done.push(cs@.subrange(start as int, x + 1)));
            }
        }
        x += 1;
    }
    wrap_word_exec(&mut out, &mut cur, &cs, start, cs.len(), w);
    proof {
        let part = cs@.subrange(start as int, cs.len() as int);
        let nd = done.push(part);
        assert(nd.drop_last() == done);
        assert(nd.last() == part);
        assert(cs@.take(cs.len() as int) == text@);
    }
    let last = string_of(&cur);
    let ghost before = out@;
    out.push(last);
    assert(texts(out@) =~= texts(before).push(cur@));
    out
}

/// A rectangle of terminal cells. Terminal areas stay inside the `u16`
/// coordinate range: `x + width` and `y + height` fit in a `u16`.
#[derive(Debug, Clone, Copy, PartialEq, Eq, Structural)]
pub struct Rect {
    pub x: u16,
    pub y: u16,
    pub width: u16,
    pub height: u16,
}

/// The smaller of two integers.
pub open spec fn least(a: int, b: int) -> int {
    if a <= b {
        a
    } else {
        b
    }
}

/// A box of `width` by `height` cells centered in `area`, each side
/// clamped to the area's.
pub fn popup_area(area: Rect, width: u16, height: u16) -> (r: Rect)
    requires
        area.x + area.width <= u16::MAX,
        area.y + area.height <= u16::MAX,
    ensures
        r.width == least(width as int, area.width as int),
        r.height == least(height as int, area.height as int),
        r.x == area.x + (area.width - r.width) / 2,
        r.y == area.y + (area.height - r.height) / 2,
{
    let w = if width < area.width {
        width
    } else {
        area.width
    };
    let h = if height < area.height {
        height
    } else {
        area.height
    };
    Rect { x: area.x + (area.width - w) / 2, y: area.y + (area.height - h) / 2, width: w, height: h }
}

/// How many table rows fit in a panel `height` cells tall (two border
/// rows and a header row taken off).
pub fn visible_rows_in(height: u16) -> (r: usize)
    ensures
        r == if height >= 3 {
            height - 3
        } else {
            0
        },
{
    if height >= 3 {
        (height - 3) as usize
    } else {
        0
    }
}

/// The texts of a report's entries.
pub open spec fn entry_texts(entries: Seq<(ReportKind, String)>) -> Seq<Seq<char>> {
    entries.map_values(|e: (ReportKind, String)| e.1@)
}

/// The widest entry, counting its two-column indent (0 without entries).
pub open spec fn widest(ts: Seq<Seq<char>>) -> nat
    decreases ts.len(),
{
    if ts.len() == 0 {
        0
    } else {
        let w = widest(ts.drop_last());
        let l = 2 + ts.last().len();
        if w >= l {
            w
        } else {
            l
        }
    }
}

/// The inner width of the report box: the widest entry, but at least 42
/// and at most 76 columns.
pub open spec fn report_inner(ts: Seq<Seq<char>>) -> nat {
    let w = widest(ts);
    if w < 42 {
        42
    } else if w > 76 {
        76
    } else {
        w
    }
}

/// The rows of the report box's body: a blank line and a hint, and per
/// entry its text wrapped two columns narrower than `inner` plus a blank.
pub open spec fn report_lines(ts: Seq<Seq<char>>, inner: nat) -> nat
    decreases ts.len(),
{
    if ts.len() == 0 {
        2
    } else {
        report_lines(ts.drop_last(), inner) + wrapped(ts.last(), inner - 2).len() + 1
    }
}

proof fn lemma_report_lines_grow(ts: Seq<Seq<char>>, inner: nat, i: int)
    requires
        0 <= i <= ts.len(),
    ensures
        report_lines(ts.take(i), inner) <= report_lines(ts, inner),
    decreases ts.len() - i,
{
    if i < ts.len() {
        lemma_report_lines_grow(ts, inner, i + 1);
        assert(ts.take(i + 1).drop_last() == ts.take(i));
    } else {
        assert(ts.take(i) == ts);
    }
}

/// The inner width and the body rows of the report box for `entries`.
pub fn report_size(entries: &Vec<(ReportKind, String)>) -> (r: (usize, usize))
    requires
        report_lines(entry_texts(entries@), report_inner(entry_texts(entries@))) <= usize::MAX,
    ensures
        r.0 == report_inner(entry_texts(entries@)),
        r.1 == report_lines(entry_texts(entries@), r.0 as nat),
{
    let ghost ts = entry_texts(entries@);
    let mut capped: usize = 0;
    let mut i: usize = 0;
    while i < entries.len()
        invariant
            i <= entries.len(),
            ts == entry_texts(entries@),
            capped == least(widest(ts.take(i as int)) as int, 78),
        decreases entries.len() - i,
    {
        assert(ts.take(i + 1).drop_last() == ts.take(i as int));
        assert(ts.take(i + 1).last() == entries@[i as int].1@);
        let n = chars_of(entries[i].1.as_str()).len();
        let l: usize = if n <= 76 {
            2 + n
        } else {
            78
        };
        if l > capped {
            capped = l;
        }
        i += 1;
    }
    assert(ts.take(entries.len() as int) == ts);
    let inner: usize = if capped < 42 {
        42
    } else if capped > 76 {
        76
    } else {
        capped
    };
    let mut lines: usize = 2;
    let mut j: usize = 0;
    while j < entries.len()
        invariant
            j <= entries.len(),
            ts == entry_texts(entries@),
            inner == report_inner(ts),
            inner >= 42,
            lines == report_lines(ts.take(j as int), inner as nat),
            report_lines(ts, inner as nat) <= usize::MAX,
        decreases entries.len() - j,
    {
        assert(ts.take(j + 1).drop_last() == ts.take(j as int));
        assert(ts.take(j + 1).last() == entries@[j as int].1@);
        proof {
            lemma_report_lines_grow(ts, inner as nat, j + 1);
        }
        let k = wrap_text(entries[j].1.as_str(), inner - 2).len();
        lines = lines + k + 1;
        j += 1;
    }
    assert(ts.take(entries.len() as int) == ts);
    (inner, lines)
}

/// The size of the report box for `entries` in an area of `area` cells
/// (columns, rows): the inner width and the body rows, two border cells
/// added to each, clamped to the area. The row count is taken modulo the
/// `u16` range, as a cast to `u16` does.
pub fn report_box(entries: &Vec<(ReportKind, String)>, area: (u16, u16)) -> (r: (u16, u16))
    requires
        report_lines(entry_texts(entries@), report_inner(entry_texts(entries@))) <= usize::MAX,
        report_lines(entry_texts(entries@), report_inner(entry_texts(entries@))) % 65536 + 2
            <= u16::MAX,
    ensures
        r.0 == least(report_inner(entry_texts(entries@)) + 2int, area.0 as int),
        r.1 == least(
            report_lines(entry_texts(entries@), report_inner(entry_texts(entries@))) % 65536 + 2int,
            area.1 as int,
        ),
{
    let (inner, lines) = report_size(entries);
    let guide = Rect { x: 0, y: 0, width: area.0, height: area.1 };
    let rows = (lines % 65536) as u16;
    let b = popup_area(guide, inner as u16 + 2, rows + 2);
    (b.width, b.height)
}

} // verus!

verus! {

/// `s` without its spaces.
pub open spec fn without_spaces(s: Seq<char>) -> Seq<char>
    decreases s.len(),
{
    if s.len() == 0 {
        Seq::empty()
    } else if s.last() == ' ' {
        without_spaces(s.drop_last())
    } else {
        without_spaces(s.drop_last()).push(s.last())
    }
}

/// The lines one after the other, with nothing between them.
pub open spec fn joined(lines: Seq<Seq<char>>) -> Seq<char>
    decreases lines.len(),
{
    if lines.len() == 0 {
        Seq::empty()
    } else {
        joined(lines.drop_last()) + lines.last()
    }
}

proof fn lemma_without_spaces_add(a: Seq<char>, b: Seq<char>)
    ensures
        without_spaces(a + b) == without_spaces(a) + without_spaces(b),
    decreases b.len(),
{
    if b.len() == 0 {
        assert(a + b == a);
        assert(without_spaces(a) + without_spaces(b) == without_spaces(a));
    } else {
        lemma_without_spaces_add(a, b.drop_last());
        assert((a + b).drop_last() == a + b.drop_last());
        assert((a + b).last() == b.last());
    }
}

proof fn lemma_joined_push(lines: Seq<Seq<char>>, line: Seq<char>)
    ensures
        joined(lines.push(line)) == joined(lines) + line,
{
    assert(lines.push(line).drop_last() == lines);
}

proof fn lemma_place_keeps_text(out: Seq<Seq<char>>, cur: Seq<char>, rest: Seq<char>, w: nat)
    requires
        w >= 1,
    ensures
        without_spaces(joined(place(out, cur, rest, w).0) + place(out, cur, rest, w).1)
            == without_spaces(joined(out) + cur + rest),
    decreases rest.len() * 2 + if cur.len() > 0 {
        1int
    } else {
        0int
    },
{
    let sep: nat = if cur.len() > 0 {
        1
    } else {
        0
    };
    let j = joined(out);
    if rest.len() == 0 || w == 0 {
        if rest.len() == 0 {
            assert(j + cur + rest == j + cur);
        }
    } else if cur.len() + sep + rest.len() <= w {
        if sep == 1 {
            lemma_without_spaces_add(j, cur.push(' ') + rest);
            lemma_without_spaces_add(cur.push(' '), rest);
            lemma_without_spaces_add(j, cur + rest);
            lemma_without_spaces_add(cur, rest);
            assert(cur.push(' ').drop_last() == cur);
            assert(without_spaces(cur.push(' ')) == without_spaces(cur));
            assert(j + (cur.push(' ') + rest) == j + cur.push(' ') + rest);
            assert(j + (cur + rest) == j + cur + rest);
        } else {
            assert(cur.len() == 0);
            assert(j + cur + rest == j + rest);
        }
    } else if cur.len() == 0 {
        let o2 = out.push(rest.take(w as int));
        lemma_place_keeps_text(o2, cur, rest.skip(w as int), w);
        lemma_joined_push(out, rest.take(w as int));
        assert(rest.take(w as int) + rest.skip(w as int) == rest);
        assert(j + rest.take(w as int) + cur + rest.skip(w as int) == j + cur + rest);
    } else {
        let o2 = out.push(cur);
        lemma_place_keeps_text(o2, Seq::empty(), rest, w);
        lemma_joined_push(out, cur);
        assert(j + cur + Seq::<char>::empty() + rest == j + cur + rest);
    }
}

proof fn lemma_wrap_words_keep_text(words: Seq<Seq<char>>, w: nat)
    requires
        w >= 1,
    ensures
        without_spaces(joined(wrap_words(words, w).0) + wrap_words(words, w).1) == without_spaces(
            joined(words),
        ),
    decreases words.len(),
{
    if words.len() > 0 {
        let st = wrap_words(words.drop_last(), w);
        let word = words.last();
        lemma_wrap_words_keep_text(words.drop_last(), w);
        let j = joined(st.0);
        lemma_without_spaces_add(j + st.1, word);
        lemma_without_spaces_add(joined(words.drop_last()), word);
        if word.len() == 0 {
            assert(joined(words) == joined(words.drop_last()) + word);
            assert(joined(words.drop_last()) + word == joined(words.drop_last()));
            if 0 < st.1.len() < w {
                lemma_without_spaces_add(j, st.1.push(' '));
                lemma_without_spaces_add(j, st.1);
                assert(st.1.push(' ').drop_last() == st.1);
            }
        } else {
            lemma_place_keeps_text(st.0, st.1, word, w);
        }
    }
}

proof fn lemma_split_keeps_text(s: Seq<char>)
    ensures
        without_spaces(joined(crate::machines::split_on(s, ' '))) == without_spaces(s),
    decreases s.len(),
{
    if s.len() > 0 {
        let p = crate::machines::split_on(s.drop_last(), ' ');
        lemma_split_keeps_text(s.drop_last());
        crate::machines::lemma_split_nonempty(s.drop_last(), ' ');
        if s.last() == ' ' {
            assert(crate::machines::split_on(s, ' ') == p.push(Seq::empty()));
            lemma_joined_push(p, Seq::empty());
            assert(joined(p) + Seq::<char>::empty() == joined(p));
            assert(without_spaces(s) == without_spaces(s.drop_last()));
        } else {
            let c = s.last();
            let q = p.update(p.len() - 1, p.last().push(c));
            assert(q.drop_last() == p.drop_last());
            assert(p.drop_last().push(p.last()) == p);
            assert(joined(p) == joined(p.drop_last()) + p.last());
            assert(joined(q) == joined(p.drop_last()) + p.last().push(c));
            assert(joined(q) == joined(p).push(c));
            assert(joined(p).push(c).drop_last() == joined(p));
            assert(crate::machines::split_on(s, ' ') == q);
            assert(without_spaces(joined(q)) == without_spaces(joined(p)).push(c));
            assert(without_spaces(s) == without_spaces(s.drop_last()).push(c));
        }
    } else {
        assert(crate::machines::split_on(s, ' ') == seq![Seq::<char>::empty()]);
        assert(seq![Seq::<char>::empty()] == Seq::<Seq<char>>::empty().push(Seq::<char>::empty()));
        lemma_joined_push(Seq::<Seq<char>>::empty(), Seq::<char>::empty());
        assert(joined(Seq::<Seq<char>>::empty()) == Seq::<char>::empty());
        assert(Seq::<char>::empty() + Seq::<char>::empty() == Seq::<char>::empty());
        assert(s == Seq::<char>::empty());
    }
}

/// Wrapping keeps the text: the lines, put one after the other, hold the
/// text's characters other than spaces, all of them and in their order.
pub proof fn wrapping_keeps_the_text(text: Seq<char>, width: int)
    ensures
        without_spaces(joined(wrapped(text, width))) == without_spaces(text),
{
    let words = crate::machines::split_on(text, ' ');
    let st = wrap_words(words, columns(width));
    lemma_wrap_words_keep_text(words, columns(width));
    lemma_split_keeps_text(text);
    lemma_joined_push(st.0, st.1);
}

} // verus!
