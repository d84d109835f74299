//! Community writeups: the full map (`/data/writeups-map.json`) flattened
//! per machine, writeup submission checks, and the submission reply.
use vstd::prelude::*;

use crate::json::{JsonField, JsonValue, member_text, rejection_or, rejection_text, reply_member, reply_member_of, text_or};
use crate::order::{arrange, ints, keys_view, sorted_indices, stable_sort_indices, text_key, text_key_of};
use crate::text::{has_prefix, lowercase_of, owned, starts_with, str_eq, to_lowercase, trim, trimmed};

verus! {

/// One community writeup of a machine.
#[derive(Debug, Clone, Default)]
pub struct WriteupEntry {
    pub author: String,
    pub url: String,
    /// "Text" or "Video".
    pub tipo: String,
    /// "es", "en", "uz", ...
    pub language: String,
    pub submitted_at: String,
}

/// The text fields of a [`WriteupEntry`].
pub struct WriteupView {
    pub author: Seq<char>,
    pub url: Seq<char>,
    pub tipo: Seq<char>,
    pub language: Seq<char>,
    pub submitted_at: Seq<char>,
}

impl View for WriteupEntry {
    type V = WriteupView;

    open spec fn view(&self) -> WriteupView {
        WriteupView {
            author: self.author@,
            url: self.url@,
            tipo: self.tipo@,
            language: self.language@,
            submitted_at: self.submitted_at@,
        }
    }
}

impl WriteupEntry {
    /// A copy of the entry.
    pub fn duplicate(&self) -> (r: WriteupEntry)
        ensures
            r@ == self@,
    {
        WriteupEntry {
            author: self.author.clone(),
            url: self.url.clone(),
            tipo: self.tipo.clone(),
            language: self.language.clone(),
            submitted_at: self.submitted_at.clone(),
        }
    }
}

/// A `(machine slug, writeup)` pair by its text.
pub open spec fn pair_view(p: (String, WriteupEntry)) -> (Seq<char>, WriteupView) {
    (p.0@, p.1@)
}

/// The writeups of the map, one group per machine slug.
pub open spec fn groups_view(g: Seq<(String, Vec<WriteupEntry>)>) -> Seq<(Seq<char>, Seq<WriteupView>)> {
    g.map_values(|p: (String, Vec<WriteupEntry>)| (p.0@, p.1@.map_values(|w: WriteupEntry| w@)))
}

/// A writeup without an author is credited to the machine's slug.
pub open spec fn credited(slug: Seq<char>, w: WriteupView) -> WriteupView {
    if w.author.len() == 0 {
        WriteupView { author: slug, ..w }
    } else {
        w
    }
}

/// The groups flattened in order into `(slug, writeup)` pairs.
pub open spec fn flatten(groups: Seq<(Seq<char>, Seq<WriteupView>)>) -> Seq<(Seq<char>, WriteupView)>
    decreases groups.len(),
{
    if groups.len() == 0 {
        Seq::empty()
    } else {
        let (slug, ws) = groups.last();
        flatten(groups.drop_last()) + ws.map_values(|w: WriteupView| (slug, credited(slug, w)))
    }
}

/// The flattened pairs in stable order of their lowercased slugs
/// (`sort_by_key(|a| a.0.to_lowercase())`).
pub open spec fn flattened_writeups(groups: Seq<(Seq<char>, Seq<WriteupView>)>) -> Seq<(Seq<char>, WriteupView)> {
    let flat = flatten(groups);
    arrange(flat, sorted_indices(flat.map_values(|p: (Seq<char>, WriteupView)| text_key(lowercase_of(p.0)))))
}

/// Flattens the writeups map (whose groups come in the order the map
/// yielded them) into `(machine slug, writeup)` pairs sorted by slug.
pub fn flatten_writeups(groups: &Vec<(String, Vec<WriteupEntry>)>) -> (r: Vec<(String, WriteupEntry)>)
    ensures
        r@.map_values(|p: (String, WriteupEntry)| pair_view(p)) == flattened_writeups(groups_view(groups@)),
{
    let ghost gv = groups_view(groups@);
    let mut flat: Vec<(String, WriteupEntry)> = Vec::new();
    let mut g: usize = 0;
    while g < groups.len()
        invariant
            g <= groups.len(),
            gv == groups_view(groups@),
            flat@.map_values(|p: (String, WriteupEntry)| pair_view(p)) == flatten(gv.take(g as int)),
        decreases groups.len() - g,
    {
        let slug = &groups[g].0;
        let entries = &groups[g].1;
        let ghost before = flat@.map_values(|p: (String, WriteupEntry)| pair_view(p));
        let ghost ws = entries@.map_values(|w: WriteupEntry| w@);
        let mut k: usize = 0;
        while k < entries.len()
            invariant
                k <= entries.len(),
                ws == entries@.map_values(|w: WriteupEntry| w@),
                flat@.map_values(|p: (String, WriteupEntry)| pair_view(p)) == before + ws.take(
                    k as int,
                ).map_values(|w: WriteupView| (slug@, credited(slug@, w))),
            decreases entries.len() - k,
        {
            let mut w = entries[k].duplicate();
            if w.author.as_str().is_empty() {
                w.author = slug.clone();
            }
            let ghost prev = flat@;
            flat.push((slug.clone(), w));
            proof {
                assert(ws.take(k + 1) == ws.take(k as int).push(ws[k as int]));
                assert(flat@.map_values(|p: (String, WriteupEntry)| pair_view(p)) =~= prev.map_values(
                    |p: (String, WriteupEntry)| pair_view(p),
                ).push((slug@, credited(slug@, ws[k as int]))));
                assert(ws.take(k + 1).map_values(|w: WriteupView| (slug@, credited(slug@, w)))
                    =~= ws.take(k as int).map_values(|w: WriteupView| (slug@, credited(slug@, w))).push(
                    (slug@, credited(slug@, ws[k as int])),
                ));
            }
            k += 1;
        }
        proof {
            assert(ws.take(entries.len() as int) == ws);
            assert(gv.take(g + 1).drop_last() == gv.take(g as int));
            assert(gv.take(g + 1).last() == (slug@, ws));
        }
        g += 1;
    }
    assert(gv.take(groups.len() as int) == gv);
    let ghost fv = flat@.map_values(|p: (String, WriteupEntry)| pair_view(p));
    let mut keys: Vec<Vec<u64>> = Vec::new();
    let mut i: usize = 0;
    while i < flat.len()
        invariant
            i <= flat.len(),
            fv == flat@.map_values(|p: (String, WriteupEntry)| pair_view(p)),
            keys_view(keys@) == fv.take(i as int).map_values(|p: (Seq<char>, WriteupView)| text_key(lowercase_of(p.0))),
        decreases flat.len() - i,
    {
        let lower = to_lowercase(flat[i].0.as_str());
        let key = text_key_of(lower.as_str());
        let ghost prev = keys@;
        keys.push(key);
        proof {
            assert(keys_view(keys@) =~= keys_view(prev).push(text_key(lowercase_of(fv[i as int].0))));
            assert(fv.take(i + 1).map_values(|p: (Seq<char>, WriteupView)| text_key(lowercase_of(p.0)))
                =~= fv.take(i as int).map_values(|p: (Seq<char>, WriteupView)| text_key(lowercase_of(p.0))).push(
                text_key(lowercase_of(fv[i as int].0)),
            ));
        }
        i += 1;
    }
    assert(fv.take(flat.len() as int) == fv);
    let order = stable_sort_indices(&keys);
    let mut out: Vec<(String, WriteupEntry)> = Vec::new();
    let mut j: usize = 0;
    while j < order.len()
        invariant
            j <= order.len() == keys.len() == flat.len(),
            fv == flat@.map_values(|p: (String, WriteupEntry)| pair_view(p)),
            forall|k: int| 0 <= k < order.len() ==> #[trigger] order@[k] < keys.len(),
            out@.map_values(|p: (String, WriteupEntry)| pair_view(p)) == arrange(fv, ints(order@).take(j as int)),
        decreases order.len() - j,
    {
        let k = order[j];
        let pair = (flat[k].0.clone(), flat[k].1.duplicate());
        let ghost prev = out@;
        out.push(pair);
        proof {
            assert(ints(order@).take(j + 1) == ints(order@).take(j as int).push(k as int));
            assert(out@.map_values(|p: (String, WriteupEntry)| pair_view(p)) =~= prev.map_values(
                |p: (String, WriteupEntry)| pair_view(p),
            ).push(fv[k as int]));
            assert(arrange(fv, ints(order@).take(j + 1)) =~= arrange(fv, ints(order@).take(j as int)).push(fv[k as int]));
        }
        j += 1;
    }
    assert(ints(order@).take(order.len() as int) == ints(order@));
    out
}

/// How a submission reply reads: the server message (or `ok_message`)
/// when `ok` is true, else the rejection.
pub open spec fn ok_reply(ok: JsonValue, message: JsonValue, error: JsonValue, ok_message: Seq<char>) -> Result<
    Seq<char>,
    Seq<char>,
> {
    if ok == JsonValue::Bool(true) {
        Ok(
            match member_text(message) {
                Some(t) => t,
                None => ok_message,
            },
        )
    } else {
        Err(
            match rejection_text(message, error) {
                Some(t) => t,
                None => "The server rejected the operation."@,
            },
        )
    }
}

/// Reads a reply from its `ok`, `message` and `error` members.
pub fn ok_reply_outcome(ok: &JsonField, message: &JsonField, error: &JsonField, ok_message: &str) -> (r: Result<String, String>)
    ensures
        match r {
            Ok(m) => ok_reply(ok@, message@, error@, ok_message@) == Ok::<_, Seq<char>>(m@),
            Err(e) => ok_reply(ok@, message@, error@, ok_message@) == Err::<Seq<char>, _>(e@),
        },
{
    let accepted = match ok {
        JsonField::Bool(b) => *b,
        _ => false,
    };
    if accepted {
        Ok(text_or(message, ok_message))
    } else {
        Err(rejection_or(message, error, "The server rejected the operation."))
    }
}

/// VulnyX answers `{"ok": bool, "message"?: String}` (or an `error`
/// string): the server message when ok, else the rejection.
pub fn parse_ok(body: &str, ok_message: &str) -> (r: Result<String, String>)
    ensures
        ({
            let v = ok_reply(
                reply_member_of(body@, "ok"@),
                reply_member_of(body@, "message"@),
                reply_member_of(body@, "error"@),
                ok_message@,
            );
            match r {
                Ok(m) => v == Ok::<_, Seq<char>>(m@),
                Err(e) => v == Err::<Seq<char>, _>(e@),
            }
        }),
{
    let ok = reply_member(body, "ok");
    let message = reply_member(body, "message");
    let error = reply_member(body, "error");
    ok_reply_outcome(&ok, &message, &error, ok_message)
}

/// What a writeup submission sends (the trimmed URL), or why it is
/// refused before sending.
pub open spec fn writeup_submission(url: Seq<char>, tipo: Seq<char>) -> Result<Seq<char>, Seq<char>> {
    if !has_prefix(url, "http://"@) && !has_prefix(url, "https://"@) {
        Err("The writeup URL must start with http:// or https://."@)
    } else if tipo != "Text"@ && tipo != "Video"@ {
        Err("Type must be Text or Video."@)
    } else {
        Ok(trim(url))
    }
}

/// Checks a writeup submission before it is sent: the URL to send, or
/// the refusal.
pub fn check_writeup_submission(url: &str, tipo: &str) -> (r: Result<String, String>)
    ensures
        match r {
            Ok(u) => writeup_submission(url@, tipo@) == Ok::<_, Seq<char>>(u@),
            Err(e) => writeup_submission(url@, tipo@) == Err::<Seq<char>, _>(e@),
        },
{
    if !starts_with(url, "http://") && !starts_with(url, "https://") {
        return Err(owned("The writeup URL must start with http:// or https://."));
    }
    if !str_eq(tipo, "Text") && !str_eq(tipo, "Video") {
        return Err(owned("Type must be Text or Video."));
    }
    Ok(trimmed(url))
}

} // verus!

verus! {

/// A writeup is accepted exactly when its URL starts with "http://" or
/// "https://" and its type is exactly "Text" or exactly "Video"; what is
/// sent is then the URL trimmed. A bad URL is reported before a bad type.
pub proof fn writeups_of_both_types_are_accepted(url: Seq<char>, tipo: Seq<char>)
    ensures
        writeup_submission(url, tipo) is Ok <==> (has_prefix(url, "http://"@) || has_prefix(
            url,
            "https://"@,
        )) && (tipo =~= "Text"@ || tipo =~= "Video"@),
        writeup_submission(url, tipo) matches Ok(u) ==> u == trim(url),
        !(has_prefix(url, "http://"@) || has_prefix(url, "https://"@)) ==> writeup_submission(url, tipo)
            == Err::<Seq<char>, Seq<char>>("The writeup URL must start with http:// or https://."@),
{
}

/// The flattened writeups are ordered by lowercased slug, and each pair of
/// the map shows up among them.
pub proof fn flattened_writeups_are_sorted(groups: Seq<(Seq<char>, Seq<WriteupView>)>)
    ensures
        forall|i: int, j: int|
            0 <= i < j < flattened_writeups(groups).len() ==> crate::order::key_le(
                text_key(lowercase_of((#[trigger] flattened_writeups(groups)[i]).0)),
                text_key(lowercase_of((#[trigger] flattened_writeups(groups)[j]).0)),
            ),
        flattened_writeups(groups).len() == flatten(groups).len(),
        crate::order::shows_each(flattened_writeups(groups), flatten(groups)),
{
    let flat = flatten(groups);
    let keys = flat.map_values(|p: (Seq<char>, WriteupView)| text_key(lowercase_of(p.0)));
    let order = sorted_indices(keys);
    crate::order::sorted_indices_sort_stably(keys);
    let v = flattened_writeups(groups);
    assert(v == arrange(flat, order));
    assert forall|i: int, j: int| 0 <= i < j < v.len() implies crate::order::key_le(
        text_key(lowercase_of((#[trigger] v[i]).0)),
        text_key(lowercase_of((#[trigger] v[j]).0)),
    ) by {
        assert(order.contains(order[i]));
        assert(order.contains(order[j]));
        assert(crate::order::key_le(keys[order[i]], keys[order[j]]));
    }
    let at = |k: int| choose|i: int| 0 <= i < order.len() && order[i] == k;
    assert forall|k: int| 0 <= k < flat.len() implies 0 <= #[trigger] at(k) < v.len() && v[at(k)]
        == flat[k] by {
        assert(order.contains(k));
    }
    assert(crate::order::shown_at(v, flat, at));
}

} // verus!
