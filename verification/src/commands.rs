//! What the dashboard's actions send and report. The host submits each
//! flag or writeup to the site; these functions decide what is submitted
//! and turn the site's answers into the result popup.
use vstd::prelude::*;

use crate::flags::FlagType;
use crate::i18n::{msg_text, Lang, Msg};
use crate::text::{concat, owned, string_of_range, chars_of};
use crate::tui::{ActionReport, ReportKind};

verus! {

/// Where the first ':' of `v` is, if anywhere.
pub open spec fn first_colon(v: Seq<char>) -> Option<int>
    decreases v.len(),
{
    if v.len() == 0 {
        None
    } else {
        match first_colon(v.drop_last()) {
            Some(i) => Some(i),
            None => if v.last() == ':' {
                Some(v.len() - 1)
            } else {
                None
            },
        }
    }
}

/// The flag an action value "type:flag" carries: the slot is "user" when
/// the type says so and root otherwise; a value without ':' carries none.
pub open spec fn flag_of_value(v: Seq<char>) -> Option<(FlagType, Seq<char>)> {
    match first_colon(v) {
        None => None,
        Some(i) => Some(
            (
                if v.take(i) == "user"@ {
                    FlagType::User
                } else {
                    FlagType::Root
                },
                v.skip(i + 1),
            ),
        ),
    }
}

/// The flags the action values carry, in order.
pub open spec fn flags_of_values(values: Seq<Seq<char>>) -> Seq<(FlagType, Seq<char>)>
    decreases values.len(),
{
    if values.len() == 0 {
        Seq::empty()
    } else {
        flags_of_values(values.drop_last()) + match flag_of_value(values.last()) {
            Some(f) => seq![f],
            None => Seq::empty(),
        }
    }
}

/// The texts of an action's values.
pub open spec fn value_texts(values: Seq<(usize, String)>) -> Seq<Seq<char>> {
    values.map_values(|v: (usize, String)| v.1@)
}

/// The flags as slot and text.
pub open spec fn flag_texts(flags: Seq<(FlagType, String)>) -> Seq<(FlagType, Seq<char>)> {
    flags.map_values(|f: (FlagType, String)| (f.0, f.1@))
}

proof fn lemma_first_colon(v: Seq<char>)
    ensures
        match first_colon(v) {
            Some(i) => 0 <= i < v.len() && v[i] == ':' && forall|k: int| 0 <= k < i ==> v[k] != ':',
            None => forall|k: int| 0 <= k < v.len() ==> v[k] != ':',
        },
    decreases v.len(),
{
    if v.len() > 0 {
        lemma_first_colon(v.drop_last());
        assert(forall|k: int| 0 <= k < v.len() - 1 ==> v.drop_last()[k] == v[k]);
    }
}

fn flag_of(v: &str) -> (r: Option<(FlagType, String)>)
    ensures
        match flag_of_value(v@) {
            None => r is None,
            Some(f) => r matches Some(g) && g.0 == f.0 && g.1@ == f.1,
        },
{
    let cs = chars_of(v);
    let mut i: usize = 0;
    while i < cs.len()
        invariant
            i <= cs.len(),
            cs@ == v@,
            forall|k: int| 0 <= k < i ==> cs@[k] != ':',
        decreases cs.len() - i,
    {
        if cs[i] == ':' {
            proof {
                lemma_first_colon(v@);
                match first_colon(v@) {
                    Some(j) => {
                        if j < i {
                        } else if j > i {
                        }
                        assert(j == i);
                    },
                    None => {
                        assert(v@[i as int] != ':');
                    },
                }
            }
            let kind = string_of_range(&cs, 0, i);
            let flag = string_of_range(&cs, i + 1, cs.len());
            proof {
                reveal_strlit("user");
            }
            let t = if crate::text::str_eq(kind.as_str(), "user") {
                FlagType::User
            } else {
                FlagType::Root
            };
            assert(flag@ == v@.skip(i + 1));
            return Some((t, flag));
        }
        i += 1;
    }
    proof {
        lemma_first_colon(v@);
        if first_colon(v@) is Some {
            let j = first_colon(v@)->0;
            assert(cs@[j] != ':');
        }
    }
    None
}

/// The flags that the values of a flag action carry ("type:flag" each;
/// values without ':' are skipped).
pub fn flag_submissions(values: &Vec<(usize, String)>) -> (r: Vec<(FlagType, String)>)
    ensures
        flag_texts(r@) == flags_of_values(value_texts(values@)),
{
    let ghost vs = value_texts(values@);
    let mut out: Vec<(FlagType, String)> = Vec::new();
    let mut i: usize = 0;
    while i < values.len()
        invariant
            i <= values.len(),
            vs == value_texts(values@),
            flag_texts(out@) == flags_of_values(vs.take(i as int)),
        decreases values.len() - i,
    {
        assert(vs.take(i + 1).drop_last() == vs.take(i as int));
        assert(vs.take(i + 1).last() == values@[i as int].1@);
        let ghost before = out@;
        match flag_of(values[i].1.as_str()) {
            Some(f) => {
                out.push(f);
                assert(flag_texts(out@) =~= flag_texts(before).push((f.0, f.1@)));
            },
            None => {},
        }
        assert(flag_texts(out@) =~= flags_of_values(vs.take(i + 1)));
        i += 1;
    }
    assert(vs.take(values.len() as int) == vs);
    out
}

/// The result lines of accepted flags: each slot with the site's message.
pub open spec fn accepted_lines(accepted: Seq<(FlagType, String)>, lang: Lang) -> Seq<
    (ReportKind, Seq<char>),
> {
    accepted.map_values(
        |a: (FlagType, String)|
            (
                ReportKind::Success,
                msg_text(Msg::FlagAccepted(flag_type_name(a.0), a.1), lang),
            ),
    )
}

/// The slot name as the message catalog takes it.
pub open spec fn flag_type_name(t: FlagType) -> &'static str {
    match t {
        FlagType::User => "user",
        FlagType::Root => "root",
    }
}

/// A report's lines as text.
pub open spec fn report_lines_view(entries: Seq<(ReportKind, String)>) -> Seq<(ReportKind, Seq<char>)> {
    entries.map_values(|e: (ReportKind, String)| (e.0, e.1@))
}

/// The result popup after the flags of `machine` were submitted and
/// `accepted` came back (slot and the site's message, in order); with no
/// flag submitted at all, the error to show.
pub fn flags_report(machine: &str, accepted: &Vec<(FlagType, String)>, lang: Lang) -> (r: Result<
    ActionReport,
    String,
>)
    ensures
        accepted@.len() == 0 <==> r is Err,
        r matches Err(e) ==> e@ == msg_text(Msg::NoFlagSubmitted, lang),
        r matches Ok(rep) ==> {
            &&& rep.title@ == " Flags — "@ + machine@ + " "@
            &&& report_lines_view(rep.entries@) == accepted_lines(accepted@, lang)
            &&& rep.changed
            &&& exists|m: String|
                #![trigger msg_text(Msg::FlagsSubmitted(accepted@.len() as usize, m), lang)]
                m@ == machine@ && rep.status@ == msg_text(
                    Msg::FlagsSubmitted(accepted@.len() as usize, m),
                    lang,
                )
        },
{
    if accepted.len() == 0 {
        return Err(Msg::NoFlagSubmitted.render(lang));
    }
    let mut entries: Vec<(ReportKind, String)> = Vec::new();
    let mut i: usize = 0;
    while i < accepted.len()
        invariant
            i <= accepted.len(),
            report_lines_view(entries@) == accepted_lines(accepted@.take(i as int), lang),
        decreases accepted.len() - i,
    {
        let t = accepted[i].0;
        let line = Msg::FlagAccepted(t.as_str(), owned(accepted[i].1.as_str())).render(lang);
        let ghost before = entries@;
        entries.push((ReportKind::Success, line));
        proof {
            assert(accepted@.take(i + 1) == accepted@.take(i as int).push(accepted@[i as int]));
            assert(report_lines_view(entries@) =~= report_lines_view(before).push(
                (ReportKind::Success, line@),
            ));
            assert(accepted_lines(accepted@.take(i + 1), lang) =~= accepted_lines(
                accepted@.take(i as int),
                lang,
            ).push(accepted_lines(accepted@, lang)[i as int]));
        }
        i += 1;
    }
    assert(accepted@.take(accepted.len() as int) == accepted@);
    let m = owned(machine);
    let ghost witness = m;
    let status = Msg::FlagsSubmitted(accepted.len(), m).render(lang);
    assert(status@ == msg_text(Msg::FlagsSubmitted(accepted@.len() as usize, witness), lang));
    let mut title = concat(" Flags — ", machine);
    title.append(" ");
    Ok(ActionReport { title, entries, changed: true, status })
}

/// The result popup after the writeup for `machine` was accepted with the
/// site's `message`.
pub fn writeup_report(machine: &str, message: String, lang: Lang) -> (r: ActionReport)
    ensures
        r.title@ == " Writeup — "@ + machine@ + " "@,
        r.entries@.len() == 1,
        r.entries@[0].0 == ReportKind::Success,
        r.entries@[0].1@ == msg_text(Msg::WriteupSubmitted(message), lang),
        !r.changed,
        exists|m: String|
            #![trigger msg_text(Msg::WriteupPending(m), lang)]
            m@ == machine@ && r.status@ == msg_text(Msg::WriteupPending(m), lang),
{
    let line = Msg::WriteupSubmitted(message).render(lang);
    let mut entries: Vec<(ReportKind, String)> = Vec::new();
    entries.push((ReportKind::Success, line));
    let status = Msg::WriteupPending(owned(machine)).render(lang);
    let mut title = concat(" Writeup — ", machine);
    title.append(" ");
    ActionReport { title, entries, changed: false, status }
}

} // verus!
