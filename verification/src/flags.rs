//! First-blood flag submission (`POST /includes/flag.php`): a
//! self-declared username plus the MD5 flag found inside the machine.
//! This module checks a submission before it is sent and reads the reply.
use vstd::prelude::*;
use vstd::utf8::encode_utf8;

use crate::json::{JsonField, JsonValue, member_text, rejection_or, rejection_text, reply_member, reply_member_of, text_or};
use crate::text::{chars_of, decimal, lowercase_of, push_decimal, to_lowercase, trim, trimmed};

verus! {

/// Which first-blood slot a flag claims.
#[derive(Debug, Clone, Copy, PartialEq, Eq, Structural)]
pub enum FlagType {
    User,
    Root,
}

impl FlagType {
    /// The slot's name on the platform.
    pub open spec fn name(self) -> Seq<char> {
        match self {
            FlagType::User => "user"@,
            FlagType::Root => "root"@,
        }
    }

    pub fn as_str(self) -> (r: &'static str)
        ensures
            r@ == self.name(),
    {
        match self {
            FlagType::User => "user",
            FlagType::Root => "root",
        }
    }
}

pub open spec fn is_hex_digit(c: char) -> bool {
    ('0' <= c <= '9') || ('a' <= c <= 'f') || ('A' <= c <= 'F')
}

pub open spec fn all_hex(s: Seq<char>) -> bool {
    forall|i: int| 0 <= i < s.len() ==> is_hex_digit(#[trigger] s[i])
}

/// A flag is an MD5 hash: 32 bytes, all hexadecimal digits.
pub open spec fn is_md5_flag(s: Seq<char>) -> bool {
    encode_utf8(s).len() == 32 && all_hex(s)
}

/// Whether `s` is written as an MD5 hash (32 hexadecimal characters).
pub fn md5_shaped(s: &str) -> (r: bool)
    ensures
        r == is_md5_flag(s@),
{
    if s.as_bytes().len() != 32 {
        return false;
    }
    let cs = chars_of(s);
    let mut i: usize = 0;
    while i < cs.len()
        invariant
            i <= cs.len(),
            cs@ == s@,
            encode_utf8(s@).len() == 32,
            forall|k: int| 0 <= k < i ==> is_hex_digit(#[trigger] cs@[k]),
        decreases cs.len() - i,
    {
        let c = cs[i];
        if !(('0' <= c && c <= '9') || ('a' <= c && c <= 'f') || ('A' <= c && c <= 'F')) {
            return false;
        }
        i += 1;
    }
    true
}

/// What a submission sends, or why it is refused before sending: the
/// lowercased flag and the trimmed username.
pub open spec fn flag_submission(flag_value: Seq<char>, username: Seq<char>) -> Result<
    (Seq<char>, Seq<char>),
    Seq<char>,
> {
    let flag = trim(flag_value);
    if !is_md5_flag(flag) {
        Err("The flag must be an MD5 hash: 32 hexadecimal characters."@)
    } else if encode_utf8(trim(username)).len() < 2 {
        Err("Set your username first (a)."@)
    } else {
        Ok((lowercase_of(flag), trim(username)))
    }
}

/// Checks a flag submission before it is sent:
/// `(flag_value, username)` to send, or the refusal.
pub fn check_flag_submission(flag_value: &str, username: &str) -> (r: Result<(String, String), String>)
    ensures
        match r {
            Ok((f, u)) => flag_submission(flag_value@, username@) == Ok::<_, Seq<char>>((f@, u@)),
            Err(e) => flag_submission(flag_value@, username@) == Err::<(Seq<char>, Seq<char>), _>(e@),
        },
{
    let flag = trimmed(flag_value);
    if !md5_shaped(flag.as_str()) {
        return Err(String::from_str("The flag must be an MD5 hash: 32 hexadecimal characters."));
    }
    let user = trimmed(username);
    if user.as_str().as_bytes().len() < 2 {
        return Err(String::from_str("Set your username first (a)."));
    }
    Ok((to_lowercase(flag.as_str()), user))
}

/// How the flag endpoint's reply reads: the accepted message (with the
/// first-blood bonus noted), or the rejection.
pub open spec fn flag_reply(ok: JsonValue, message: JsonValue, error: JsonValue, bonus: JsonValue) -> Result<
    Seq<char>,
    Seq<char>,
> {
    if ok == JsonValue::Bool(true) {
        let base = match member_text(message) {
            Some(t) => t,
            None => "Flag accepted"@,
        };
        Ok(
            match bonus {
                JsonValue::Number(Some(b)) => base + " (+"@ + decimal(b as nat)
                    + " first blood bonus pts)"@,
                _ => base,
            },
        )
    } else {
        Err(
            match rejection_text(message, error) {
                Some(t) => t,
                None => "The server rejected the flag."@,
            },
        )
    }
}

/// Reads the flag endpoint's reply from its `ok`, `message`, `error` and
/// `first_blood_bonus` members.
pub fn flag_reply_outcome(ok: &JsonField, message: &JsonField, error: &JsonField, bonus: &JsonField) -> (r: Result<String, String>)
    ensures
        match r {
            Ok(m) => flag_reply(ok@, message@, error@, bonus@) == Ok::<_, Seq<char>>(m@),
            Err(e) => flag_reply(ok@, message@, error@, bonus@) == Err::<Seq<char>, _>(e@),
        },
{
    let accepted = match ok {
        JsonField::Bool(b) => *b,
        _ => false,
    };
    if accepted {
        let mut m = text_or(message, "Flag accepted");
        match bonus {
            JsonField::Number(Some(b)) => {
                m.append(" (+");
                push_decimal(&mut m, *b);
                m.append(" first blood bonus pts)");
            },
            _ => {},
        }
        Ok(m)
    } else {
        Err(rejection_or(message, error, "The server rejected the flag."))
    }
}

/// The endpoint answers `{"ok": bool, ...}` with optional bonus/message
/// fields; this reads the body.
pub fn parse_flag_response(body: &str) -> (r: Result<String, String>)
    ensures
        ({
            let v = flag_reply(
                reply_member_of(body@, "ok"@),
                reply_member_of(body@, "message"@),
                reply_member_of(body@, "error"@),
                reply_member_of(body@, "first_blood_bonus"@),
            );
            match r {
                Ok(m) => v == Ok::<_, Seq<char>>(m@),
                Err(e) => v == Err::<Seq<char>, _>(e@),
            }
        }),
{
    let ok = reply_member(body, "ok");
    let message = reply_member(body, "message");
    let error = reply_member(body, "error");
    let bonus = reply_member(body, "first_blood_bonus");
    flag_reply_outcome(&ok, &message, &error, &bonus)
}

} // verus!
