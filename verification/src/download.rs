//! The rules of the machine download flow behind the platform's CAPTCHA
//! gate: which page and image are acceptable, how the server's reply is
//! read, what the archive is called and when a finished download is
//! accepted. The host does the requests and the file work.
use vstd::prelude::*;

use crate::text::{
    concat, contains, contains_seq, decimal, decimal_string, eq_ignore_ascii_case,
    eq_ignore_ascii_case_seq, has_prefix, owned, starts_with, trim, trimmed,
};

verus! {

/// The site path of a machine's download page.
pub open spec fn download_path_of(machine_name: Seq<char>) -> Seq<char> {
    "/download.php?vm="@ + machine_name
}

/// The site path of the download page of `machine_name`.
pub fn download_path(machine_name: &str) -> (r: String)
    ensures
        r@ == download_path_of(machine_name@),
{
    concat("/download.php?vm=", machine_name)
}

/// The absolute URL of a download request path: kept when it starts with
/// "http", else appended to the site address.
pub open spec fn download_url(path: Seq<char>) -> Seq<char> {
    if has_prefix(path, "http"@) {
        path
    } else {
        "https://vulnyx.com"@ + path
    }
}

/// Resolves a download request path against the site.
pub fn resolve(path: String) -> (r: String)
    ensures
        r@ == download_url(path@),
{
    if starts_with(path.as_str(), "http") {
        path
    } else {
        concat("https://vulnyx.com", path.as_str())
    }
}

/// The interstitial must present a CAPTCHA: its HTML mentions "captcha".
pub fn check_captcha_page(html: &str) -> (r: Result<(), String>)
    ensures
        r is Ok <==> contains_seq(html@, "captcha"@),
        r matches Err(e) ==> e@ == "The download page did not present a CAPTCHA."@,
{
    if contains(html, "captcha") {
        Ok(())
    } else {
        Err(owned("The download page did not present a CAPTCHA."))
    }
}

/// The CAPTCHA image must look like a PNG: at least four bytes, starting
/// with 0x89 and 'P'.
pub open spec fn captcha_image_ok(image: Seq<u8>) -> bool {
    image.len() >= 4 && image[0] == 0x89 && image[1] == 0x50
}

/// Checks the bytes the CAPTCHA endpoint returned.
pub fn check_captcha_image(image: &[u8]) -> (r: Result<(), String>)
    ensures
        r is Ok <==> captcha_image_ok(image@),
        r matches Err(e) ==> e@ == "The CAPTCHA endpoint returned an unexpected response."@,
{
    if image.len() < 4 || image[0] != 0x89 || image[1] != 0x50 {
        Err(owned("The CAPTCHA endpoint returned an unexpected response."))
    } else {
        Ok(())
    }
}

/// Why a reply of type `content_type` with body `body` is not the
/// archive: an HTML reply is the interstitial again, after a wrong code or
/// another refusal; any other reply is the archive (`None`).
pub open spec fn reply_refusal(content_type: Seq<char>, body: Seq<char>) -> Option<Seq<char>> {
    if !contains_seq(content_type, "text/html"@) {
        None
    } else if contains_seq(body, "Verification failed"@) {
        Some("CAPTCHA verification failed — wrong code."@)
    } else {
        Some("The download was rejected by the server (HTML response)."@)
    }
}

/// Reads the server's reply to the submitted code; `body` is only looked
/// at for an HTML reply.
pub fn check_reply(content_type: &str, body: &str) -> (r: Option<String>)
    ensures
        match reply_refusal(content_type@, body@) {
            None => r is None,
            Some(t) => r matches Some(s) && s@ == t,
        },
{
    if !contains(content_type, "text/html") {
        None
    } else if contains(body, "Verification failed") {
        Some(owned("CAPTCHA verification failed — wrong code."))
    } else {
        Some(owned("The download was rejected by the server (HTML response)."))
    }
}

/// The archive's file name: the machine name with ".ova".
pub fn ova_file_name(machine_name: &str) -> (r: String)
    ensures
        r@ == machine_name@ + ".ova"@,
{
    concat(machine_name, ".ova")
}

/// The staging file the archive is written to before it is checked.
pub fn part_file_name(file_name: &str) -> (r: String)
    ensures
        r@ == file_name@ + ".part"@,
{
    concat(file_name, ".part")
}

/// The upper-case hexadecimal digit of `n < 16`.
pub open spec fn hex_digit(n: nat) -> char {
    if n < 10 {
        (('0' as u32) + n) as char
    } else {
        (('A' as u32) + (n - 10)) as char
    }
}

/// `bytes` in upper-case hexadecimal, two digits per byte.
pub open spec fn hex_upper(bytes: Seq<u8>) -> Seq<char>
    decreases bytes.len(),
{
    if bytes.len() == 0 {
        Seq::empty()
    } else {
        hex_upper(bytes.drop_last()) + seq![
            hex_digit((bytes.last() / 16) as nat),
            hex_digit((bytes.last() % 16) as nat),
        ]
    }
}

fn hex_digit_exec(n: u8) -> (r: char)
    requires
        n < 16,
    ensures
        r == hex_digit(n as nat),
{
    if n < 10 {
        (48u8 + n) as char
    } else {
        (55u8 + n) as char
    }
}

/// A digest in upper-case hexadecimal, as `format!("{:X}", digest)`
/// writes it.
pub fn digest_hex(digest: &[u8]) -> (r: String)
    ensures
        r@ == hex_upper(digest@),
{
    let mut out = String::new();
    let mut i: usize = 0;
    while i < digest.len()
        invariant
            i <= digest.len(),
            out@ == hex_upper(digest@.take(i as int)),
        decreases digest.len() - i,
    {
        let b = digest[i];
        out.push(hex_digit_exec(b / 16));
        out.push(hex_digit_exec(b % 16));
        proof {
            assert(digest@.take(i + 1).drop_last() == digest@.take(i as int));
            assert(digest@.take(i + 1).last() == b);
        }
        assert(out@ =~= hex_upper(digest@.take(i + 1)));
        i += 1;
    }
    assert(digest@.take(digest.len() as int) == digest@);
    out
}

// ---------------------------------------------------------------------
// MD5, through md-5
// ---------------------------------------------------------------------

/// A running md-5 hasher (`md5::Md5`). Verus cannot take md-5's own type
/// in a declaration (its block sizes are typenum types), so the hasher is
/// held here, out of Verus's sight, and known only by what it was fed.
#[verifier::external_body]
pub struct Md5Hasher {
    inner: md5::Md5,
}

/// The MD5 digest of `data`, as md-5 computes it.
pub uninterp spec fn md5_of(data: Seq<u8>) -> Seq<u8>;

/// The bytes a running md-5 hasher has been fed since it was made.
pub uninterp spec fn md5_fed(h: Md5Hasher) -> Seq<u8>;

/// `md5::Md5::new` (the `Digest` constructor): a hasher fed nothing yet.
#[verifier::external_body]
fn md5_start() -> (h: Md5Hasher)
    ensures
        md5_fed(h) == Seq::<u8>::empty(),
{
    Md5Hasher { inner: <md5::Md5 as md5::Digest>::new() }
}

/// `Digest::update` on md-5's hasher: appends `chunk` to what it was fed.
#[verifier::external_body]
fn md5_update(h: &mut Md5Hasher, chunk: &[u8])
    ensures
        md5_fed(*final(h)) == md5_fed(*old(h)) + chunk@,
{
    md5::Digest::update(&mut h.inner, chunk)
}

/// `Digest::finalize` on md-5's hasher: the 16-byte MD5 digest of every
/// byte it was fed.
#[verifier::external_body]
fn md5_finish(h: Md5Hasher) -> (d: Vec<u8>)
    ensures
        d@ == md5_of(md5_fed(h)),
        d@.len() == 16,
{
    md5::Digest::finalize(h.inner).to_vec()
}

/// Whether a finished download is accepted: all `total` announced bytes
/// (when announced) were written, and the digest matches the catalog's
/// MD5 (ignoring case and surrounding space) unless the catalog has none.
pub open spec fn download_verdict(total: u64, written: u64, digest: Seq<u8>, expected: Seq<char>) -> Result<
    (),
    Seq<char>,
> {
    if total > 0 && written != total {
        Err(
            "Incomplete download: "@ + decimal(written as nat) + " of "@ + decimal(total as nat)
                + " bytes"@,
        )
    } else if expected.len() > 0 && !eq_ignore_ascii_case_seq(hex_upper(digest), trim(expected)) {
        Err(
            "MD5 mismatch: expected "@ + expected + ", got "@ + hex_upper(digest)
                + " — the download is corrupt."@,
        )
    } else {
        Ok(())
    }
}

/// Checks a finished download: `written` of `total` bytes, with MD5
/// `digest`, against the catalog's `expected_md5`.
pub fn check_download(total: u64, written: u64, digest: &[u8], expected_md5: &str) -> (r: Result<
    (),
    String,
>)
    ensures
        match download_verdict(total, written, digest@, expected_md5@) {
            Ok(()) => r is Ok,
            Err(t) => r matches Err(e) && e@ == t,
        },
{
    if total > 0 && written != total {
        let mut msg = owned("Incomplete download: ");
        msg.append(decimal_string(written).as_str());
        msg.append(" of ");
        msg.append(decimal_string(total).as_str());
        msg.append(" bytes");
        return Err(msg);
    }
    let hex = digest_hex(digest);
    if !expected_md5.is_empty() && !eq_ignore_ascii_case(hex.as_str(), trimmed(expected_md5).as_str()) {
        let mut msg = owned("MD5 mismatch: expected ");
        msg.append(expected_md5);
        msg.append(", got ");
        msg.append(hex.as_str());
        msg.append(" — the download is corrupt.");
        return Err(msg);
    }
    Ok(())
}

/// The running check of an archive being streamed in: how many bytes
/// were written, and the MD5 hasher they were fed to.
pub struct DownloadCheck {
    written: u64,
    hasher: Md5Hasher,
}

impl DownloadCheck {
    /// The number of bytes written so far.
    pub closed spec fn written(&self) -> u64 {
        self.written
    }

    /// Every byte received so far, in order.
    pub closed spec fn fed(&self) -> Seq<u8> {
        md5_fed(self.hasher)
    }

    /// The bytes written so far, as the host's progress display shows them.
    pub fn written_bytes(&self) -> (r: u64)
        ensures
            r == self.written(),
    {
        self.written
    }

    /// A check with nothing received yet.
    pub fn new() -> (r: DownloadCheck)
        ensures
            r.written() == 0,
            r.fed() == Seq::<u8>::empty(),
    {
        DownloadCheck { written: 0, hasher: md5_start() }
    }

    /// Takes the next chunk of the archive: counts it and feeds it to the
    /// hasher.
    pub fn chunk(&mut self, chunk: &[u8])
        requires
            old(self).written() + chunk@.len() <= u64::MAX,
        ensures
            final(self).written() == old(self).written() + chunk@.len(),
            final(self).fed() == old(self).fed() + chunk@,
    {
        md5_update(&mut self.hasher, chunk);
        self.written = self.written + chunk.len() as u64;
    }

    /// Judges the finished download against the announced size `total`
    /// and the catalog's `expected_md5`, with the MD5 of every byte
    /// received.
    pub fn finish(self, total: u64, expected_md5: &str) -> (r: Result<(), String>)
        ensures
            match download_verdict(total, self.written(), md5_of(self.fed()), expected_md5@) {
                Ok(()) => r is Ok,
                Err(t) => r matches Err(e) && e@ == t,
            },
    {
        let written = self.written;
        let digest = md5_finish(self.hasher);
        check_download(total, written, digest.as_slice(), expected_md5)
    }
}

/// An HTML reply is never the archive: the reply is refused exactly when
/// its content type mentions "text/html", whatever the body says; the
/// refusal blames the code only when the page says "Verification failed",
/// and the two refusals read differently.
pub proof fn html_replies_are_refused(content_type: Seq<char>, body: Seq<char>)
    ensures
        reply_refusal(content_type, body) is Some <==> contains_seq(content_type, "text/html"@),
        reply_refusal(content_type, body) matches Some(t) ==> (t == "CAPTCHA verification failed — wrong code."@
            <==> contains_seq(body, "Verification failed"@)),
{
    reveal_strlit("CAPTCHA verification failed — wrong code.");
    reveal_strlit("The download was rejected by the server (HTML response).");
    assert("CAPTCHA verification failed — wrong code."@[0] != "The download was rejected by the server (HTML response)."@[0]);
}

/// The value of an upper-case hexadecimal digit.
pub open spec fn hex_value(c: char) -> int {
    if '0' <= c <= '9' {
        c as int - '0' as int
    } else {
        c as int - 'A' as int + 10
    }
}

/// A character is a digit or an upper-case letter from `A` to `F`.
pub open spec fn is_upper_hex(c: char) -> bool {
    ('0' <= c <= '9') || ('A' <= c <= 'F')
}

/// Written in hexadecimal, a digest takes two upper-case digits per byte,
/// high digit first, and reading them back gives the byte.
pub proof fn hex_digits_spell_each_byte(bytes: Seq<u8>)
    ensures
        hex_upper(bytes).len() == 2 * bytes.len(),
        forall|k: int| 0 <= k < hex_upper(bytes).len() ==> is_upper_hex(#[trigger] hex_upper(bytes)[k]),
        forall|i: int|
            0 <= i < bytes.len() ==> 16 * hex_value(hex_upper(bytes)[2 * i]) + hex_value(
                hex_upper(bytes)[2 * i + 1],
            ) == #[trigger] bytes[i],
    decreases bytes.len(),
{
    if bytes.len() > 0 {
        let rest = bytes.drop_last();
        hex_digits_spell_each_byte(rest);
        let b = bytes.last();
        let hi = hex_digit((b / 16) as nat);
        let lo = hex_digit((b % 16) as nat);
        let h = hex_upper(bytes);
        assert(h == hex_upper(rest) + seq![hi, lo]);
        assert(is_upper_hex(hi) && hex_value(hi) == b / 16);
        assert(is_upper_hex(lo) && hex_value(lo) == b % 16);
        assert forall|k: int| 0 <= k < h.len() implies is_upper_hex(#[trigger] h[k]) by {
            if k < hex_upper(rest).len() {
                assert(h[k] == hex_upper(rest)[k]);
            }
        }
        assert forall|i: int| 0 <= i < bytes.len() implies 16 * hex_value(h[2 * i]) + hex_value(
            h[2 * i + 1],
        ) == #[trigger] bytes[i] by {
            if i < rest.len() {
                assert(h[2 * i] == hex_upper(rest)[2 * i]);
                assert(h[2 * i + 1] == hex_upper(rest)[2 * i + 1]);
                assert(rest[i] == bytes[i]);
            } else {
                assert(h[2 * i] == hi);
                assert(h[2 * i + 1] == lo);
            }
        }
    }
}

/// A finished download is accepted exactly when every announced byte
/// arrived (or no size was announced) and, when the catalog gives an MD5,
/// the digest matches it ignoring case and surrounding space; a short
/// download is reported before a wrong digest.
pub proof fn downloads_are_accepted_when_whole_and_matching(
    total: u64,
    written: u64,
    digest: Seq<u8>,
    expected: Seq<char>,
)
    ensures
        download_verdict(total, written, digest, expected) is Ok <==> (total == 0 || written == total)
            && (expected.len() == 0 || eq_ignore_ascii_case_seq(hex_upper(digest), trim(expected))),
        total > 0 && written != total ==> (download_verdict(total, written, digest, expected)
            matches Err(t) && has_prefix(t, "Incomplete download: "@)),
{
    reveal_strlit("Incomplete download: ");
    if total > 0 && written != total {
        let t = "Incomplete download: "@ + decimal(written as nat) + " of "@ + decimal(total as nat)
            + " bytes"@;
        assert(t.subrange(0, 21) =~= "Incomplete download: "@);
    }
}

} // verus!
