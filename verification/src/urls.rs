//! Links: taking them apart, and which ones are handed to the system.
use vstd::prelude::*;

use crate::inputs::OpenExternalUrlInput;
use crate::model::{IpcError, IpcErrorKind};
use crate::text;
use crate::text::{from_utf8_lossy, starts_with, str_eq, to_ascii_lower, trim};

verus! {

/// The parts of a link that the program reads. The query is decoded.
#[derive(Debug, PartialEq, Eq)]
pub struct UrlParts {
    pub scheme: String,
    pub path: String,
    pub pairs: Vec<(String, String)>,
}

/// The contents of a list of pairs.
pub open spec fn pairs_of(v: Seq<(String, String)>) -> Seq<(Seq<char>, Seq<char>)> {
    v.map_values(|p: (String, String)| (p.0@, p.1@))
}

/// What `url` makes of a text: scheme, path and decoded query, or why it is no
/// link.
pub uninterp spec fn url_parts(input: Seq<char>) -> Result<
    (Seq<char>, Seq<char>, Seq<(Seq<char>, Seq<char>)>),
    Seq<char>,
>;

/// `url::Url::parse`, with the link's `scheme`, `path` and `query_pairs`, and
/// the text of its error: all of them are functions of the input.
#[verifier::external_body]
pub(crate) fn split_url(input: &str) -> (r: Result<UrlParts, String>)
    ensures
        match r {
            Ok(u) => url_parts(input@) == Ok::<
                (Seq<char>, Seq<char>, Seq<(Seq<char>, Seq<char>)>),
                Seq<char>,
            >((u.scheme@, u.path@, pairs_of(u.pairs@))),
            Err(e) => url_parts(input@) == Err::<
                (Seq<char>, Seq<char>, Seq<(Seq<char>, Seq<char>)>),
                Seq<char>,
            >(e@),
        },
{
    match url::Url::parse(input) {
        Ok(u) => Ok(
            UrlParts {
                scheme: u.scheme().to_string(),
                path: u.path().to_string(),
                pairs: u.query_pairs().map(|p| (p.0.into_owned(), p.1.into_owned())).collect(),
            },
        ),
        Err(e) => Err(e.to_string()),
    }
}

// ---------------------------------------------------------------------
// Percent-encoding
// ---------------------------------------------------------------------

/// The value of a hexadecimal digit.
pub open spec fn hex_value(b: u8) -> Option<u8> {
    if 48 <= b <= 57 {
        Some((b - 48) as u8)
    } else if 65 <= b <= 70 {
        Some((b - 55) as u8)
    } else if 97 <= b <= 102 {
        Some((b - 87) as u8)
    } else {
        None
    }
}

/// The bytes with each `%` and two hexadecimal digits replaced by the byte
/// that the digits give. Any other `%` stands for itself.
pub open spec fn unescaped(bytes: Seq<u8>) -> Seq<u8>
    decreases bytes.len(),
{
    if bytes.len() == 0 {
        Seq::empty()
    } else if bytes.len() >= 3 && bytes[0] == 37 && hex_value(bytes[1]) is Some && hex_value(
        bytes[2],
    ) is Some {
        seq![(16 * hex_value(bytes[1])->0 + hex_value(bytes[2])->0) as u8] + unescaped(
            bytes.skip(3),
        )
    } else {
        seq![bytes[0]] + unescaped(bytes.skip(1))
    }
}

/// A text without its percent-encoding.
pub open spec fn percent_decoded(s: Seq<char>) -> Seq<char> {
    text::text_of_bytes(unescaped(vstd::utf8::encode_utf8(s)))
}

/// See [`hex_value`].
fn hex_digit(b: u8) -> (r: Option<u8>)
    ensures
        r == hex_value(b),
        r is Some ==> r->0 < 16,
{
    if 48 <= b && b <= 57 {
        Some(b - 48)
    } else if 65 <= b && b <= 70 {
        Some(b - 55)
    } else if 97 <= b && b <= 102 {
        Some(b - 87)
    } else {
        None
    }
}

/// See [`unescaped`].
pub fn unescape(bytes: &[u8]) -> (r: Vec<u8>)
    ensures
        r@ == unescaped(bytes@),
{
    let mut r: Vec<u8> = Vec::new();
    let mut i: usize = 0;
    assert(bytes@.skip(0) =~= bytes@);
    while i < bytes.len()
        invariant
            i <= bytes@.len(),
            r@ + unescaped(bytes@.skip(i as int)) == unescaped(bytes@),
        decreases bytes@.len() - i,
    {
        let ghost rest = bytes@.skip(i as int);
        let ghost before = r@;
        if bytes.len() - i >= 3 && bytes[i] == 37 {
            if let (Some(high), Some(low)) = (hex_digit(bytes[i + 1]), hex_digit(bytes[i + 2])) {
                let b: u8 = 16 * high + low;
                r.push(b);
                i = i + 3;
                assert(rest.skip(3) =~= bytes@.skip(i as int));
                assert(before + (seq![b] + unescaped(rest.skip(3))) =~= r@ + unescaped(
                    rest.skip(3),
                ));
                continue;
            }
        }
        r.push(bytes[i]);
        i = i + 1;
        assert(rest.skip(1) =~= bytes@.skip(i as int));
        assert(before + (seq![rest[0]] + unescaped(rest.skip(1))) =~= r@ + unescaped(rest.skip(1)));
    }
    assert(r@ + unescaped(bytes@.skip(bytes@.len() as int)) =~= r@);
    r
}

/// See [`percent_decoded`].
pub fn percent_decode(s: &str) -> (r: String)
    ensures
        r@ == percent_decoded(s@),
{
    let bytes = unescape(s.as_bytes());
    from_utf8_lossy(&bytes)
}

/// A hexadecimal digit.
pub open spec fn hex_byte(d: int) -> u8 {
    if d < 10 {
        (48 + d) as u8
    } else {
        (55 + d) as u8
    }
}

/// Each byte as a `%` and two hexadecimal digits.
pub open spec fn escaped(bytes: Seq<u8>) -> Seq<u8>
    decreases bytes.len(),
{
    if bytes.len() == 0 {
        Seq::empty()
    } else {
        seq![37u8, hex_byte(bytes[0] as int / 16), hex_byte(bytes[0] as int % 16)] + escaped(
            bytes.skip(1),
        )
    }
}

/// Every text reads back from its percent-encoding.
pub proof fn law_percent_encoding_reads_back(s: Seq<char>)
    ensures
        text::text_of_bytes(unescaped(escaped(vstd::utf8::encode_utf8(s)))) == s,
{
    lemma_escaped_bytes_read_back(vstd::utf8::encode_utf8(s));
    vstd::utf8::encode_utf8_valid_utf8(s);
    vstd::utf8::encode_utf8_decode_utf8(s);
}

/// [`unescaped`] undoes [`escaped`].
proof fn lemma_escaped_bytes_read_back(bytes: Seq<u8>)
    ensures
        unescaped(escaped(bytes)) == bytes,
    decreases bytes.len(),
{
    if bytes.len() > 0 {
        lemma_escaped_bytes_read_back(bytes.skip(1));
        let e = escaped(bytes);
        assert(e.skip(3) =~= escaped(bytes.skip(1)));
        assert(seq![bytes[0]] + bytes.skip(1) =~= bytes);
    }
}

/// A text without a `%` is not changed.
pub proof fn law_plain_text_stays(s: Seq<char>)
    requires
        !s.contains('%'),
    ensures
        percent_decoded(s) == s,
{
    lemma_no_percent(s);
    lemma_unescaped_keeps(vstd::utf8::encode_utf8(s));
    vstd::utf8::encode_utf8_valid_utf8(s);
    vstd::utf8::encode_utf8_decode_utf8(s);
}

/// Bytes without a `%` are not changed.
proof fn lemma_unescaped_keeps(bytes: Seq<u8>)
    requires
        forall|i: int| 0 <= i < bytes.len() ==> #[trigger] bytes[i] != 37,
    ensures
        unescaped(bytes) == bytes,
    decreases bytes.len(),
{
    if bytes.len() > 0 {
        lemma_unescaped_keeps(bytes.skip(1));
        assert(seq![bytes[0]] + bytes.skip(1) =~= bytes);
    }
}

/// Only a `%` is encoded with its byte.
proof fn lemma_no_percent(s: Seq<char>)
    requires
        !s.contains('%'),
    ensures
        forall|i: int|
            0 <= i < vstd::utf8::encode_utf8(s).len() ==> #[trigger] vstd::utf8::encode_utf8(
                s,
            )[i] != 37,
    decreases s.len(),
{
    if s.len() > 0 {
        assert(s[0] != '%');
        assert forall|c: char| s.drop_first().contains(c) implies s.contains(c) by {
            let k = choose|k: int| 0 <= k < s.drop_first().len() && s.drop_first()[k] == c;
            assert(s[k + 1] == c);
        }
        lemma_no_percent(s.drop_first());
        lemma_scalar_bytes(s[0]);
        let all = vstd::utf8::encode_utf8(s);
        let first = vstd::utf8::encode_scalar(s[0] as u32);
        let rest = vstd::utf8::encode_utf8(s.drop_first());
        assert(all == first + rest);
        assert forall|i: int| 0 <= i < all.len() implies #[trigger] all[i] != 37 by {
            if i < first.len() {
                assert(all[i] == first[i]);
            } else {
                assert(all[i] == rest[i - first.len()]);
            }
        }
    }
}

/// The bytes of a character beyond ASCII are beyond ASCII, and an ASCII
/// character is its byte.
proof fn lemma_scalar_bytes(c: char)
    requires
        c != '%',
    ensures
        forall|i: int|
            0 <= i < vstd::utf8::encode_scalar(c as u32).len() ==> (
            #[trigger] vstd::utf8::encode_scalar(c as u32)[i]) != 37,
{
    let v = c as u32;
    vstd::utf8::char_u32_cast(c, v);
    assert(v != 37);
    assert(v <= 0x7f && v != 37 ==> (v & 0x7F) as u8 != 37) by (bit_vector);
    assert(vstd::utf8::leading_byte_width_2(v) != 37) by (bit_vector);
    assert(vstd::utf8::leading_byte_width_3(v) != 37) by (bit_vector);
    assert(vstd::utf8::leading_byte_width_4(v) != 37) by (bit_vector);
    assert(vstd::utf8::last_continuation_byte(v) != 37) by (bit_vector);
    assert(vstd::utf8::second_last_continuation_byte(v) != 37) by (bit_vector);
    assert(vstd::utf8::third_last_continuation_byte(v) != 37) by (bit_vector);
}

// ---------------------------------------------------------------------
// Links that leave the program
// ---------------------------------------------------------------------

/// A link that may be opened outside the program.
#[derive(Debug, PartialEq, Eq)]
pub enum ExternalUrl {
    /// Opened as it is.
    AsIs(String),
    /// A web address; tracking parameters are taken out first.
    Web(String),
}

/// `raw` starts with `prefix`, whatever the case of its ASCII letters.
pub open spec fn has_prefix(raw: Seq<char>, prefix: Seq<char>) -> bool {
    prefix.is_prefix_of(text::ascii_lowered(raw))
}

/// Only these links leave the program.
pub open spec fn may_leave(raw: Seq<char>) -> bool {
    has_prefix(raw, "http://"@) || has_prefix(raw, "https://"@) || has_prefix(raw, "mailto:"@)
}

/// What becomes of a link that was clicked, given whether it parses.
pub open spec fn clicked(raw: Seq<char>, parses: bool) -> Option<(bool, Seq<char>)> {
    if !may_leave(raw) {
        None
    } else {
        Some((!has_prefix(raw, "mailto:"@) && parses, raw))
    }
}

/// A link from a message, checked: other schemes than `http`, `https` and
/// `mailto` are refused. White space around it is dropped.
pub fn checked_link(url: &str, parses: bool) -> (r: Result<ExternalUrl, IpcError>)
    ensures
        match r {
            Ok(ExternalUrl::Web(t)) => clicked(text::trimmed(url@), parses) == Some((true, t@)),
            Ok(ExternalUrl::AsIs(t)) => clicked(text::trimmed(url@), parses) == Some((false, t@)),
            Err(e) => {
                &&& clicked(text::trimmed(url@), parses) is None
                &&& e.kind == IpcErrorKind::Permission
                &&& e.message@ == "unsupported URL scheme: "@ + text::trimmed(url@)
            },
        },
{
    let raw = trim(url);
    let lower = to_ascii_lower(raw.as_str());
    let mail = starts_with(lower.as_str(), "mailto:");
    if !(starts_with(lower.as_str(), "http://") || starts_with(lower.as_str(), "https://")
        || mail) {
        let mut message = "unsupported URL scheme: ".to_owned();
        message.append(raw.as_str());
        return Err(IpcError { kind: IpcErrorKind::Permission, message });
    }
    if !mail && parses {
        Ok(ExternalUrl::Web(raw))
    } else {
        Ok(ExternalUrl::AsIs(raw))
    }
}

/// What is opened for a link from a message, or why it is refused. A web
/// address that does not parse is opened as it is.
pub fn external_url(input: &OpenExternalUrlInput) -> (r: Result<ExternalUrl, IpcError>)
    ensures
        ({
            let raw = text::trimmed(input.url@);
            let outcome = clicked(raw, url_parts(raw) is Ok);
            match r {
                Ok(ExternalUrl::Web(t)) => outcome == Some((true, t@)),
                Ok(ExternalUrl::AsIs(t)) => outcome == Some((false, t@)),
                Err(e) => {
                    &&& outcome is None
                    &&& e.kind == IpcErrorKind::Permission
                    &&& e.message@ == "unsupported URL scheme: "@ + raw
                },
            }
        }),
{
    let raw = trim(input.url.as_str());
    let parses = split_url(raw.as_str()).is_ok();
    checked_link(input.url.as_str(), parses)
}

/// The report of a link that could not be opened.
pub fn open_failed(reason: &str) -> (r: IpcError)
    ensures
        r.kind == IpcErrorKind::Internal,
        r.message@ == "failed to open URL: "@ + reason@,
{
    let mut message = "failed to open URL: ".to_owned();
    message.append(reason);
    IpcError { kind: IpcErrorKind::Internal, message }
}

/// May a link that the reader's engine reports be opened?
pub fn is_followed(scheme: &str) -> (r: bool)
    ensures
        r == (scheme@ == "http"@ || scheme@ == "https"@ || scheme@ == "mailto"@),
{
    str_eq(scheme, "http") || str_eq(scheme, "https") || str_eq(scheme, "mailto")
}

/// A text starts with the first character of what it starts with.
proof fn lemma_first_char(prefix: Seq<char>, s: Seq<char>)
    requires
        prefix.len() > 0,
        prefix.is_prefix_of(s),
    ensures
        s.len() > 0,
        s[0] == prefix[0],
{
    assert(s.subrange(0, prefix.len() as int)[0] == s[0]);
}

/// No link but a web or mail address leaves the program: a script or a file
/// named in a message is never opened.
pub proof fn law_scripts_and_files_stay(raw: Seq<char>, parses: bool)
    requires
        has_prefix(raw, "javascript:"@) || has_prefix(raw, "file:"@) || has_prefix(raw, "data:"@),
    ensures
        clicked(raw, parses) is None,
{
    reveal_strlit("javascript:");
    reveal_strlit("file:");
    reveal_strlit("data:");
    reveal_strlit("http://");
    reveal_strlit("https://");
    reveal_strlit("mailto:");
    let low = text::ascii_lowered(raw);
    if may_leave(raw) {
        if has_prefix(raw, "http://"@) {
            lemma_first_char("http://"@, low);
        } else if has_prefix(raw, "https://"@) {
            lemma_first_char("https://"@, low);
        } else {
            lemma_first_char("mailto:"@, low);
        }
        if has_prefix(raw, "javascript:"@) {
            lemma_first_char("javascript:"@, low);
        } else if has_prefix(raw, "file:"@) {
            lemma_first_char("file:"@, low);
        } else {
            lemma_first_char("data:"@, low);
        }
    }
}

/// A web or mail address is opened as it was written, whatever the case of its
/// scheme: a mail address as it is, a web address as it is too unless it can be
/// taken apart, to be cleaned. Nothing else is.
pub proof fn law_web_and_mail_links_are_opened(raw: Seq<char>, parses: bool)
    ensures
        ({
            let low = text::ascii_lowered(raw);
            let web = "http://"@.is_prefix_of(low) || "https://"@.is_prefix_of(low);
            let mail = "mailto:"@.is_prefix_of(low);
            &&& web ==> clicked(raw, parses) == Some((parses, raw))
            &&& mail ==> clicked(raw, parses) == Some((false, raw))
            &&& !web && !mail ==> clicked(raw, parses) is None
        }),
{
    let low = text::ascii_lowered(raw);
    reveal_strlit("http://");
    reveal_strlit("https://");
    reveal_strlit("mailto:");
    if "mailto:"@.is_prefix_of(low) {
        lemma_first_char("mailto:"@, low);
    }
    if "http://"@.is_prefix_of(low) {
        lemma_first_char("http://"@, low);
    }
    if "https://"@.is_prefix_of(low) {
        lemma_first_char("https://"@, low);
    }
}

/// A `%` and two hexadecimal digits, large or small, stand for one byte;
/// everything else stands for itself.
pub proof fn law_hexadecimal_digits_stand_for_a_byte(bytes: Seq<u8>, high: u8, low: u8, rest: Seq<u8>)
    requires
        high < 16,
        low < 16,
    ensures
        high < 10 && low < 10 ==> unescaped(seq![37u8, (48 + high) as u8, (48 + low) as u8] + rest)
            == seq![(16 * high + low) as u8] + unescaped(rest),
        high < 10 && low >= 10 ==> unescaped(seq![37u8, (48 + high) as u8, (55 + low) as u8] + rest)
            == seq![(16 * high + low) as u8] + unescaped(rest),
        high < 10 && low >= 10 ==> unescaped(seq![37u8, (48 + high) as u8, (87 + low) as u8] + rest)
            == seq![(16 * high + low) as u8] + unescaped(rest),
        high >= 10 && low < 10 ==> unescaped(seq![37u8, (55 + high) as u8, (48 + low) as u8] + rest)
            == seq![(16 * high + low) as u8] + unescaped(rest),
        high >= 10 && low < 10 ==> unescaped(seq![37u8, (87 + high) as u8, (48 + low) as u8] + rest)
            == seq![(16 * high + low) as u8] + unescaped(rest),
        high >= 10 && low >= 10 ==> unescaped(seq![37u8, (55 + high) as u8, (55 + low) as u8] + rest)
            == seq![(16 * high + low) as u8] + unescaped(rest),
        high >= 10 && low >= 10 ==> unescaped(seq![37u8, (87 + high) as u8, (87 + low) as u8] + rest)
            == seq![(16 * high + low) as u8] + unescaped(rest),
        ({
            let is_hex = |b: u8| 48 <= b <= 57 || 65 <= b <= 70 || 97 <= b <= 102;
            bytes.len() > 0 && !(bytes.len() >= 3 && bytes[0] == 37 && is_hex(bytes[1]) && is_hex(
                bytes[2],
            )) ==> unescaped(bytes) == seq![bytes[0]] + unescaped(bytes.skip(1))
        }),
        unescaped(Seq::empty()) == Seq::<u8>::empty(),
{
    if high < 10 && low < 10 {
        lemma_escape_parts((48 + high) as u8, (48 + low) as u8, rest);
    } else if high < 10 {
        lemma_escape_parts((48 + high) as u8, (55 + low) as u8, rest);
        lemma_escape_parts((48 + high) as u8, (87 + low) as u8, rest);
    } else if low < 10 {
        lemma_escape_parts((55 + high) as u8, (48 + low) as u8, rest);
        lemma_escape_parts((87 + high) as u8, (48 + low) as u8, rest);
    } else {
        lemma_escape_parts((55 + high) as u8, (55 + low) as u8, rest);
        lemma_escape_parts((87 + high) as u8, (87 + low) as u8, rest);
    }
}

/// What stands in an escape, and behind it.
proof fn lemma_escape_parts(a: u8, b: u8, rest: Seq<u8>)
    ensures
        ({
            let s = seq![37u8, a, b] + rest;
            s.len() >= 3 && s[0] == 37 && s[1] == a && s[2] == b && s.skip(3) == rest
        }),
{
    assert((seq![37u8, a, b] + rest).skip(3) =~= rest);
}

} // verus!
