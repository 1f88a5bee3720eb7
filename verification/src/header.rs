//! HTTP header values and header maps, as the `http` crate (through
//! `poem::http`) holds them.

use vstd::prelude::*;

use poem::http::{HeaderMap, HeaderValue};
use vstd::utf8::{encode_utf8, is_ascii_chars, is_ascii_chars_encode_utf8};

verus! {

#[verifier::external_type_specification]
#[verifier::external_body]
pub struct ExHeaderValue(poem::http::HeaderValue);

#[verifier::external_type_specification]
#[verifier::external_body]
#[verifier::reject_recursive_types(T)]
pub struct ExHeaderMap<T>(poem::http::HeaderMap<T>);

/// A byte that the `http` crate accepts in a header value: a visible
/// character, a space or a tab, or any byte of 128 and above.
pub open spec fn header_value_byte(b: u8) -> bool {
    (b >= 32 && b != 127) || b == 9
}

/// A text whose UTF-8 bytes all may stand in a header value.
pub open spec fn valid_header_value(s: Seq<char>) -> bool {
    forall|i: int| 0 <= i < encode_utf8(s).len() ==> header_value_byte(#[trigger] encode_utf8(s)[i])
}

/// An ASCII text may stand in a header value exactly when each of its
/// characters is a tab, a space or a visible character (not DEL or any
/// other control character).
pub proof fn lemma_ascii_header_value(s: Seq<char>)
    requires
        is_ascii_chars(s),
    ensures
        valid_header_value(s) <==> forall|i: int|
            0 <= i < s.len() ==> ((#[trigger] s[i] as int) >= 32 && s[i] as int != 127) || s[i]
                == '\t',
{
    is_ascii_chars_encode_utf8(s);
    let b = encode_utf8(s);
    assert forall|i: int| 0 <= i < s.len() implies (b[i] as int) == (#[trigger] s[i] as int) by {
        let c = s[i];
        assert('\0' <= c <= '\u{7f}');
        let v = c as u32;
        assert(v < 128);
        assert(v as u8 as int == v as int) by (bit_vector)
            requires
                v < 128,
        ;
        assert(b[i] == c as u8);
    }
    if valid_header_value(s) {
        assert forall|i: int| 0 <= i < s.len() implies ((#[trigger] s[i] as int) >= 32 && s[i] as int
            != 127) || s[i] == '\t' by {
            assert(header_value_byte(b[i]));
            if s[i] as int == 9 {
                assert(s[i] == '\t');
            }
        }
    }
}

/// The text where it may stand in a header value, else nothing.
pub open spec fn valid_header_text(text: Option<Seq<char>>) -> Option<Seq<char>> {
    match text {
        Some(s) => if valid_header_value(s) {
            Some(s)
        } else {
            None
        },
        None => None,
    }
}

/// A character that a header name given as a static lower-case text may
/// hold: a lower-case letter, a digit, or one of ``!#$%&'*+-.^_`|~``.
pub open spec fn header_name_char(c: char) -> bool {
    ('a' <= c && c <= 'z') || ('0' <= c && c <= '9') || c == '!' || c == '#' || c == '$' || c
        == '%' || c == '&' || c == '\'' || c == '*' || c == '+' || c == '-' || c == '.' || c
        == '^' || c == '_' || c == '`' || c == '|' || c == '~'
}

/// A header name that `HeaderMap::insert` takes as a `&'static str`
/// without panicking and keeps as it is: 1 to 64 characters, each a
/// [`header_name_char`].
pub open spec fn static_header_name(s: Seq<char>) -> bool {
    1 <= s.len() <= 64 && forall|i: int| 0 <= i < s.len() ==> header_name_char(#[trigger] s[i])
}

/// The most distinct names a header map may hold before an insertion
/// without `HeaderMap::insert` possibly running out of room and panicking.
pub open spec fn header_map_name_limit() -> nat {
    6553
}

/// The bytes that a header value holds.
pub uninterp spec fn header_value_bytes(v: HeaderValue) -> Seq<u8>;

/// What a header map holds: for each header name (lower case), its values'
/// bytes in order.
pub uninterp spec fn header_map_contents(m: HeaderMap) -> Map<Seq<char>, Seq<Seq<u8>>>;

/// `http::HeaderValue::from_str` (through `poem::http`), its error mapped to
/// `None`. That function checks each byte of `s` with `is_valid`
/// (`b >= 32 && b != 127 || b == b'\t'`), fails if any byte fails it, and
/// otherwise holds a copy of the bytes of `s`; this is what the contract
/// claims.
#[verifier::external_body]
pub(crate) fn header_value_from_str(s: &str) -> (r: Option<HeaderValue>)
    ensures
        r is Some <==> valid_header_value(s@),
        r matches Some(v) ==> header_value_bytes(v) == encode_utf8(s@),
{
    HeaderValue::from_str(s).ok()
}

/// `http::HeaderMap::insert` (through `poem::http`) with a static name.
/// The name is lower-cased through the `HEADER_CHARS` table, which leaves a
/// [`static_header_name`] as it is and panics on a character outside it;
/// the insertion replaces every value under that name by `value`. It
/// panics ("size overflows MAX_SIZE") only where the map must grow beyond
/// 32768 slots, which a map with fewer than [`header_map_name_limit`] names
/// never does. The previous value, which the call returns, is dropped.
#[verifier::external_body]
pub(crate) fn header_map_insert(map: &mut HeaderMap, name: &'static str, value: HeaderValue)
    requires
        static_header_name(name@),
        header_map_contents(*old(map)).dom().finite(),
        header_map_contents(*old(map)).dom().len() < header_map_name_limit(),
    ensures
        header_map_contents(*final(map)) == header_map_contents(*old(map)).insert(
            name@,
            seq![header_value_bytes(value)],
        ),
{
    map.insert(name, value);
}

} // verus!
