//! The points where the library calls into other crates and into parts of
//! std that carry no specification. Each item here is believed as stated,
//! not proved; its doc comment says what is claimed of the called code.

use vstd::prelude::*;

verus! {

/// `serde_json::Value`, carried through the library as an opaque value.
#[verifier::external_type_specification]
#[verifier::external_body]
pub struct ExJsonValue(serde_json::Value);

/// Calls `chrono::Utc::now` and splits the result into whole seconds since
/// the Unix epoch (`DateTime::timestamp`) and the nanoseconds past them
/// (`DateTime::timestamp_subsec_nanos`). The time comes from the clock, so
/// only what chrono's source shows of every outcome is claimed: `now` takes
/// the clock's duration since the epoch (so the seconds are not negative) and
/// builds the time from its seconds and its sub-second nanoseconds (so those
/// stay below one billion). chrono panics when the system clock reads before
/// 1970; no argument can rule that out.
#[verifier::external_body]
pub(crate) fn utc_now_parts() -> (t: (i64, u32))
    ensures
        t.0 >= 0,
        t.1 < 1_000_000_000,
{
    let now = chrono::Utc::now();
    (now.timestamp(), now.timestamp_subsec_nanos())
}

/// A lowercase hexadecimal digit.
pub open spec fn is_lower_hex_digit(c: char) -> bool {
    ('0' <= c && c <= '9') || ('a' <= c && c <= 'f')
}

/// The text of a version-4 UUID in the hyphenated lowercase form: 36
/// characters, `-` at positions 8, 13, 18 and 23, the version digit `4` at
/// position 14, one of `8`, `9`, `a`, `b` at position 19, and lowercase
/// hexadecimal digits everywhere else.
pub open spec fn is_v4_uuid_text(s: Seq<char>) -> bool {
    &&& s.len() == 36
    &&& s[8] == '-'
    &&& s[13] == '-'
    &&& s[18] == '-'
    &&& s[23] == '-'
    &&& s[14] == '4'
    &&& (s[19] == '8' || s[19] == '9' || s[19] == 'a' || s[19] == 'b')
    &&& forall|i: int|
        0 <= i < 36 && i != 8 && i != 13 && i != 18 && i != 23 ==> is_lower_hex_digit(
            #[trigger] s[i],
        )
}

/// Calls `uuid::Uuid::new_v4` and formats the result with its `Display`
/// impl (`ToString::to_string`). The value is random; what holds of every
/// outcome is what the uuid source shows: `new_v4` sets the version nibble
/// to 4 and the variant bits to `10`, and `Display` writes the hyphenated
/// lowercase hexadecimal form. The uuid crate panics when the operating
/// system's random source fails; no argument can rule that out.
#[verifier::external_body]
pub(crate) fn new_v4_string() -> (s: String)
    ensures
        is_v4_uuid_text(s@),
{
    uuid::Uuid::new_v4().to_string()
}

/// What std's `str::to_lowercase` returns for a text: its Unicode
/// lowercase mapping, a function of the text alone.
pub uninterp spec fn lowercase(s: Seq<char>) -> Seq<char>;

/// Calls std's `str::to_lowercase`. The result is claimed to be the named
/// mapping `lowercase` of the argument; the mapping itself is left unstated.
#[verifier::external_body]
pub(crate) fn to_lowercase(s: &str) -> (r: String)
    ensures
        r@ == lowercase(s@),
{
    s.to_lowercase()
}

} // verus!
