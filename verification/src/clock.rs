use vstd::prelude::*;

verus! {

/// A character that the bracketed one-second timestamp format can produce:
/// an ASCII digit, the enclosing brackets, the date and time separators, or
/// the sign a year outside 0000..=9999 carries.
pub open spec fn is_timestamp_char(c: char) -> bool {
    ('0' <= c && c <= '9') || c == '[' || c == ']' || c == '-' || c == 'T' || c == ':' || c == '+'
}

/// Relies on chrono's `Utc::now` formatted with `"[%Y-%m-%dT%H:%M:%S]"`:
/// a bracketed date and time of zero-padded numeric fields (the year at
/// least four digits, signed outside 0000..=9999) joined by literal
/// `-`, `T` and `:` separators. The value depends on the clock, so nothing
/// is said about which instant it names.
#[verifier::external_body]
pub(crate) fn now_timestamp() -> (r: String)
    ensures
        r@.len() >= 21,
        r@[0] == '[',
        r@[r@.len() - 1] == ']',
        forall|i: int| 0 <= i < r@.len() ==> is_timestamp_char(#[trigger] r@[i]),
{
    chrono::Utc::now().format("[%Y-%m-%dT%H:%M:%S]").to_string()
}

} // verus!
