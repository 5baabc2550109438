use vstd::prelude::*;
use unicode_segmentation::UnicodeSegmentation;

verus! {

/// The first extended grapheme cluster of a string, as Unicode text
/// segmentation divides it; what it is for a given string is known only
/// through `first_grapheme` below.
pub uninterp spec fn grapheme_first(s: Seq<char>) -> Seq<char>;

/// Relies on unicode-segmentation's `UnicodeSegmentation::graphemes`: the
/// iterator yields consecutive non-empty subslices of the string, so its
/// first item exists exactly when the string is non-empty, is a non-empty
/// prefix of it, and depends on the characters alone.
#[verifier::external_body]
pub(crate) fn first_grapheme(s: &str) -> (r: Option<String>)
    ensures
        r is Some <==> s@.len() > 0,
        r matches Some(g) ==> g@ == grapheme_first(s@) && 0 < g@.len() <= s@.len() && g@
            == s@.subrange(0, g@.len() as int),
{
    s.graphemes(true).next().map(|g| g.to_string())
}

} // verus!
