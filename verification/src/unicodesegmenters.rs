//! Segmenting input strings into Unicode graphemes
//!
//! This module turns `String` data into Unicode-segmented `String` vectors, using the
//! extended grapheme clusters of the `unicode_segmentation` crate.
use vstd::prelude::*;

use unicode_segmentation::UnicodeSegmentation;

verus! {

/// The extended grapheme clusters of a text, in order, as `unicode_segmentation` computes them
/// (Unicode Standard Annex #29).
pub uninterp spec fn extended_graphemes(text: Seq<char>) -> Seq<Seq<char>>;

/// The clusters of a text, concatenated in order, give the text back.
pub open spec fn covers(clusters: Seq<Seq<char>>, text: Seq<char>) -> bool {
    clusters.flatten() == text
}

/// No cluster is empty.
pub open spec fn all_nonempty(clusters: Seq<Seq<char>>) -> bool {
    forall|i: int| 0 <= i < clusters.len() ==> (#[trigger] clusters[i]).len() > 0
}

/// Calls `UnicodeSegmentation::graphemes(input, true)` and collects the clusters as owned
/// strings. The result is named `extended_graphemes(input@)`; the facts claimed besides are
/// those the crate's iterator shows: each cluster is a non-empty slice of the input starting
/// where the previous one ended, and the clusters reach the end of the input.
#[verifier::external_body]
fn extended_grapheme_clusters(input: &str) -> (r: Vec<String>)
    ensures
        r@.map_values(|s: String| s@) == extended_graphemes(input@),
        covers(r@.map_values(|s: String| s@), input@),
        all_nonempty(r@.map_values(|s: String| s@)),
{
    UnicodeSegmentation::graphemes(input, true).map(String::from).collect()
}

/// Segments a string slice into Unicode extended grapheme clusters.
///
/// The result is the sequence `extended_graphemes(input@)`: non-empty clusters that,
/// concatenated in order, give back the input.
///
/// # Examples
/// ```
/// use envlang::unicodesegmenters::segment_graphemes;
///
/// let input = "Hello, 世界!";
/// let segments = segment_graphemes(input);
/// assert_eq!(segments.join(""), input);
/// ```
pub fn segment_graphemes(input: &str) -> (segments: Vec<String>)
    ensures
        segments@.map_values(|s: String| s@) == extended_graphemes(input@),
        covers(segments@.map_values(|s: String| s@), input@),
        all_nonempty(segments@.map_values(|s: String| s@)),
{
    extended_grapheme_clusters(input)
}

} // verus!
