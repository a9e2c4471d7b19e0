//! Name-pattern classification.
//!
//! A [`Pattern`] wraps a compiled regular expression together with its
//! source text. The base identity of a file name is the part before the
//! first match of the pattern (the default pattern recognizes numeric
//! parenthetical suffixes such as `(1).jpg`), or the name with its
//! extension stripped when the pattern does not match or matches at the
//! very start. Two names with the same base identity are provisional
//! duplicates without any content being read.

use vstd::prelude::*;
use crate::bytes::{rfind, lemma_rfind, rfind_byte, prefix_bytes};

verus! {

/// Whether `regex::bytes::Regex::new` accepts a pattern. Compilation
/// succeeds or fails depending on the pattern text alone.
pub uninterp spec fn pattern_accepts(pattern: Seq<char>) -> bool;

/// The byte offset at which the first match of a compiled pattern starts
/// in a name, if the pattern matches at all. The offset is a function of
/// the pattern and the name alone.
pub uninterp spec fn match_start(pattern: Seq<char>, name: Seq<u8>) -> Option<int>;

/// A compiled name pattern.
pub struct Pattern {
    re: regex::bytes::Regex,
    source: String,
}

#[verifier::external_type_specification]
#[verifier::external_body]
pub struct ExRegex(regex::bytes::Regex);

impl View for Pattern {
    type V = Seq<char>;

    closed spec fn view(&self) -> Seq<char> {
        self.source@
    }
}

impl Pattern {
    /// Relies on `regex::bytes::Regex::new`: it returns `Ok` exactly when
    /// the pattern is a valid regular expression within the default size
    /// limit, and the compiled value searches for that pattern.
    #[verifier::external_body]
    pub fn new(pattern: &str) -> (r: Option<Pattern>)
        ensures
            r is Some <==> pattern_accepts(pattern@),
            r matches Some(p) ==> p@ == pattern@,
    {
        match regex::bytes::Regex::new(pattern) {
            Ok(re) => Some(Pattern { re, source: pattern.to_string() }),
            Err(_) => None,
        }
    }

    /// Relies on `regex::bytes::Regex::find`: it returns the leftmost
    /// match, whose start offset never exceeds the haystack length, and
    /// the result is a function of the pattern and the haystack alone.
    #[verifier::external_body]
    pub fn find_start(&self, name: &Vec<u8>) -> (r: Option<usize>)
        ensures
            r is Some <==> match_start(self@, name@) is Some,
            r matches Some(i) ==> match_start(self@, name@) == Some(i as int) && i <= name@.len(),
    {
        self.re.find(name.as_slice()).map(|m| m.start())
    }
}

/// A name with its extension stripped: everything before the last dot,
/// or the whole name when it has no dot.
pub open spec fn strip_extension(name: Seq<u8>) -> Seq<u8> {
    match rfind(name, crate::records::DOT) {
        Some(d) => name.subrange(0, d),
        None => name,
    }
}

/// The base identity of a file name under a pattern: the part before the
/// pattern's first match when that part is non-empty, and the name with
/// its extension stripped otherwise.
pub open spec fn base_identity_spec(pattern: Seq<char>, name: Seq<u8>) -> Seq<u8> {
    if match_start(pattern, name) matches Some(i) && 0 < i <= name.len() {
        name.subrange(0, match_start(pattern, name)->Some_0)
    } else {
        strip_extension(name)
    }
}

/// Strips the extension of a name.
pub fn strip_extension_exec(name: &Vec<u8>) -> (r: Vec<u8>)
    ensures
        r@ == strip_extension(name@),
{
    proof {
        lemma_rfind(name@, crate::records::DOT);
    }
    match rfind_byte(name, crate::records::DOT) {
        Some(d) => prefix_bytes(name, d),
        None => {
            let r = prefix_bytes(name, name.len());
            proof {
                assert(r@ =~= name@);
            }
            r
        },
    }
}

/// Computes the base identity of a file name under a pattern.
pub fn base_identity(pattern: &Pattern, name: &Vec<u8>) -> (r: Vec<u8>)
    ensures
        r@ == base_identity_spec(pattern@, name@),
{
    match pattern.find_start(name) {
        Some(i) => {
            if i > 0 {
                prefix_bytes(name, i)
            } else {
                strip_extension_exec(name)
            }
        },
        None => strip_extension_exec(name),
    }
}

} // verus!
