//! Text as sequences of characters, and the few string operations the parser needs.
use vstd::prelude::*;
use substring::Substring;

verus! {

/// The characters of each string of `strings`, in order.
pub open spec fn texts(strings: Seq<String>) -> Seq<Seq<char>> {
    Seq::new(strings.len(), |i: int| strings[i]@)
}

/// The characters of `s` from position `start` up to, not including, position `end`, both
/// counted in characters and cut down to the length of `s`; nothing where `end <= start`.
pub open spec fn char_range(s: Seq<char>, start: int, end: int) -> Seq<char> {
    if end <= start {
        Seq::empty()
    } else {
        let from = if start < s.len() { start } else { s.len() as int };
        let to = if end < s.len() { end } else { s.len() as int };
        s.subrange(from, to)
    }
}

/// `substring::Substring::substring` on a string slice. The method walks the characters of `s`
/// and cuts at the byte offsets of the characters numbered `start` and `end`, taking the end
/// of the string for an index that lies beyond it, and returns the empty string where
/// `end <= start`: the contract says so over the characters of `s`. It is believed, not proved.
#[verifier::external_body]
pub(crate) fn substring<'a>(s: &'a str, start: usize, end: usize) -> (r: &'a str)
    ensures
        r@ == char_range(s@, start as int, end as int),
{
    Substring::substring(s, start, end)
}

} // verus!
