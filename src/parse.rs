//! The validation contract shared by every symbology: an accepted length
//! range, an accepted alphabet, and one algorithm that checks text against
//! both.
use vstd::prelude::*;
use crate::error::Error;

verus! {

/// Input rules of a symbology.
pub trait Parse: Sized {
    /// Smallest accepted number of characters.
    spec fn min_len() -> nat;

    /// One past the largest accepted number of characters.
    spec fn max_len() -> nat;

    /// Whether `c` belongs to the symbology's alphabet.
    spec fn accepts(c: char) -> bool;

    /// The accepted numbers of characters, `start` inclusive, `end` exclusive.
    fn valid_len() -> (r: std::ops::Range<u32>)
        ensures
            r.start as nat == Self::min_len(),
            r.end as nat == Self::max_len(),
    ;

    /// The characters of the alphabet, each once.
    fn valid_chars() -> (r: Vec<char>)
        ensures
            forall|c: char| r@.contains(c) <==> Self::accepts(c),
            r@.no_duplicates(),
    ;
}

/// Whether the number of characters of `s` lies in `P`'s accepted range.
pub open spec fn len_ok<P: Parse>(s: Seq<char>) -> bool {
    P::min_len() <= s.len() < P::max_len()
}

/// Whether position `i` holds the first character of `s` outside `P`'s
/// alphabet.
pub open spec fn first_rejected<P: Parse>(s: Seq<char>, i: int) -> bool {
    &&& 0 <= i < s.len()
    &&& !P::accepts(s[i])
    &&& forall|j: int| 0 <= j < i ==> P::accepts(#[trigger] s[j])
}

/// The outcome of checking `s` against `P`'s rules: the length first, then
/// the first character outside the alphabet, if any.
pub open spec fn validate<P: Parse>(s: Seq<char>) -> Result<(), Error> {
    if !len_ok::<P>(s) {
        Err(Error::InvalidLength)
    } else if exists|i: int| first_rejected::<P>(s, i) {
        let i = choose|i: int| first_rejected::<P>(s, i);
        Err(Error::InvalidCharacter { position: i as usize, character: s[i] })
    } else {
        Ok(())
    }
}

/// Checks `data` against `P`'s length range, then character by character
/// against its alphabet. Returns `data` itself when it passes.
pub fn parse<P: Parse>(data: &str) -> (r: Result<&str, Error>)
    ensures
        match r {
            Ok(s) => s@ == data@ && validate::<P>(data@) is Ok,
            Err(e) => validate::<P>(data@) == Err::<(), Error>(e),
        },
{
    let range = P::valid_len();
    let n: usize = data.unicode_len();
    if n < range.start as usize || n >= range.end as usize {
        return Err(Error::InvalidLength);
    }
    let alphabet = P::valid_chars();
    let mut i: usize = 0;
    while i < n
        invariant
            n == data@.len(),
            len_ok::<P>(data@),
            i <= n,
            forall|c: char| alphabet@.contains(c) <==> P::accepts(c),
            forall|j: int| 0 <= j < i ==> P::accepts(#[trigger] data@[j]),
        decreases n - i,
    {
        let c = data.get_char(i);
        if !contains_char(&alphabet, c) {
            proof {
                assert(first_rejected::<P>(data@, i as int));
                let k = choose|k: int| first_rejected::<P>(data@, k);
                assert(k == i as int) by {
                    if k < i as int {
                        assert(P::accepts(data@[k]));
                    } else if k > i as int {
                        assert(P::accepts(data@[i as int]));
                    }
                }
            }
            return Err(Error::InvalidCharacter { position: i, character: c });
        }
        i = i + 1;
    }
    Ok(data)
}

/// Whether `alphabet` holds `c`.
fn contains_char(alphabet: &Vec<char>, c: char) -> (r: bool)
    ensures
        r == alphabet@.contains(c),
{
    let mut i: usize = 0;
    while i < alphabet.len()
        invariant
            i <= alphabet@.len(),
            forall|j: int| 0 <= j < i ==> alphabet@[j] != c,
        decreases alphabet@.len() - i,
    {
        if alphabet[i] == c {
            return true;
        }
        i = i + 1;
    }
    false
}

} // verus!
