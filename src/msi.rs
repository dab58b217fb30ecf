//! Encoder for MSI.
//!
//! MSI is used primarily for inventory control, marking storage containers
//! and shelves in warehouse environments.
use vstd::prelude::*;
use crate::error::Error;
use crate::helpers::{join_slices, joined, slice_views};
use crate::parse::{first_rejected, parse, validate, Parse};

verus! {

/// The left-hand guard pattern.
pub const LEFT_GUARD: [u8; 3] = [1, 1, 0];

/// The right-hand guard pattern.
pub const RIGHT_GUARD: [u8; 4] = [1, 0, 0, 1];

/// The pattern of each digit 0-9.
pub const ENCODINGS: [[u8; 12]; 10] = [
    [1, 0, 0, 1, 0, 0, 1, 0, 0, 1, 0, 0],
    [1, 0, 0, 1, 0, 0, 1, 0, 0, 1, 1, 0],
    [1, 0, 0, 1, 0, 0, 1, 1, 0, 1, 0, 0],
    [1, 0, 0, 1, 0, 0, 1, 1, 0, 1, 1, 0],
    [1, 0, 0, 1, 1, 0, 1, 0, 0, 1, 0, 0],
    [1, 0, 0, 1, 1, 0, 1, 0, 0, 1, 1, 0],
    [1, 0, 0, 1, 1, 0, 1, 1, 0, 1, 0, 0],
    [1, 0, 0, 1, 1, 0, 1, 1, 0, 1, 1, 0],
    [1, 1, 0, 1, 0, 0, 1, 0, 0, 1, 0, 0],
    [1, 1, 0, 1, 0, 0, 1, 0, 0, 1, 1, 0],
];

/// The modulus of the check digit.
pub const MOD_10: u8 = 10u8;

/// Whether `c` is one of the characters '0' to '9'.
pub open spec fn is_digit(c: char) -> bool {
    '0' as int <= c as int <= '9' as int
}

/// The digit values of the characters of `s`.
pub open spec fn digit_values(s: Seq<char>) -> Seq<u8> {
    s.map_values(|c: char| (c as int - '0' as int) as u8)
}

/// Whether `d` is a digit sequence an MSI barcode can hold.
pub open spec fn digits_ok(d: Seq<u8>) -> bool {
    &&& 1 <= d.len() < 50
    &&& forall|i: int| 0 <= i < d.len() ==> #[trigger] d[i] <= 9
}

/// The contribution of digit `d` at distance `dist` from the rightmost digit:
/// at an even distance it is doubled and the two decimal digits of the
/// product are added; at an odd distance it counts as it is.
pub open spec fn weight(d: u8, dist: int) -> int {
    if dist % 2 == 0 {
        (2 * d) / 10 + (2 * d) % 10
    } else {
        d as int
    }
}

/// The sum of the weights of all digits of `d`.
pub open spec fn weighted_sum(d: Seq<u8>) -> int
    decreases d.len(),
{
    if d.len() == 0 {
        0
    } else {
        weight(d[0], d.len() - 1) + weighted_sum(d.drop_first())
    }
}

/// The modulo-10 check digit of `d`: 10 less the weighted sum modulo 10.
/// A weighted sum that is a multiple of 10 gives 10.
pub open spec fn check_digit(d: Seq<u8>) -> int {
    10 - weighted_sum(d) % 10
}

/// The pattern of digit `d`.
pub open spec fn pattern(d: int) -> Seq<u8> {
    ENCODINGS@[d]@
}

/// The patterns of the digits of `d`, in order.
pub open spec fn payload_of(d: Seq<u8>) -> Seq<u8>
    decreases d.len(),
{
    if d.len() == 0 {
        Seq::empty()
    } else {
        payload_of(d.drop_last()) + pattern(d.last() as int)
    }
}

/// The modules of a barcode with digits `d`: the left guard, the digits'
/// patterns, the pattern of the check digit, and the right guard. The check
/// digit 10 is drawn with the pattern of 0.
pub open spec fn encoded(d: Seq<u8>) -> Seq<u8> {
    LEFT_GUARD@ + payload_of(d) + pattern(check_digit(d) % 10) + RIGHT_GUARD@
}

/// The MSI barcode type: the digit values of the text it was built from,
/// always 1 to 49 of them, each at most 9.
#[derive(Debug)]
pub struct MSI(Vec<u8>);

impl View for MSI {
    type V = Seq<u8>;

    closed spec fn view(&self) -> Seq<u8> {
        self.0@
    }
}

impl MSI {
    #[verifier::type_invariant]
    spec fn inv(self) -> bool {
        digits_ok(self.0@)
    }

    /// Creates a new barcode from `data`. Fails with `InvalidLength` unless
    /// `data` holds 1 to 49 characters, then with `InvalidCharacter` at the
    /// first character that is not one of '0' to '9'.
    pub fn new(data: &str) -> (r: Result<MSI, Error>)
        ensures
            match r {
                Ok(m) => validate::<MSI>(data@) is Ok && m@ == digit_values(data@),
                Err(e) => validate::<MSI>(data@) == Err::<(), Error>(e),
            },
    {
        match parse::<MSI>(data) {
            Err(e) => Err(e),
            Ok(d) => {
                let n: usize = d.unicode_len();
                let mut digits: Vec<u8> = Vec::new();
                let mut i: usize = 0;
                while i < n
                    invariant
                        n == d@.len(),
                        d@ == data@,
                        validate::<MSI>(data@) is Ok,
                        i <= n,
                        digits@ == digit_values(d@).take(i as int),
                    decreases n - i,
                {
                    proof {
                        lemma_valid_all_digits(d@, i as int);
                    }
                    let c = d.get_char(i);
                    digits.push((c as u32 - '0' as u32) as u8);
                    proof {
                        assert(digits@ =~= digit_values(d@).take(i + 1));
                    }
                    i = i + 1;
                }
                proof {
                    assert(digits@ =~= digit_values(d@));
                    lemma_valid_digits_ok(d@);
                }
                Ok(MSI(digits))
            },
        }
    }

    /// The modulo-10 check digit of the barcode's digits, from 1 to 10.
    pub fn encode_mod10(&self) -> (r: u8)
        ensures
            r == check_digit(self@),
            1 <= r <= 10,
            digits_ok(self@),
    {
        proof {
            use_type_invariant(self);
        }
        let n: usize = self.0.len();
        let mut sum: u32 = 0;
        let mut i: usize = n;
        while i > 0
            invariant
                n == self.0@.len(),
                digits_ok(self.0@),
                i <= n,
                sum == weighted_sum(self.0@.subrange(i as int, n as int)),
                sum <= 9 * (n - i),
            decreases i,
        {
            let d: u8 = self.0[i - 1];
            let add: u32 = if (n - i) % 2 == 0 {
                let multi_2: u8 = d * 2;
                (multi_2 / MOD_10 + multi_2 % MOD_10) as u32
            } else {
                d as u32
            };
            proof {
                let s = self.0@.subrange(i - 1, n as int);
                assert(s.drop_first() =~= self.0@.subrange(i as int, n as int));
                assert(s[0] == d);
            }
            sum = sum + add;
            i = i - 1;
        }
        proof {
            assert(self.0@.subrange(0, n as int) =~= self.0@);
        }
        MOD_10 - (sum % MOD_10 as u32) as u8
    }

    /// Encodes the barcode into a sequence of modules (0 or 1).
    pub fn encode(&self) -> (r: Vec<u8>)
        ensures
            r@ == encoded(self@),
            digits_ok(self@),
    {
        proof {
            use_type_invariant(self);
        }
        let mut payload: Vec<u8> = Vec::new();
        let mut i: usize = 0;
        while i < self.0.len()
            invariant
                digits_ok(self.0@),
                i <= self.0@.len(),
                payload@ == payload_of(self.0@.take(i as int)),
            decreases self.0@.len() - i,
        {
            let b: u8 = self.0[i];
            let ghost before = payload@;
            payload.extend_from_slice(ENCODINGS[b as usize].as_slice());
            proof {
                assert(payload@ =~= before + pattern(b as int));
                assert(self.0@.take(i + 1).drop_last() =~= self.0@.take(i as int));
            }
            i = i + 1;
        }
        proof {
            assert(self.0@.take(i as int) =~= self.0@);
        }
        let check: u8 = self.encode_mod10();
        let parts: [&[u8]; 4] = [
            LEFT_GUARD.as_slice(),
            payload.as_slice(),
            ENCODINGS[(check % MOD_10) as usize].as_slice(),
            RIGHT_GUARD.as_slice(),
        ];
        let r = join_slices(parts.as_slice());
        proof {
            let v = slice_views(parts@);
            assert(v =~= seq![LEFT_GUARD@, payload@, pattern(check_digit(self@) % 10), RIGHT_GUARD@]);
            reveal_with_fuel(joined, 5);
            assert(joined(v) =~= encoded(self@));
        }
        r
    }
}

impl Parse for MSI {
    open spec fn min_len() -> nat {
        1
    }

    open spec fn max_len() -> nat {
        50
    }

    open spec fn accepts(c: char) -> bool {
        is_digit(c)
    }

    /// MSI has no fixed length: it is capped at 1 to 49 characters.
    fn valid_len() -> (r: std::ops::Range<u32>) {
        1..50
    }

    /// MSI can display only the digits 0-9.
    fn valid_chars() -> (r: Vec<char>)
        ensures
            r@ == seq!['0', '1', '2', '3', '4', '5', '6', '7', '8', '9'],
    {
        let r = vec!['0', '1', '2', '3', '4', '5', '6', '7', '8', '9'];
        proof {
            assert forall|c: char| r@.contains(c) <==> is_digit(c) by {
                if is_digit(c) {
                    let k: int = c as int - '0' as int;
                    assert(r@[k] as int == c as int);
                    assert(r@[k] == c);
                }
            }
        }
        r
    }
}

/// Every character of text that passes MSI's validation is a digit.
proof fn lemma_valid_all_digits(s: Seq<char>, i: int)
    requires
        validate::<MSI>(s) is Ok,
        0 <= i < s.len(),
    ensures
        is_digit(s[i]),
{
    if !is_digit(s[i]) {
        lemma_first_rejected_exists(s, i);
    }
}

/// Text that passes MSI's validation gives a digit sequence an MSI barcode
/// can hold.
proof fn lemma_valid_digits_ok(s: Seq<char>)
    requires
        validate::<MSI>(s) is Ok,
    ensures
        digits_ok(digit_values(s)),
{
    assert forall|i: int| 0 <= i < s.len() implies #[trigger] digit_values(s)[i] <= 9 by {
        lemma_valid_all_digits(s, i);
    }
}

/// A character outside the alphabet at position `i` means some position
/// holds the first one.
proof fn lemma_first_rejected_exists(s: Seq<char>, i: int)
    requires
        0 <= i < s.len(),
        !is_digit(s[i]),
    ensures
        exists|k: int| first_rejected::<MSI>(s, k),
    decreases i,
{
    if forall|j: int| 0 <= j < i ==> is_digit(#[trigger] s[j]) {
        assert(first_rejected::<MSI>(s, i));
    } else {
        let j = choose|j: int| 0 <= j < i && !is_digit(#[trigger] s[j]);
        lemma_first_rejected_exists(s, j);
    }
}

/// Text with fewer than 1 or more than 49 characters is rejected for its
/// length.
pub proof fn lemma_length_rejected(s: Seq<char>)
    requires
        !(1 <= s.len() < 50),
    ensures
        validate::<MSI>(s) == Err::<(), Error>(Error::InvalidLength),
{
}

/// Text of an accepted length that holds a character outside '0' to '9' is
/// rejected for a character: the first such one, at its position.
pub proof fn lemma_character_rejected(s: Seq<char>, i: int)
    requires
        1 <= s.len() < 50,
        0 <= i < s.len(),
        !is_digit(s[i]),
    ensures
        exists|k: int|
            0 <= k <= i && !is_digit(s[k]) && validate::<MSI>(s) == Err::<(), Error>(
                Error::InvalidCharacter { position: k as usize, character: s[k] },
            ),
{
    lemma_first_rejected_exists(s, i);
    let k = choose|k: int| first_rejected::<MSI>(s, k);
    assert(k <= i) by {
        if k > i {
            assert(is_digit(s[i]));
        }
    }
}

/// The modules of a barcode built from accepted text number 3 for the left
/// guard, 12 for each character, 12 for the check digit and 4 for the right
/// guard.
pub proof fn lemma_encoded_len(s: Seq<char>)
    requires
        validate::<MSI>(s) is Ok,
    ensures
        encoded(digit_values(s)).len() == 3 + 12 * s.len() + 12 + 4,
{
    lemma_valid_digits_ok(s);
    lemma_payload_len(digit_values(s));
    let c = check_digit(digit_values(s)) % 10;
    assert(ENCODINGS@[c]@.len() == 12);
}

/// Two computations of the check digit of one barcode agree.
pub proof fn lemma_check_digit_deterministic(m: &MSI, first: u8, second: u8)
    requires
        first == check_digit(m@),
        second == check_digit(m@),
    ensures
        first == second,
{
}

/// The patterns of a digit sequence take 12 modules per digit.
proof fn lemma_payload_len(d: Seq<u8>)
    requires
        forall|i: int| 0 <= i < d.len() ==> #[trigger] d[i] <= 9,
    ensures
        payload_of(d).len() == 12 * d.len(),
    decreases d.len(),
{
    if d.len() > 0 {
        lemma_payload_len(d.drop_last());
        assert(ENCODINGS@[d.last() as int]@.len() == 12);
    }
}

} // verus!
