//! SHA-256 digests and the leading-zero rule that proof-of-work is held to.

use vstd::prelude::*;
use vstd::string::*;

verus! {

/// Number of bytes in a digest.
pub const DIGEST_LEN: usize = 32;

/// The SHA-256 digest of a byte string.
pub uninterp spec fn sha256(data: Seq<u8>) -> Seq<u8>;

/// Calls `Sha256::digest` of the `sha2` crate on `data` and copies the output
/// into a vector.
///
/// Trusted: the result is the SHA-256 digest of `data`, a function of the
/// bytes alone, and is 32 bytes long (the hasher's fixed output size).
#[verifier::external_body]
pub(crate) fn sha256_bytes(data: &[u8]) -> (out: Vec<u8>)
    ensures
        out@ == sha256(data@),
        out@.len() == DIGEST_LEN,
{
    <sha2::Sha256 as sha2::Digest>::digest(data).to_vec()
}

/// The `i`-th hexadecimal digit of `hash`, high digit of each byte first.
pub open spec fn hex_digit(hash: Seq<u8>, i: int) -> int {
    if i % 2 == 0 {
        hash[i / 2] as int / 16
    } else {
        hash[i / 2] as int % 16
    }
}

/// `hash` starts with at least `difficulty` zero hexadecimal digits.
pub open spec fn meets_difficulty(hash: Seq<u8>, difficulty: nat) -> bool {
    &&& difficulty <= 2 * hash.len()
    &&& forall|i: int| 0 <= i < difficulty ==> hex_digit(hash, i) == 0
}

/// Decides whether `hash` starts with at least `difficulty` zero hexadecimal
/// digits.
pub fn has_leading_zeros(hash: &Vec<u8>, difficulty: u32) -> (ok: bool)
    ensures
        ok == meets_difficulty(hash@, difficulty as nat),
{
    let needed: usize = difficulty as usize;
    if hash.len() < needed / 2 || (needed % 2 == 1 && hash.len() <= needed / 2) {
        return false;
    }
    let whole: usize = needed / 2;
    let mut k: usize = 0;
    while k < whole
        invariant
            k <= whole,
            needed == difficulty,
            whole == needed / 2,
            whole <= hash@.len(),
            forall|i: int| 0 <= i < 2 * k ==> hex_digit(hash@, i) == 0,
        decreases whole - k,
    {
        if hash[k] != 0 {
            proof {
                let hi = 2 * k as int;
                assert(hi / 2 == k as int && hi % 2 == 0);
                assert((hi + 1) / 2 == k as int && (hi + 1) % 2 == 1);
                assert(hex_digit(hash@, hi) != 0 || hex_digit(hash@, hi + 1) != 0);
                assert(hi + 1 < difficulty);
            }
            return false;
        }
        assert forall|i: int| 0 <= i < 2 * (k + 1) implies hex_digit(hash@, i) == 0 by {
            if i >= 2 * k {
                assert(i / 2 == k as int);
            }
        }
        k = k + 1;
    }
    if needed % 2 == 1 {
        if hash[whole] >= 16 {
            proof {
                let hi = 2 * whole as int;
                assert(hi / 2 == whole as int && hi % 2 == 0);
                assert(hex_digit(hash@, hi) != 0);
            }
            return false;
        }
        assert forall|i: int| 0 <= i < needed implies hex_digit(hash@, i) == 0 by {
            if i >= 2 * whole {
                assert(i == 2 * whole);
                assert(i / 2 == whole as int);
            }
        }
    }
    true
}

/// The sixteen hexadecimal digits, in order of their value.
pub open spec fn hex_alphabet() -> Seq<char> {
    "0123456789abcdef"@
}

/// `hash` written in lower-case hexadecimal, two digits to a byte.
pub open spec fn hex_text(hash: Seq<u8>) -> Seq<char> {
    Seq::new(2 * hash.len(), |i: int| hex_alphabet()[hex_digit(hash, i)])
}

/// Writes `hash` in lower-case hexadecimal.
pub fn to_hex(hash: &Vec<u8>) -> (text: String)
    ensures
        text@ == hex_text(hash@),
{
    let alphabet: &str = "0123456789abcdef";
    proof {
        reveal_strlit("0123456789abcdef");
    }
    assert(alphabet.is_ascii());
    let mut text = String::new();
    let mut k: usize = 0;
    while k < hash.len()
        invariant
            k <= hash@.len(),
            alphabet@ == hex_alphabet(),
            alphabet@.len() == 16,
            alphabet.is_ascii(),
            text@.len() == 2 * k,
            forall|i: int| 0 <= i < 2 * k ==> text@[i] == hex_alphabet()[hex_digit(hash@, i)],
        decreases hash@.len() - k,
    {
        let high: usize = (hash[k] / 16) as usize;
        let low: usize = (hash[k] % 16) as usize;
        let ghost before = text@;
        text.append(alphabet.substring_ascii(high, high + 1));
        text.append(alphabet.substring_ascii(low, low + 1));
        proof {
            let hi = 2 * k as int;
            assert(hi / 2 == k as int && hi % 2 == 0);
            assert((hi + 1) / 2 == k as int && (hi + 1) % 2 == 1);
            assert(text@ =~= before.push(alphabet@[high as int]).push(alphabet@[low as int]));
            assert forall|i: int| 0 <= i < 2 * (k + 1) implies text@[i] == hex_alphabet()[hex_digit(
                hash@,
                i,
            )] by {
                if i < hi {
                    assert(text@[i] == before[i]);
                }
            }
        }
        k = k + 1;
    }
    assert(text@ =~= hex_text(hash@));
    text
}

} // verus!
