//! Content digests: SHA-256 rendered as lowercase hexadecimal.
//!
//! Files are digested as opaque byte strings; nothing is normalised before
//! hashing.

use vstd::prelude::*;
use sha2::Digest;

verus! {

/// The SHA-256 digest of a byte string.
pub uninterp spec fn sha256_digest(data: Seq<u8>) -> Seq<u8>;

/// Calls `sha2::Sha256::digest`. The digest depends on the bytes alone and is
/// 32 bytes long; neither fact is proved here.
#[verifier::external_body]
fn sha256(data: &[u8]) -> (out: Vec<u8>)
    ensures
        out@ == sha256_digest(data@),
        out@.len() == 32,
{
    sha2::Sha256::digest(data).to_vec()
}

/// The lowercase hexadecimal digit for a value below sixteen.
pub open spec fn hex_digit(n: int) -> char {
    if n == 0 {
        '0'
    } else if n == 1 {
        '1'
    } else if n == 2 {
        '2'
    } else if n == 3 {
        '3'
    } else if n == 4 {
        '4'
    } else if n == 5 {
        '5'
    } else if n == 6 {
        '6'
    } else if n == 7 {
        '7'
    } else if n == 8 {
        '8'
    } else if n == 9 {
        '9'
    } else if n == 10 {
        'a'
    } else if n == 11 {
        'b'
    } else if n == 12 {
        'c'
    } else if n == 13 {
        'd'
    } else if n == 14 {
        'e'
    } else {
        'f'
    }
}

/// Whether `c` is one of `0`..`9`, `a`..`f`.
pub open spec fn is_lower_hex(c: char) -> bool {
    exists|n: int| 0 <= n < 16 && c == #[trigger] hex_digit(n)
}

/// Two lowercase hexadecimal digits per byte, high nibble first.
pub open spec fn hex_lower(bytes: Seq<u8>) -> Seq<char> {
    Seq::new(
        2 * bytes.len(),
        |i: int|
            if i % 2 == 0 {
                hex_digit(bytes[i / 2] as int / 16)
            } else {
                hex_digit(bytes[i / 2] as int % 16)
            },
    )
}

/// The digest of a file's content as the ledger records it.
pub open spec fn digest_of(content: Seq<u8>) -> Seq<char> {
    hex_lower(sha256_digest(content))
}

/// Whether `s` has the shape of a recorded digest: 64 lowercase hexadecimal
/// digits.
pub open spec fn is_digest_text(s: Seq<char>) -> bool {
    &&& s.len() == 64
    &&& forall|i: int| 0 <= i < s.len() ==> is_lower_hex(#[trigger] s[i])
}

fn hex_digit_of(n: u8) -> (c: char)
    requires
        n < 16,
    ensures
        c == hex_digit(n as int),
{
    match n {
        0 => '0',
        1 => '1',
        2 => '2',
        3 => '3',
        4 => '4',
        5 => '5',
        6 => '6',
        7 => '7',
        8 => '8',
        9 => '9',
        10 => 'a',
        11 => 'b',
        12 => 'c',
        13 => 'd',
        14 => 'e',
        _ => 'f',
    }
}

/// Renders `bytes` as lowercase hexadecimal.
pub fn to_hex_lower(bytes: &[u8]) -> (out: String)
    ensures
        out@ == hex_lower(bytes@),
{
    let mut out = String::new();
    let mut i: usize = 0;
    while i < bytes.len()
        invariant
            i <= bytes@.len(),
            out@.len() == 2 * i,
            forall|k: int| 0 <= k < 2 * i ==> out@[k] == hex_lower(bytes@)[k],
        decreases bytes@.len() - i,
    {
        let b = bytes[i];
        let ghost before = out@;
        out.push(hex_digit_of(b / 16));
        out.push(hex_digit_of(b % 16));
        proof {
            assert(out@ == before.push(hex_digit((b / 16) as int)).push(hex_digit((b % 16) as int)));
            assert forall|k: int| 0 <= k < 2 * (i + 1) implies out@[k] == hex_lower(bytes@)[k] by {
                if k < 2 * i {
                    assert(out@[k] == before[k]);
                } else if k == 2 * i {
                    assert(k % 2 == 0 && k / 2 == i);
                } else {
                    assert(k % 2 == 1 && k / 2 == i);
                }
            }
        }
        i += 1;
    }
    assert(out@ =~= hex_lower(bytes@));
    out
}

/// Computes the digest under which a file's content is recorded: its SHA-256
/// hash as 64 lowercase hexadecimal digits.
pub fn calculate_hash(content: &[u8]) -> (digest: String)
    ensures
        digest@ == digest_of(content@),
        is_digest_text(digest@),
{
    let raw = sha256(content);
    let digest = to_hex_lower(raw.as_slice());
    proof {
        hex_lower_shape(raw@);
    }
    digest
}

/// Every hexadecimal rendering consists of lowercase hexadecimal digits, two
/// per byte.
pub proof fn hex_lower_shape(bytes: Seq<u8>)
    ensures
        hex_lower(bytes).len() == 2 * bytes.len(),
        forall|i: int| 0 <= i < hex_lower(bytes).len() ==> is_lower_hex(#[trigger] hex_lower(bytes)[i]),
{
    assert forall|i: int| 0 <= i < hex_lower(bytes).len() implies is_lower_hex(
        #[trigger] hex_lower(bytes)[i],
    ) by {
        let b = bytes[i / 2] as int;
        if i % 2 == 0 {
            assert(0 <= b / 16 < 16);
            assert(hex_lower(bytes)[i] == hex_digit(b / 16));
        } else {
            assert(0 <= b % 16 < 16);
            assert(hex_lower(bytes)[i] == hex_digit(b % 16));
        }
    }
}

/// The hexadecimal rendering loses nothing: byte strings with the same
/// rendering are equal.
pub proof fn hex_lower_injective(a: Seq<u8>, b: Seq<u8>)
    requires
        hex_lower(a) == hex_lower(b),
    ensures
        a == b,
{
    assert(hex_lower(a).len() == 2 * a.len());
    assert(hex_lower(b).len() == 2 * b.len());
    assert(a.len() == b.len());
    assert forall|i: int| 0 <= i < a.len() implies a[i] == b[i] by {
        let x = a[i] as int;
        let y = b[i] as int;
        assert((2 * i) % 2 == 0 && (2 * i) / 2 == i);
        assert((2 * i + 1) % 2 == 1 && (2 * i + 1) / 2 == i);
        assert(hex_lower(a)[2 * i] == hex_digit(x / 16));
        assert(hex_lower(b)[2 * i] == hex_digit(y / 16));
        assert(hex_lower(a)[2 * i + 1] == hex_digit(x % 16));
        assert(hex_lower(b)[2 * i + 1] == hex_digit(y % 16));
        hex_digit_injective(x / 16, y / 16);
        hex_digit_injective(x % 16, y % 16);
    }
    assert(a =~= b);
}

proof fn hex_digit_injective(m: int, n: int)
    requires
        0 <= m < 16,
        0 <= n < 16,
        hex_digit(m) == hex_digit(n),
    ensures
        m == n,
{
}

/// Two contents have the same digest exactly when they have the same
/// SHA-256 hash: the rendering adds no collision of its own.
pub proof fn digests_differ_as_hashes_do(a: Seq<u8>, b: Seq<u8>)
    ensures
        digest_of(a) == digest_of(b) <==> sha256_digest(a) == sha256_digest(b),
{
    if digest_of(a) == digest_of(b) {
        hex_lower_injective(sha256_digest(a), sha256_digest(b));
    }
}

/// The digest is a function of the content: equal byte strings have equal
/// digests.
pub proof fn digest_deterministic(a: Seq<u8>, b: Seq<u8>)
    requires
        a =~= b,
    ensures
        digest_of(a) == digest_of(b),
{
}

} // verus!
