//! Z85 text encoding of bytes, and the random invoke key it serves.

use vstd::prelude::*;

use crate::error::Error;
use crate::text::{chars_of, push_char};

verus! {

/// The 85 characters of the Z85 alphabet, by value.
pub const ALPHABET: &'static str = "0123456789abcdefghijklmnopqrstuvwxyzABCDEFGHIJKLMNOPQRSTUVWXYZ.-:+=^!/*?&<>()[]{}@%$#";

/// The big-endian value of the four bytes of chunk `k`.
pub open spec fn chunk_value(bytes: Seq<u8>, k: int) -> nat {
    (bytes[4 * k] as nat) * 16777216 + (bytes[4 * k + 1] as nat) * 65536 + (bytes[4 * k + 2] as nat) * 256
        + (bytes[4 * k + 3] as nat)
}

/// The five base-85 digits of `v`, most significant first, as characters of the alphabet.
pub open spec fn z85_digits(v: nat) -> Seq<char> {
    seq![
        ALPHABET@[(v / 85 / 85 / 85 / 85 % 85) as int],
        ALPHABET@[(v / 85 / 85 / 85 % 85) as int],
        ALPHABET@[(v / 85 / 85 % 85) as int],
        ALPHABET@[(v / 85 % 85) as int],
        ALPHABET@[(v % 85) as int],
    ]
}

/// The Z85 text of the first `n` chunks of four bytes.
pub open spec fn z85_text(bytes: Seq<u8>, n: int) -> Seq<char>
    decreases n,
{
    if n <= 0 {
        Seq::empty()
    } else {
        z85_text(bytes, n - 1) + z85_digits(chunk_value(bytes, n - 1))
    }
}

/// Encodes `bytes`, whose length is a multiple of four, as Z85 text: five characters for each
/// four bytes.
pub fn encode(bytes: &[u8]) -> (r: String)
    requires
        bytes@.len() % 4 == 0,
    ensures
        r@ == z85_text(bytes@, (bytes@.len() / 4) as int),
{
    proof {
        reveal_strlit("0123456789abcdefghijklmnopqrstuvwxyzABCDEFGHIJKLMNOPQRSTUVWXYZ.-:+=^!/*?&<>()[]{}@%$#");
    }
    let table = chars_of(ALPHABET);
    assert(table@.len() == 85);
    let mut buf = String::new();
    let chunks: usize = bytes.len() / 4;
    let mut k: usize = 0;
    while k < chunks
        invariant
            table@ == ALPHABET@,
            table@.len() == 85,
            chunks == bytes@.len() / 4,
            bytes@.len() % 4 == 0,
            k <= chunks,
            buf@ == z85_text(bytes@, k as int),
        decreases chunks - k,
    {
        assert(4 * k + 3 < bytes@.len()) by (nonlinear_arith)
            requires
                k < chunks,
                chunks == bytes@.len() / 4,
        ;
        let i: usize = 4 * k;
        let v: u32 = bytes[i] as u32 * 16777216 + bytes[i + 1] as u32 * 65536 + bytes[i + 2] as u32 * 256 + bytes[i + 3] as u32;
        assert(v as nat == chunk_value(bytes@, k as int));
        let v1: u32 = v / 85;
        let v2: u32 = v1 / 85;
        let v3: u32 = v2 / 85;
        let v4: u32 = v3 / 85;
        let ghost before = buf@;
        push_char(&mut buf, table[(v4 % 85) as usize]);
        push_char(&mut buf, table[(v3 % 85) as usize]);
        push_char(&mut buf, table[(v2 % 85) as usize]);
        push_char(&mut buf, table[(v1 % 85) as usize]);
        push_char(&mut buf, table[(v % 85) as usize]);
        assert(buf@ =~= before + z85_digits(v as nat));
        k += 1;
    }
    buf
}

/// Encodes sixteen bytes as a key: twenty Z85 characters.
pub fn invoke_key_of(bytes: &[u8]) -> (r: String)
    requires
        bytes@.len() == 16,
    ensures
        r@ == z85_text(bytes@, 4),
        r@.len() == 20,
{
    let r = encode(bytes);
    proof {
        assert(z85_text(bytes@, 4).len() == 20) by {
            reveal_with_fuel(z85_text, 5);
        }
    }
    r
}

/// A random 128-bit key, Z85-encoded (twenty characters); [`Error::Random`] when the operating
/// system gives no random bytes.
pub fn generate_invoke_key() -> (r: Result<String, Error>)
    ensures
        r matches Ok(k) ==> k@.len() == 20 && exists|bytes: Seq<u8>| bytes.len() == 16 && #[trigger] z85_text(bytes, 4) == k@,
        r matches Err(e) ==> e is Random,
{
    match crate::random::random_bytes(16) {
        Ok(bytes) => {
            let key = invoke_key_of(bytes.as_slice());
            assert(z85_text(bytes@, 4) == key@);
            Ok(key)
        },
        Err(message) => Err(Error::Random(message)),
    }
}

} // verus!
