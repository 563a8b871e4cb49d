//! One-time connection codes.

use crate::crypto;
use crate::crypto::CryptoError;
use crate::text;
use vstd::prelude::*;

verus! {

/// The characters of a code. The ones that are easily confused, 0, O, 1 and I, are left out.
pub const CHARSET: &'static str = "ABCDEFGHJKLMNPQRSTUVWXYZ23456789";

/// The number of characters of a code.
pub const ONE_TIME_LEN: usize = 8;

/// The code that random bytes spell: each byte, modulo the size of the set, picks a character.
pub open spec fn code_of(random: Seq<u8>) -> Seq<char> {
    Seq::new(random.len(), |i: int| CHARSET@[(random[i] % 32) as int])
}

/// Whether a character can stand in a code.
pub open spec fn is_code_char(c: char) -> bool {
    (('A' <= c && c <= 'Z') || ('2' <= c && c <= '9')) && c != 'O' && c != 'I'
}

/// The code that `random` spells.
pub fn one_time_from_bytes(random: &[u8]) -> (code: String)
    ensures
        code@ == code_of(random@),
{
    proof {
        law_charset();
    }
    let set: Vec<char> = text::to_chars(CHARSET);
    let mut code: String = String::new();
    let mut i: usize = 0;
    while i < random.len()
        invariant
            set@ == CHARSET@,
            set@.len() == 32,
            i <= random@.len(),
            code@ == code_of(random@).take(i as int),
        decreases random@.len() - i,
    {
        let k: usize = (random[i] % 32) as usize;
        code.push(set[k]);
        i += 1;
        proof {
            assert(code_of(random@).take(i as int) =~= code_of(random@).take(i - 1).push(
                set@[k as int],
            ));
        }
    }
    proof {
        assert(code_of(random@).take(i as int) =~= code_of(random@));
    }
    code
}

/// A new one-time code from the system's random bytes. Fails only where there are none.
pub fn generate_one_time() -> (r: Result<String, CryptoError>)
    ensures
        match r {
            Ok(code) => {
                &&& code@.len() == ONE_TIME_LEN
                &&& forall|i: int| 0 <= i < code@.len() ==> is_code_char(#[trigger] code@[i])
            },
            Err(e) => e == CryptoError::Random,
        },
{
    match crypto::random_bytes(ONE_TIME_LEN) {
        Some(random) => {
            let code: String = one_time_from_bytes(random.as_slice());
            proof {
                law_code_shape(random@);
            }
            Ok(code)
        },
        None => Err(CryptoError::Random),
    }
}

/// The set has 32 different characters, and none that is easily confused.
pub proof fn law_charset()
    ensures
        CHARSET@.len() == 32,
        forall|i: int| 0 <= i < 32 ==> is_code_char(#[trigger] CHARSET@[i]),
        forall|i: int, j: int|
            0 <= i < j < 32 ==> #[trigger] CHARSET@[i] != #[trigger] CHARSET@[j],
{
    reveal_strlit("ABCDEFGHJKLMNPQRSTUVWXYZ23456789");
}

/// A code is as long as its random bytes are many, and holds only characters of the set.
pub proof fn law_code_shape(random: Seq<u8>)
    ensures
        code_of(random).len() == random.len(),
        forall|i: int|
            0 <= i < random.len() ==> is_code_char(#[trigger] code_of(random)[i]),
{
    law_charset();
}

/// Every character of the set is picked by exactly eight of the 256 bytes: `k`, `k + 32`, and so
/// on. No character is more likely than another.
pub proof fn law_no_bias(byte: u8, k: nat)
    requires
        k < 32,
    ensures
        byte % 32 == k <==> (byte == k || byte == k + 32 || byte == k + 64 || byte == k + 96
            || byte == k + 128 || byte == k + 160 || byte == k + 192 || byte == k + 224),
{
}

/// Each random byte picks the character at its own place, and only that one: two codes have the
/// same character at a place exactly when the bytes there pick the same.
pub proof fn law_each_byte_counts(a: &[u8], code_a: String, b: &[u8], code_b: String, i: int)
    requires
        call_ensures(one_time_from_bytes, (a,), code_a),
        call_ensures(one_time_from_bytes, (b,), code_b),
        0 <= i < a@.len(),
        i < b@.len(),
    ensures
        code_a@.len() == a@.len(),
        code_a@[i] == code_b@[i] <==> a@[i] % 32 == b@[i] % 32,
        is_code_char(code_a@[i]),
{
    law_charset();
    law_code_shape(a@);
    let (x, y) = ((a@[i] % 32) as int, (b@[i] % 32) as int);
    assert(code_a@[i] == CHARSET@[x] && code_b@[i] == CHARSET@[y]);
}

/// A new code has eight characters, none of which is easily taken for another.
pub proof fn law_new_code(r: Result<String, CryptoError>, i: int)
    requires
        call_ensures(generate_one_time, (), r),
        0 <= i < 8,
    ensures
        r matches Ok(code) ==> code@.len() == 8 && is_code_char(code@[i]) && code@[i] != 'O' && code@[i]
            != 'I' && code@[i] != '0' && code@[i] != '1',
        r matches Err(e) ==> e == CryptoError::Random,
{
}

} // verus!
