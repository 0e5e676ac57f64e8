//! The key under which an account is recorded: the ASCII text `account:`
//! followed by the lowercase hexadecimal form of the address, without prefix.

use vstd::prelude::*;
use vstd::string::StringExecFns;

use crate::address::Address;

verus! {

/// The lowercase hexadecimal digit for a value below 16.
pub open spec fn hex_digit(nibble: u8) -> char
    recommends
        nibble < 16,
{
    if nibble < 10 {
        (('0' as u8) + nibble) as char
    } else {
        (('a' as u8) + (nibble - 10)) as char
    }
}

/// Lowercase hexadecimal text of `bytes`: two digits for each byte, the high
/// half first, in the order of the bytes.
pub open spec fn hex_chars(bytes: Seq<u8>) -> Seq<char> {
    Seq::new(
        2 * bytes.len(),
        |i: int|
            if i % 2 == 0 {
                hex_digit(bytes[i / 2] / 16)
            } else {
                hex_digit(bytes[i / 2] % 16)
            },
    )
}

/// The store key of an account.
pub open spec fn key_of(address: Address) -> Seq<char> {
    "account:"@ + hex_chars(address.bytes@)
}

/// One hexadecimal digit as text.
fn hex_digit_str(nibble: u8) -> (digit: &'static str)
    requires
        nibble < 16,
    ensures
        digit@ == seq![hex_digit(nibble)],
{
    proof {
        reveal_strlit("0");
        reveal_strlit("1");
        reveal_strlit("2");
        reveal_strlit("3");
        reveal_strlit("4");
        reveal_strlit("5");
        reveal_strlit("6");
        reveal_strlit("7");
        reveal_strlit("8");
        reveal_strlit("9");
        reveal_strlit("a");
        reveal_strlit("b");
        reveal_strlit("c");
        reveal_strlit("d");
        reveal_strlit("e");
        reveal_strlit("f");
    }
    let digit = match nibble {
        0 => "0",
        1 => "1",
        2 => "2",
        3 => "3",
        4 => "4",
        5 => "5",
        6 => "6",
        7 => "7",
        8 => "8",
        9 => "9",
        10 => "a",
        11 => "b",
        12 => "c",
        13 => "d",
        14 => "e",
        _ => "f",
    };
    assert(digit@ =~= seq![hex_digit(nibble)]);
    digit
}

/// Builds the store key of `address`.
pub fn account_key(address: &Address) -> (key: String)
    ensures
        key@ == key_of(*address),
{
    let mut key = String::from_str("account:");
    let mut i: usize = 0;
    while i < 20
        invariant
            i <= 20,
            key@ == "account:"@ + hex_chars(address.bytes@.take(i as int)),
        decreases 20 - i,
    {
        let byte = address.bytes[i];
        let ghost before = key@;
        key.append(hex_digit_str(byte / 16));
        key.append(hex_digit_str(byte % 16));
        proof {
            let done = address.bytes@.take(i as int);
            let next = address.bytes@.take(i + 1);
            assert(hex_chars(next) =~= hex_chars(done) + seq![
                hex_digit(byte / 16),
                hex_digit(byte % 16),
            ]);
            assert(key@ =~= "account:"@ + hex_chars(next));
        }
        i += 1;
    }
    assert(address.bytes@.take(20) =~= address.bytes@);
    key
}

/// Distinct values below 16 have distinct digits.
proof fn lemma_hex_digit_injective(a: u8, b: u8)
    requires
        a < 16,
        b < 16,
        hex_digit(a) == hex_digit(b),
    ensures
        a == b,
{
}

/// Distinct addresses have distinct keys, so a key names one account only.
pub proof fn lemma_key_of_injective(a: Address, b: Address)
    requires
        key_of(a) == key_of(b),
    ensures
        a == b,
{
    let prefix = "account:"@;
    let ha = hex_chars(a.bytes@);
    let hb = hex_chars(b.bytes@);
    assert forall|j: int| 0 <= j < 20 implies a.bytes[j] == b.bytes[j] by {
        let x = a.bytes[j];
        let y = b.bytes[j];
        assert(ha[2 * j] == key_of(a)[prefix.len() + 2 * j]);
        assert(hb[2 * j] == key_of(b)[prefix.len() + 2 * j]);
        assert(ha[2 * j + 1] == key_of(a)[prefix.len() + 2 * j + 1]);
        assert(hb[2 * j + 1] == key_of(b)[prefix.len() + 2 * j + 1]);
        assert(ha[2 * j] == hex_digit(x / 16));
        assert(hb[2 * j] == hex_digit(y / 16));
        assert(ha[2 * j + 1] == hex_digit(x % 16));
        assert(hb[2 * j + 1] == hex_digit(y % 16));
        lemma_hex_digit_injective(x / 16, y / 16);
        lemma_hex_digit_injective(x % 16, y % 16);
    }
    assert(a.bytes =~= b.bytes);
}

} // verus!
