use crate::error::ErrorCode;
use vstd::prelude::*;
use vstd::string::*;

verus! {

/// Whether `c` is one of `0-9`, `a-f`, `A-F`.
pub open spec fn is_hex_digit(c: char) -> bool {
    let v = c as u32;
    (48 <= v && v <= 57) || (65 <= v && v <= 70) || (97 <= v && v <= 102)
}

/// The value of a hexadecimal digit, in `0..16`.
pub open spec fn hex_value(c: char) -> int {
    let v = c as u32;
    if 48 <= v && v <= 57 {
        v - 48
    } else if 65 <= v && v <= 70 {
        v - 55
    } else {
        v - 87
    }
}

/// Whether `c` is the separator between two octets.
pub open spec fn is_colon(c: char) -> bool {
    c as u32 == 58
}

/// The textual EUI-64 shape: eight groups of two hexadecimal digits, each
/// but the last followed by a colon.
pub open spec fn well_formed(s: Seq<char>) -> bool {
    &&& s.len() == 23
    &&& forall|k: int| 0 <= k < 8 ==> is_hex_digit(#[trigger] s[3 * k])
    &&& forall|k: int| 0 <= k < 8 ==> is_hex_digit(#[trigger] s[3 * k + 1])
    &&& forall|k: int| 0 <= k < 7 ==> is_colon(#[trigger] s[3 * k + 2])
}

/// The value of the `k`-th octet of a well-formed address.
pub open spec fn octet(s: Seq<char>, k: int) -> int {
    16 * hex_value(s[3 * k]) + hex_value(s[3 * k + 1])
}

/// The number of colons among the first `n` characters of `s`.
pub open spec fn colons_in(s: Seq<char>, n: nat) -> nat
    decreases n,
{
    if n == 0 {
        0
    } else {
        colons_in(s, (n - 1) as nat) + if is_colon(s[n - 1]) {
            1nat
        } else {
            0nat
        }
    }
}

/// The number of pieces that splitting `s` at every colon gives.
pub open spec fn octet_count(s: Seq<char>) -> nat {
    colons_in(s, s.len()) + 1
}

fn hex_digit(c: char) -> (r: Option<u8>)
    ensures
        r is Some <==> is_hex_digit(c),
        r is Some ==> r->0 as int == hex_value(c),
{
    let v: u32 = c as u32;
    if 48 <= v && v <= 57 {
        Some((v - 48) as u8)
    } else if 65 <= v && v <= 70 {
        Some((v - 55) as u8)
    } else if 97 <= v && v <= 102 {
        Some((v - 87) as u8)
    } else {
        None
    }
}

/// Parses a textual EUI-64 hardware address such as
/// `AA:BB:CC:DD:EE:FF:00:11` into its eight bytes. Any other shape, and so
/// any text with other than eight colon-separated pieces, is answered with
/// `InvalidHardwareAddress`.
pub fn parse_hardware_address(text: &str) -> (r: Result<[u8; 8], ErrorCode>)
    ensures
        r is Ok <==> well_formed(text@),
        octet_count(text@) != 8 ==> r is Err,
        r is Err ==> r->Err_0 == ErrorCode::InvalidHardwareAddress,
        r is Ok ==> forall|k: int| 0 <= k < 8 ==> (#[trigger] (r->Ok_0)[k]) as int == octet(text@, k),
{
    proof {
        if octet_count(text@) != 8 {
            lemma_wrong_octet_count_is_rejected(text@);
        }
    }
    if text.unicode_len() != 23 {
        return Err(ErrorCode::InvalidHardwareAddress);
    }
    let mut out: [u8; 8] = [0u8; 8];
    let mut k: usize = 0;
    while k < 8
        invariant
            k <= 8,
            text@.len() == 23,
            forall|j: int| 0 <= j < k ==> is_hex_digit(#[trigger] text@[3 * j]),
            forall|j: int| 0 <= j < k ==> is_hex_digit(#[trigger] text@[3 * j + 1]),
            forall|j: int| 0 <= j < k && j < 7 ==> is_colon(#[trigger] text@[3 * j + 2]),
            forall|j: int| 0 <= j < k ==> (#[trigger] out[j]) as int == octet(text@, j),
        decreases 8 - k,
    {
        let hi = hex_digit(text.get_char(3 * k));
        let lo = hex_digit(text.get_char(3 * k + 1));
        if hi.is_none() || lo.is_none() {
            return Err(ErrorCode::InvalidHardwareAddress);
        }
        if k < 7 && text.get_char(3 * k + 2) as u32 != 58 {
            return Err(ErrorCode::InvalidHardwareAddress);
        }
        out[k] = hi.unwrap() * 16 + lo.unwrap();
        k += 1;
    }
    Ok(out)
}

/// A text that does not split into exactly eight pieces at its colons is
/// not a well-formed hardware address, so parsing it fails.
pub proof fn lemma_wrong_octet_count_is_rejected(s: Seq<char>)
    requires
        octet_count(s) != 8,
    ensures
        !well_formed(s),
{
    if well_formed(s) {
        lemma_well_formed_colons(s, 8);
    }
}

/// In a well-formed address the first `3k - 1` characters hold `k - 1`
/// colons.
proof fn lemma_well_formed_colons(s: Seq<char>, k: int)
    requires
        well_formed(s),
        1 <= k <= 8,
    ensures
        colons_in(s, (3 * k - 1) as nat) == k - 1,
    decreases k,
{
    reveal_with_fuel(colons_in, 4);
    if k == 1 {
        assert(is_hex_digit(s[3 * 0int]));
        assert(is_hex_digit(s[3 * 0int + 1]));
    } else {
        lemma_well_formed_colons(s, k - 1);
        assert(is_colon(s[3 * (k - 2) + 2]));
        assert(is_hex_digit(s[3 * (k - 1)]));
        assert(is_hex_digit(s[3 * (k - 1) + 1]));
    }
}

} // verus!
