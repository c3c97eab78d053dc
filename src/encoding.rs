use vstd::prelude::*;

verus! {

/// The lowercase hexadecimal digit for a value below sixteen.
pub open spec fn hex_digit(v: nat) -> char {
    if v == 0 {
        '0'
    } else if v == 1 {
        '1'
    } else if v == 2 {
        '2'
    } else if v == 3 {
        '3'
    } else if v == 4 {
        '4'
    } else if v == 5 {
        '5'
    } else if v == 6 {
        '6'
    } else if v == 7 {
        '7'
    } else if v == 8 {
        '8'
    } else if v == 9 {
        '9'
    } else if v == 10 {
        'a'
    } else if v == 11 {
        'b'
    } else if v == 12 {
        'c'
    } else if v == 13 {
        'd'
    } else if v == 14 {
        'e'
    } else {
        'f'
    }
}

/// Lowercase hexadecimal text of `b`: two digits per byte, high half first.
pub open spec fn hex_of(b: Seq<u8>) -> Seq<char> {
    Seq::new(
        2 * b.len(),
        |k: int|
            if k % 2 == 0 {
                hex_digit((b[k / 2] / 16) as nat)
            } else {
                hex_digit((b[k / 2] % 16) as nat)
            },
    )
}

/// Value of a hexadecimal digit of either case, or -1 for any other character.
pub open spec fn hex_value(c: char) -> int {
    if '0' <= c && c <= '9' {
        c as int - '0' as int
    } else if 'a' <= c && c <= 'f' {
        c as int - 'a' as int + 10
    } else if 'A' <= c && c <= 'F' {
        c as int - 'A' as int + 10
    } else {
        -1
    }
}

/// The bytes that hexadecimal text `s` stands for, if it is well formed.
pub open spec fn decoded(s: Seq<char>) -> Option<Seq<u8>> {
    if s.len() % 2 == 0 && forall|k: int| 0 <= k < s.len() ==> hex_value(#[trigger] s[k]) >= 0 {
        Some(
            Seq::new(
                s.len() / 2,
                |k: int| (16 * hex_value(s[2 * k]) + hex_value(s[2 * k + 1])) as u8,
            ),
        )
    } else {
        None
    }
}

proof fn lemma_digit_value(v: nat)
    requires
        v < 16,
    ensures
        hex_value(hex_digit(v)) == v,
{
    assert(v == 0 || v == 1 || v == 2 || v == 3 || v == 4 || v == 5 || v == 6 || v == 7 || v
        == 8 || v == 9 || v == 10 || v == 11 || v == 12 || v == 13 || v == 14 || v == 15);
}

/// Decoding the hexadecimal text of any bytes gives those bytes back.
pub proof fn lemma_hex_round_trip(b: Seq<u8>)
    ensures
        decoded(hex_of(b)) == Some(b),
{
    let s = hex_of(b);
    assert forall|k: int| 0 <= k < s.len() implies hex_value(#[trigger] s[k]) >= 0 by {
        lemma_digit_value((b[k / 2] / 16) as nat);
        lemma_digit_value((b[k / 2] % 16) as nat);
    }
    let d = decoded(s).unwrap();
    assert forall|k: int| 0 <= k < b.len() implies d[k] == b[k] by {
        lemma_digit_value((b[k] / 16) as nat);
        lemma_digit_value((b[k] % 16) as nat);
        assert((2 * k) / 2 == k);
        assert((2 * k + 1) / 2 == k);
        assert(s[2 * k] == hex_digit((b[k] / 16) as nat));
        assert(s[2 * k + 1] == hex_digit((b[k] % 16) as nat));
    }
    assert(d =~= b);
}

/// Whether two byte strings are equal.
pub fn same_bytes(a: &[u8], b: &[u8]) -> (r: bool)
    ensures
        r == (a@ == b@),
{
    if a.len() != b.len() {
        return false;
    }
    let mut k: usize = 0;
    while k < a.len()
        invariant
            a@.len() == b@.len(),
            0 <= k <= a@.len(),
            forall|j: int| 0 <= j < k ==> a@[j] == b@[j],
        decreases a@.len() - k,
    {
        if a[k] != b[k] {
            return false;
        }
        k = k + 1;
    }
    assert(a@ =~= b@);
    true
}

#[verifier::external_type_specification]
#[verifier::external_body]
pub struct ExFromHexError(hex::FromHexError);

/// Relies on hex::encode: lowercase digits, two per byte, high half first.
#[verifier::external_body]
pub(crate) fn encode_hex(b: &[u8]) -> (r: String)
    ensures
        r@ == hex_of(b@),
{
    hex::encode(b)
}

/// Relies on hex::decode: digits of either case in pairs, and an error on odd length
/// or on any other character.
#[verifier::external_body]
pub(crate) fn decode_hex(s: &str) -> (r: Result<Vec<u8>, hex::FromHexError>)
    ensures
        r matches Ok(b) ==> decoded(s@) == Some(b@),
        r is Err ==> decoded(s@) is None,
{
    hex::decode(s)
}

} // verus!
