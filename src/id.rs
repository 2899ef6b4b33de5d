use crate::error::Error;
use vstd::prelude::*;

verus! {

/// Number of bytes in a store identifier.
pub const ID_BYTES: usize = 12;

/// A hexadecimal digit, in either case.
pub open spec fn is_hex_digit(c: char) -> bool {
    ('0' <= c && c <= '9') || ('a' <= c && c <= 'f') || ('A' <= c && c <= 'F')
}

/// The value of a hexadecimal digit.
pub open spec fn hex_value(c: char) -> int {
    if '0' <= c && c <= '9' {
        c as int - '0' as int
    } else if 'a' <= c && c <= 'f' {
        c as int - 'a' as int + 10
    } else {
        c as int - 'A' as int + 10
    }
}

/// The text of a well-formed identifier: exactly 24 hexadecimal digits.
pub open spec fn is_id_text(s: Seq<char>) -> bool {
    &&& s.len() == 2 * ID_BYTES
    &&& forall|i: int| 0 <= i < s.len() ==> #[trigger] is_hex_digit(s[i])
}

/// The bytes that a text of hexadecimal digits denotes, two digits per byte,
/// the high half first.
pub open spec fn hex_bytes(s: Seq<char>) -> Seq<u8> {
    Seq::new(s.len() / 2, |i: int| (hex_value(s[2 * i]) * 16 + hex_value(s[2 * i + 1])) as u8)
}

/// The lowercase digit for a value below sixteen.
pub open spec fn lower_digit(n: int) -> char {
    if n < 10 {
        ('0' as int + n) as char
    } else {
        ('a' as int + n - 10) as char
    }
}

/// Two lowercase hexadecimal digits per byte, the high half first.
pub open spec fn hex_text(b: Seq<u8>) -> Seq<char> {
    Seq::new(
        2 * b.len(),
        |i: int|
            if i % 2 == 0 {
                lower_digit(b[i / 2] as int / 16)
            } else {
                lower_digit(b[i / 2] as int % 16)
            },
    )
}

/// Relies on bson's `ObjectId::with_string`: it runs `hex::decode` on the
/// text's bytes (digits of either case, two per byte, high half first) and
/// accepts the result only when it is twelve bytes long.
#[verifier::external_body]
fn object_id_bytes(s: &str) -> (r: Option<Vec<u8>>)
    ensures
        r.is_some() == is_id_text(s@),
        r matches Some(b) ==> b@ == hex_bytes(s@),
{
    mongodb::bson::oid::ObjectId::with_string(s).ok().map(|o| o.bytes().to_vec())
}

/// Relies on bson's `ObjectId::to_hex`, which is `hex::encode` of the twelve
/// bytes: two lowercase digits per byte, high half first.
#[verifier::external_body]
fn object_id_hex(b: &Vec<u8>) -> (r: String)
    requires
        b@.len() == ID_BYTES,
    ensures
        r@ == hex_text(b@),
{
    let mut bytes = [0u8; 12];
    bytes.copy_from_slice(b);
    mongodb::bson::oid::ObjectId::with_bytes(bytes).to_hex()
}

/// Reads an identifier in its text form; a text that is not 24 hexadecimal
/// digits is refused with `InvalidIdentifier`, carrying the text.
pub fn parse_id(id: &str) -> (r: Result<Vec<u8>, Error>)
    ensures
        is_id_text(id@) <==> r.is_ok(),
        r matches Ok(b) ==> b@ == hex_bytes(id@) && b@.len() == ID_BYTES,
        r matches Err(e) ==> e matches Error::InvalidIdentifier(t) && t@ == id@,
{
    match object_id_bytes(id) {
        Some(b) => Ok(b),
        None => Err(Error::InvalidIdentifier(id.to_owned())),
    }
}

/// The text form of an identifier: 24 lowercase hexadecimal digits.
pub fn id_text(b: &Vec<u8>) -> (r: String)
    requires
        b@.len() == ID_BYTES,
    ensures
        r@ == hex_text(b@),
        is_id_text(r@),
{
    let r = object_id_hex(b);
    proof {
        lemma_hex_text_is_id(b@);
    }
    r
}

proof fn lemma_lower_digit(n: int)
    requires
        0 <= n < 16,
    ensures
        is_hex_digit(lower_digit(n)),
        hex_value(lower_digit(n)) == n,
{
}

/// The text form of a twelve-byte identifier is well formed.
pub proof fn lemma_hex_text_is_id(b: Seq<u8>)
    requires
        b.len() == ID_BYTES,
    ensures
        is_id_text(hex_text(b)),
{
    assert forall|i: int| 0 <= i < hex_text(b).len() implies #[trigger] is_hex_digit(
        hex_text(b)[i],
    ) by {
        lemma_lower_digit(b[i / 2] as int / 16);
        lemma_lower_digit(b[i / 2] as int % 16);
    }
}

/// Writing an identifier as text and reading it back gives the same bytes.
pub proof fn lemma_id_round_trip(b: Seq<u8>)
    requires
        b.len() == ID_BYTES,
    ensures
        is_id_text(hex_text(b)),
        hex_bytes(hex_text(b)) == b,
{
    lemma_hex_text_is_id(b);
    let t = hex_text(b);
    assert forall|i: int| 0 <= i < b.len() implies #[trigger] hex_bytes(t)[i] == b[i] by {
        let hi = b[i] as int / 16;
        let lo = b[i] as int % 16;
        lemma_lower_digit(hi);
        lemma_lower_digit(lo);
        assert((2 * i) / 2 == i);
        assert((2 * i + 1) / 2 == i);
        assert(t[2 * i] == lower_digit(hi));
        assert(t[2 * i + 1] == lower_digit(lo));
    }
    assert(hex_bytes(t) =~= b);
}

} // verus!
