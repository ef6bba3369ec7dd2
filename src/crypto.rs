use vstd::prelude::*;
use vstd::string::StringSliceAdditionalSpecFns;

verus! {

/// The SHA-256 digest of some bytes.
pub uninterp spec fn sha256_of(b: Seq<u8>) -> Seq<u8>;

/// The lowercase hexadecimal digit for a value below 16.
pub open spec fn hex_digit(n: u8) -> char {
    if n < 10 {
        (n + 48) as u8 as char
    } else {
        (n + 87) as u8 as char
    }
}

/// Two lowercase hexadecimal digits per byte, high half first.
pub open spec fn hex_text(b: Seq<u8>) -> Seq<char>
    decreases b.len(),
{
    if b.len() == 0 {
        Seq::empty()
    } else {
        hex_text(b.drop_last()) + seq![hex_digit(b.last() / 16), hex_digit(b.last() % 16)]
    }
}

/// A lowercase hexadecimal digit.
pub open spec fn is_lower_hex(c: char) -> bool {
    ('0' <= c <= '9') || ('a' <= c <= 'f')
}

/// Hexadecimal text has two digits per byte, each a lowercase hexadecimal digit.
pub proof fn lemma_hex_text(b: Seq<u8>)
    ensures
        hex_text(b).len() == 2 * b.len(),
        forall|i: int| 0 <= i < hex_text(b).len() ==> is_lower_hex(#[trigger] hex_text(b)[i]),
    decreases b.len(),
{
    if b.len() > 0 {
        lemma_hex_text(b.drop_last());
        let hi = b.last() / 16;
        let lo = b.last() % 16;
        assert(is_lower_hex(hex_digit(hi)));
        assert(is_lower_hex(hex_digit(lo)));
        let p = hex_text(b.drop_last());
        assert forall|i: int| 0 <= i < hex_text(b).len() implies is_lower_hex(
            #[trigger] hex_text(b)[i],
        ) by {
            if i < p.len() {
                assert(hex_text(b)[i] == p[i]);
            }
        }
    }
}

/// The little-endian bytes of a 128-bit number.
pub open spec fn le_bytes(n: u128) -> Seq<u8> {
    Seq::new(16, |i: int| ((n >> (8 * i) as u128) % 256) as u8)
}

/// Relies on `sha2::Sha256`: the digest depends on the bytes alone and is 32 bytes long.
#[verifier::external_body]
fn sha256(b: &[u8]) -> (r: Vec<u8>)
    ensures
        r@ == sha256_of(b@),
        r@.len() == 32,
{
    <sha2::Sha256 as sha2::Digest>::digest(b).to_vec()
}

/// Relies on `hex::encode`: two lowercase digits per byte, high half first.
#[verifier::external_body]
fn to_hex(b: &[u8]) -> (r: String)
    ensures
        r@ == hex_text(b@),
{
    hex::encode(b)
}

/// Relies on `rand::random::<u128>`; nothing is known of the number drawn.
#[verifier::external_body]
fn random_u128() -> u128 {
    rand::random::<u128>()
}

/// The hexadecimal SHA-256 digest of the UTF-8 bytes of `input`.
pub fn hash_data(input: &str) -> (r: String)
    ensures
        r@ == hex_text(sha256_of(input.spec_bytes())),
        r@.len() == 64,
        forall|i: int| 0 <= i < r@.len() ==> is_lower_hex(#[trigger] r@[i]),
{
    let d = sha256(input.as_bytes());
    proof {
        lemma_hex_text(d@);
    }
    to_hex(d.as_slice())
}

/// The node id derived from a 128-bit seed: the hexadecimal SHA-256 digest
/// of its little-endian bytes.
pub fn node_id_from_seed(n: u128) -> (r: String)
    ensures
        r@ == hex_text(sha256_of(le_bytes(n))),
        r@.len() == 64,
        forall|i: int| 0 <= i < r@.len() ==> is_lower_hex(#[trigger] r@[i]),
{
    let mut bytes: Vec<u8> = Vec::new();
    let mut i: u32 = 0;
    while i < 16
        invariant
            i <= 16,
            bytes@ == le_bytes(n).subrange(0, i as int),
        decreases 16 - i,
    {
        bytes.push(((n >> (8 * i)) % 256) as u8);
        assert(bytes@ =~= le_bytes(n).subrange(0, i + 1));
        i = i + 1;
    }
    assert(bytes@ =~= le_bytes(n));
    let d = sha256(bytes.as_slice());
    proof {
        lemma_hex_text(d@);
    }
    to_hex(d.as_slice())
}

/// A fresh random node id: the id derived from a random seed.
pub fn generate_node_id() -> (r: String)
    ensures
        exists|n: u128| r@ == hex_text(sha256_of(le_bytes(n))),
        r@.len() == 64,
        forall|i: int| 0 <= i < r@.len() ==> is_lower_hex(#[trigger] r@[i]),
{
    let n = random_u128();
    node_id_from_seed(n)
}

} // verus!
