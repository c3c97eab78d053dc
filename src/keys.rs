use vstd::prelude::*;
use curve25519_dalek::constants::ED25519_BASEPOINT_TABLE;
use monero::network::Network;
use monero::util::address::Address;
use monero::util::key::PublicKey;
use curve25519_dalek::edwards::CompressedEdwardsY;

verus! {

/// Order of the prime-order subgroup of the Ed25519 curve, 2^252 + 27742317777372353535851937790883648493.
pub open spec fn group_order() -> nat {
    vstd::arithmetic::power2::pow2(252) + 27742317777372353535851937790883648493
}

/// The integer that bytes encode, least significant byte first.
pub open spec fn le_value(b: Seq<u8>) -> nat
    decreases b.len(),
{
    if b.len() == 0 {
        0
    } else {
        b[0] as nat + 256 * le_value(b.drop_first())
    }
}

/// Keccak-256 digest of `data`.
pub uninterp spec fn keccak_of(data: Seq<u8>) -> Seq<u8>;

/// Compressed encoding of the point `scalar` times the Ed25519 base point.
pub uninterp spec fn public_point_of(scalar: Seq<u8>) -> Seq<u8>;

/// Text of the standard testnet address for a public spend point and a public view point.
pub uninterp spec fn testnet_address_of(spend_point: Seq<u8>, view_point: Seq<u8>) -> Seq<char>;

/// Two byte strings of one length with the same little-endian value are equal.
pub proof fn lemma_le_value_injective(a: Seq<u8>, b: Seq<u8>)
    requires
        a.len() == b.len(),
        le_value(a) == le_value(b),
    ensures
        a == b,
    decreases a.len(),
{
    if a.len() > 0 {
        let x = le_value(a.drop_first());
        let y = le_value(b.drop_first());
        let a0 = a[0] as int;
        let b0 = b[0] as int;
        assert(a0 == b0 && x == y) by (nonlinear_arith)
            requires
                a0 + 256 * x == b0 + 256 * y,
                0 <= a0 < 256,
                0 <= b0 < 256,
                x >= 0,
                y >= 0,
        {
            if x < y {
                assert(256 * x + 256 <= 256 * y);
            } else if y < x {
                assert(256 * y + 256 <= 256 * x);
            }
        }
        lemma_le_value_injective(a.drop_first(), b.drop_first());
        assert(a =~= seq![a[0]] + a.drop_first());
        assert(b =~= seq![b[0]] + b.drop_first());
    }
}

/// A scalar of the Ed25519 group, held as its 32 little-endian bytes.
#[derive(Clone, Copy, Debug)]
pub struct Scalar {
    pub bytes: [u8; 32],
}

impl Scalar {
    /// Its integer value.
    pub open spec fn value(&self) -> nat {
        le_value(self.bytes@)
    }

    /// The bytes are the canonical encoding: the value is below the group order.
    pub open spec fn wf(&self) -> bool {
        self.value() < group_order()
    }

    /// The scalar that 32 little-endian bytes stand for, reduced modulo the group order.
    pub fn from_bytes_mod_order(bytes: [u8; 32]) -> (r: Scalar)
        ensures
            r.wf(),
            r.value() == le_value(bytes@) % group_order(),
    {
        Scalar { bytes: reduce_mod_order(bytes) }
    }

    /// The canonical little-endian bytes.
    pub fn to_bytes(&self) -> (r: [u8; 32])
        ensures
            r == self.bytes,
    {
        self.bytes
    }
}

/// `v` is the view scalar of the wallet whose spend scalar is `spend`: the Keccak-256
/// digest of the spend bytes, reduced modulo the group order.
pub open spec fn is_view_of(spend: Scalar, v: Scalar) -> bool {
    v.value() == le_value(keccak_of(spend.bytes@)) % group_order()
}

/// The address of the wallet with spend scalar `spend` and view scalar `view`.
pub open spec fn address_of(spend: Scalar, view: Scalar) -> Seq<char> {
    testnet_address_of(public_point_of(spend.bytes@), public_point_of(view.bytes@))
}

/// The view scalar derived from a spend scalar.
pub fn view(spend: Scalar) -> (r: Scalar)
    ensures
        r.wf(),
        is_view_of(spend, r),
{
    let digest = keccak(&spend.bytes);
    Scalar::from_bytes_mod_order(digest)
}

/// The view scalar is a function of the spend scalar: any two view scalars derived
/// from one spend scalar are the same bytes.
pub proof fn lemma_view_deterministic(spend: Scalar, v1: Scalar, v2: Scalar)
    requires
        is_view_of(spend, v1),
        is_view_of(spend, v2),
    ensures
        v1.bytes@ == v2.bytes@,
{
    lemma_le_value_injective(v1.bytes@, v2.bytes@);
}

/// The public testnet address of a wallet, from its spend and view scalars.
pub fn address(spend: Scalar, view: Scalar) -> (r: String)
    requires
        spend.wf(),
        view.wf(),
    ensures
        r@ == address_of(spend, view),
{
    let spend_point = public_point(spend.bytes);
    let view_point = public_point(view.bytes);
    testnet_address(spend_point, view_point)
}

/// Relies on monero::cryptonote::hash::keccak_256: the digest depends on the input alone.
#[verifier::external_body]
fn keccak(data: &[u8]) -> (r: [u8; 32])
    ensures
        r@ == keccak_of(data@),
{
    monero::cryptonote::hash::keccak_256(data)
}

/// Relies on curve25519_dalek's Scalar::from_bytes_mod_order: the little-endian value
/// reduced modulo the group order, whose bytes Scalar::to_bytes gives back.
#[verifier::external_body]
fn reduce_mod_order(bytes: [u8; 32]) -> (r: [u8; 32])
    ensures
        le_value(r@) == le_value(bytes@) % group_order(),
{
    curve25519_dalek::scalar::Scalar::from_bytes_mod_order(bytes).to_bytes()
}

/// Relies on curve25519_dalek's multiplication of the Ed25519 base point table by a
/// scalar, compressed; Scalar::from_bits keeps canonical bytes as they are.
#[verifier::external_body]
fn public_point(scalar: [u8; 32]) -> (r: [u8; 32])
    requires
        le_value(scalar@) < group_order(),
    ensures
        r@ == public_point_of(scalar@),
{
    let s = curve25519_dalek::scalar::Scalar::from_bits(scalar);
    (&ED25519_BASEPOINT_TABLE * &s).compress().to_bytes()
}

/// Relies on monero's Address::standard and its Display: the base58 text of the
/// standard testnet address of two compressed points.
#[verifier::external_body]
fn testnet_address(spend_point: [u8; 32], view_point: [u8; 32]) -> (r: String)
    ensures
        r@ == testnet_address_of(spend_point@, view_point@),
{
    let spend = PublicKey { point: CompressedEdwardsY(spend_point) };
    let view = PublicKey { point: CompressedEdwardsY(view_point) };
    Address::standard(Network::Testnet, spend, view).to_string()
}

} // verus!
