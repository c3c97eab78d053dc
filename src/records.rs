use vstd::prelude::*;
use crate::encoding::{decode_hex, decoded, encode_hex, hex_of};
use crate::error::KeyError;
use crate::recovery::Identity;

verus! {

/// What is stored for one participant: the hexadecimal text of its serialized key
/// bundle, which carries its own index and parameters, and optionally the wallet's
/// address and hexadecimal view key for audit.
#[derive(Clone, Debug)]
pub struct KeyShareRecord {
    pub address: Option<String>,
    pub view: Option<String>,
    pub serialized: String,
}

/// Participant `i` receives the audit fields: every participant where no leaders are
/// named, else the leaders alone.
pub open spec fn carries_audit(i: u16, leaders: Option<Seq<u16>>) -> bool {
    match leaders {
        None => true,
        Some(l) => l.contains(i),
    }
}

pub open spec fn leaders_view(leaders: &Option<Vec<u16>>) -> Option<Seq<u16>> {
    match leaders {
        Some(l) => Some(l@),
        None => None,
    }
}

/// `r` is the record of participant `i` whose serialized bundle is `bundle`.
pub open spec fn is_record_for(
    r: KeyShareRecord,
    i: u16,
    bundle: Seq<u8>,
    id: Identity,
    leaders: Option<Seq<u16>>,
) -> bool {
    &&& r.serialized@ == hex_of(bundle)
    &&& carries_audit(i, leaders) ==> (r.address matches Some(a) && a@ == id.address@)
    &&& carries_audit(i, leaders) ==> (r.view matches Some(v) && v@ == hex_of(id.view.bytes@))
    &&& !carries_audit(i, leaders) ==> r.address is None && r.view is None
}

fn contains_index(l: &Vec<u16>, i: u16) -> (r: bool)
    ensures
        r == l@.contains(i),
{
    let mut k: usize = 0;
    while k < l.len()
        invariant
            0 <= k <= l@.len(),
            forall|j: int| 0 <= j < k ==> l@[j] != i,
        decreases l@.len() - k,
    {
        if l[k] == i {
            assert(l@[k as int] == i);
            return true;
        }
        k = k + 1;
    }
    false
}

/// The record of participant `i`, holding `bundle`.
pub fn record_for(i: u16, bundle: &[u8], id: &Identity, leaders: &Option<Vec<u16>>) -> (r:
    KeyShareRecord)
    ensures
        is_record_for(r, i, bundle@, *id, leaders_view(leaders)),
{
    let audit = match leaders {
        None => true,
        Some(l) => contains_index(l, i),
    };
    let serialized = encode_hex(bundle);
    if audit {
        KeyShareRecord {
            address: Some(id.address.clone()),
            view: Some(encode_hex(&id.view.bytes)),
            serialized,
        }
    } else {
        KeyShareRecord { address: None, view: None, serialized }
    }
}

/// One record per participant: `bundles[k]` is the serialized bundle of participant
/// `k + 1`.
pub fn records_for(bundles: &Vec<Vec<u8>>, id: &Identity, leaders: &Option<Vec<u16>>) -> (r: Vec<
    KeyShareRecord,
>)
    requires
        bundles@.len() <= u16::MAX,
    ensures
        r@.len() == bundles@.len(),
        forall|k: int|
            0 <= k < r@.len() ==> is_record_for(
                #[trigger] r@[k],
                (k + 1) as u16,
                bundles@[k]@,
                *id,
                leaders_view(leaders),
            ),
{
    let mut r: Vec<KeyShareRecord> = Vec::new();
    let mut k: usize = 0;
    while k < bundles.len()
        invariant
            0 <= k <= bundles@.len(),
            bundles@.len() <= u16::MAX,
            r@.len() == k,
            forall|j: int|
                0 <= j < k ==> is_record_for(
                    #[trigger] r@[j],
                    (j + 1) as u16,
                    bundles@[j]@,
                    *id,
                    leaders_view(leaders),
                ),
        decreases bundles@.len() - k,
    {
        let rec = record_for((k + 1) as u16, bundles[k].as_slice(), id, leaders);
        r.push(rec);
        k = k + 1;
    }
    r
}

/// The serialized key bundle a record holds.
pub fn bundle_of(record: &KeyShareRecord) -> (r: Result<Vec<u8>, KeyError>)
    ensures
        r matches Ok(b) ==> decoded(record.serialized@) == Some(b@),
        r is Err <==> decoded(record.serialized@) is None,
        r is Err ==> r == Err::<Vec<u8>, KeyError>(KeyError::MalformedRecord),
{
    match decode_hex(record.serialized.as_str()) {
        Ok(b) => Ok(b),
        Err(_) => Err(KeyError::MalformedRecord),
    }
}

/// A record written for a bundle gives that bundle back.
pub proof fn lemma_record_round_trip(
    r: KeyShareRecord,
    i: u16,
    bundle: Seq<u8>,
    id: Identity,
    leaders: Option<Seq<u16>>,
)
    requires
        is_record_for(r, i, bundle, id, leaders),
    ensures
        decoded(r.serialized@) == Some(bundle),
{
    crate::encoding::lemma_hex_round_trip(bundle);
}

} // verus!
