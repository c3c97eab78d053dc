use vstd::prelude::*;
use crate::encoding::same_bytes;
use crate::error::KeyError;
use crate::keys::{address, address_of, is_view_of, view, Scalar};
use crate::params::ThresholdParams;

verus! {

/// Position `p` holds the last record of its participant index in `s`.
pub open spec fn is_last(s: Seq<ThresholdParams>, p: int) -> bool {
    forall|q: int| p < q < s.len() ==> #[trigger] s[q].i != s[p].i
}

/// Among the first `m` records of `s`, the positions that hold the last record of their
/// participant index, in increasing order.
pub open spec fn last_positions(s: Seq<ThresholdParams>, m: nat) -> Seq<usize>
    decreases m,
{
    if m == 0 {
        Seq::empty()
    } else {
        let p = (m - 1) as nat;
        last_positions(s, p) + if is_last(s, p as int) {
            seq![p as usize]
        } else {
            Seq::empty()
        }
    }
}

/// All records agree with the first on the threshold and on the number of participants.
pub open spec fn consistent(s: Seq<ThresholdParams>) -> bool {
    forall|k: int| 0 <= k < s.len() ==> #[trigger] s[k].t == s[0].t && s[k].n == s[0].n
}

/// Which records recovery uses, keyed by the participant index each carries, or why it
/// refuses them.
pub open spec fn selection(s: Seq<ThresholdParams>) -> Result<Seq<usize>, KeyError> {
    if s.len() == 0 {
        Err(KeyError::InsufficientShares)
    } else if exists|k: int| 0 <= k < s.len() && !(#[trigger] s[k]).wf() {
        Err(KeyError::MalformedRecord)
    } else if !consistent(s) {
        Err(KeyError::MismatchedParams)
    } else if last_positions(s, s.len()).len() < s[0].t {
        Err(KeyError::InsufficientShares)
    } else {
        Ok(last_positions(s, s.len()))
    }
}

/// Chooses the records to recover the key from, given the parameters embedded in each:
/// one record per participant index (the last one where an index repeats). Refuses
/// records with invalid parameters, records that disagree on `t` or `n`, and fewer
/// distinct participants than the threshold.
pub fn select_shares(s: &Vec<ThresholdParams>) -> (r: Result<Vec<usize>, KeyError>)
    ensures
        r matches Ok(v) ==> selection(s@) == Ok::<Seq<usize>, KeyError>(v@),
        r matches Err(e) ==> selection(s@) == Err::<Seq<usize>, KeyError>(e),
{
    if s.len() == 0 {
        return Err(KeyError::InsufficientShares);
    }
    let mut k: usize = 0;
    while k < s.len()
        invariant
            0 <= k <= s@.len(),
            forall|j: int| 0 <= j < k ==> (#[trigger] s@[j]).wf(),
        decreases s@.len() - k,
    {
        let p = s[k];
        if !(1 <= p.t && p.t <= p.n && 1 <= p.i && p.i <= p.n) {
            return Err(KeyError::MalformedRecord);
        }
        k = k + 1;
    }
    let t = s[0].t;
    let n = s[0].n;
    k = 0;
    while k < s.len()
        invariant
            0 <= k <= s@.len(),
            s@.len() > 0,
            t == s@[0].t,
            n == s@[0].n,
            forall|j: int| 0 <= j < k ==> #[trigger] s@[j].t == t && s@[j].n == n,
            forall|j: int| 0 <= j < s@.len() ==> (#[trigger] s@[j]).wf(),
        decreases s@.len() - k,
    {
        if s[k].t != t || s[k].n != n {
            return Err(KeyError::MismatchedParams);
        }
        k = k + 1;
    }
    let mut chosen: Vec<usize> = Vec::new();
    let mut p: usize = 0;
    while p < s.len()
        invariant
            0 <= p <= s@.len(),
            chosen@ == last_positions(s@, p as nat),
            chosen@.len() <= p,
        decreases s@.len() - p,
    {
        let mut q: usize = p + 1;
        let mut last = true;
        while q < s.len()
            invariant
                p < q <= s@.len() || (q == p + 1 && p < s@.len()),
                last == forall|j: int| p < j < q ==> #[trigger] s@[j].i != s@[p as int].i,
            decreases s@.len() - q,
        {
            if s[q].i == s[p].i {
                last = false;
            }
            q = q + 1;
        }
        assert(last == is_last(s@, p as int));
        if last {
            chosen.push(p);
        }
        assert(chosen@ =~= last_positions(s@, (p + 1) as nat));
        p = p + 1;
    }
    if chosen.len() < t as usize {
        Err(KeyError::InsufficientShares)
    } else {
        Ok(chosen)
    }
}

proof fn lemma_last_positions_len(s: Seq<ThresholdParams>, m: nat)
    ensures
        last_positions(s, m).len() <= m,
    decreases m,
{
    if m > 0 {
        lemma_last_positions_len(s, (m - 1) as nat);
    }
}

/// Fewer valid, consistent records than the threshold never recover a key: recovery
/// refuses them for want of shares.
pub proof fn lemma_too_few_shares(s: Seq<ThresholdParams>)
    requires
        s.len() > 0 ==> s.len() < s[0].t,
        forall|k: int| 0 <= k < s.len() ==> (#[trigger] s[k]).wf(),
        consistent(s),
    ensures
        selection(s) == Err::<Seq<usize>, KeyError>(KeyError::InsufficientShares),
{
    lemma_last_positions_len(s, s.len());
}

proof fn lemma_distinct_all_last(s: Seq<ThresholdParams>, m: nat)
    requires
        m <= s.len(),
        forall|a: int, b: int| 0 <= a < b < s.len() ==> #[trigger] s[a].i != #[trigger] s[b].i,
    ensures
        last_positions(s, m) == Seq::new(m, |k: int| k as usize),
    decreases m,
{
    if m > 0 {
        lemma_distinct_all_last(s, (m - 1) as nat);
        assert(is_last(s, m - 1));
        assert(last_positions(s, m) =~= Seq::new(m, |k: int| k as usize));
    }
}

/// Valid, consistent records of distinct participants, at least as many as the
/// threshold, are all used by recovery.
pub proof fn lemma_enough_shares(s: Seq<ThresholdParams>)
    requires
        s.len() > 0,
        s.len() >= s[0].t,
        forall|k: int| 0 <= k < s.len() ==> (#[trigger] s[k]).wf(),
        consistent(s),
        forall|a: int, b: int| 0 <= a < b < s.len() ==> #[trigger] s[a].i != #[trigger] s[b].i,
    ensures
        selection(s) == Ok::<Seq<usize>, KeyError>(Seq::new(s.len(), |k: int| k as usize)),
{
    lemma_distinct_all_last(s, s.len());
}

/// The wallet recovered from, or generated as, a spend scalar.
#[derive(Clone, Debug)]
pub struct Identity {
    pub spend: Scalar,
    pub view: Scalar,
    pub address: String,
}

impl Identity {
    /// `view` and `address` are the ones that `spend` determines.
    pub open spec fn wf(&self) -> bool {
        &&& self.spend.wf()
        &&& self.view.wf()
        &&& is_view_of(self.spend, self.view)
        &&& self.address@ == address_of(self.spend, self.view)
    }

    /// The same spend bytes, view bytes and address text.
    pub open spec fn same_as(&self, o: Identity) -> bool {
        &&& self.spend.bytes@ == o.spend.bytes@
        &&& self.view.bytes@ == o.view.bytes@
        &&& self.address@ == o.address@
    }
}

/// The view scalar and the address of the wallet with spend scalar `spend`.
pub fn derive_identity(spend: Scalar) -> (r: Identity)
    requires
        spend.wf(),
    ensures
        r.wf(),
        r.spend == spend,
{
    let v = view(spend);
    let a = address(spend, v);
    Identity { spend, view: v, address: a }
}

/// Compares the wallet read back after writing with the one that was written; any
/// difference is corruption.
pub fn check_round_trip(written: &Identity, loaded: &Identity) -> (r: Result<(), KeyError>)
    ensures
        r is Ok <==> written.same_as(*loaded),
        r is Err ==> r == Err::<(), KeyError>(KeyError::RoundTrip),
{
    if same_bytes(&written.spend.bytes, &loaded.spend.bytes) && same_bytes(
        &written.view.bytes,
        &loaded.view.bytes,
    ) && written.address == loaded.address {
        Ok(())
    } else {
        Err(KeyError::RoundTrip)
    }
}

/// Two wallets derived from spend scalars of the same bytes are the same wallet, so a
/// wallet read back from its own records passes the round-trip check.
pub proof fn lemma_identity_determined(a: Identity, b: Identity)
    requires
        a.wf(),
        b.wf(),
        a.spend.bytes@ == b.spend.bytes@,
    ensures
        a.same_as(b),
{
    crate::keys::lemma_view_deterministic(a.spend, a.view, b.view);
    assert(a.spend.bytes@ == b.spend.bytes@);
}

} // verus!
