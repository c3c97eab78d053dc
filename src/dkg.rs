use vstd::prelude::*;
use crate::error::KeyError;
use crate::encoding::same_bytes;
use crate::params::valid_threshold;

verus! {

/// The rounds of one key-generation batch.
#[derive(Clone, Copy, Debug, PartialEq, Eq, Structural)]
pub enum Phase {
    /// Each participant publishes its commitment.
    Commit,
    /// Each participant, holding every commitment, deals one share to every other.
    Share,
    /// Each participant takes the shares addressed to it and finishes its keys.
    Finalize,
    /// Every participant finished, all with one group key.
    Done,
    /// The batch failed; none of its keys may be used.
    Aborted,
}

/// The round that follows `p`.
pub open spec fn next_phase(p: Phase) -> Phase {
    match p {
        Phase::Commit => Phase::Share,
        Phase::Share => Phase::Finalize,
        Phase::Finalize => Phase::Done,
        _ => p,
    }
}

/// The work the batch asks for next.
#[derive(Debug)]
pub enum Action {
    /// Participant `i` draws its coefficients and publishes its commitment.
    Commit { i: u16 },
    /// Participant `i` deals its secret shares against the full set of commitments.
    Share { i: u16 },
    /// Participant `i` finishes with the shares that `senders` dealt to it.
    Complete { i: u16, senders: Vec<u16> },
    /// All participants finished.
    Finished,
    /// The batch was aborted.
    Halted,
}

/// A participant's report that it did the work asked of it.
#[derive(Debug)]
pub enum Event {
    Committed { i: u16 },
    Shared { i: u16 },
    /// Participant `i` finished; `group_key` is the encoded group key of its keys.
    Completed { i: u16, group_key: Vec<u8> },
}

/// Every participant of `1..=n` but `i`, in increasing order.
pub open spec fn senders_of(i: u16, n: u16) -> Seq<u16> {
    Seq::new(
        (n - 1) as nat,
        |k: int|
            if k + 1 < i {
                (k + 1) as u16
            } else {
                (k + 2) as u16
            },
    )
}

/// The participants whose shares participant `i` of `n` collects: all the others.
pub fn senders_for(i: u16, n: u16) -> (r: Vec<u16>)
    requires
        1 <= i <= n,
    ensures
        r@ == senders_of(i, n),
{
    let mut r: Vec<u16> = Vec::new();
    let mut j: u32 = 1;
    while j <= n as u32
        invariant
            1 <= i <= n,
            1 <= j <= n as int + 1,
            r@.len() == if j <= i { j - 1 } else { j - 2 },
            forall|k: int|
                0 <= k < r@.len() ==> #[trigger] r@[k] == if k + 1 < i {
                    (k + 1) as u16
                } else {
                    (k + 2) as u16
                },
        decreases n as int + 1 - j,
    {
        if j != i as u32 {
            r.push(j as u16);
        }
        j = j + 1;
    }
    assert(r@ =~= senders_of(i, n));
    r
}

/// One batch of `n` simulated participants running the three rounds, one participant
/// after another, a round starting only once every participant finished the one before.
pub struct Batch {
    pub t: u16,
    pub n: u16,
    pub phase: Phase,
    /// The participant whose work is asked for next.
    pub next: u16,
    /// The group key of the first participant that finished.
    pub group_key: Option<Vec<u8>>,
    /// The group keys of the participants that finished, in order.
    pub finished: Ghost<Seq<Seq<u8>>>,
    /// The indices of the participants that finished, in order.
    pub completed: Ghost<Seq<u16>>,
    /// How many participants published their commitment.
    pub committed: Ghost<nat>,
    /// How many participants dealt their shares.
    pub dealt: Ghost<nat>,
}

/// The participant indices 1, 2, ..., m.
pub open spec fn first_indices(m: nat) -> Seq<u16> {
    Seq::new(m, |k: int| (k + 1) as u16)
}

/// All of `keys` equal `k`.
pub open spec fn all_equal(keys: Seq<Seq<u8>>, k: Seq<u8>) -> bool {
    forall|j: int| 0 <= j < keys.len() ==> #[trigger] keys[j] == k
}

impl Batch {
    pub open spec fn key_model(&self) -> Option<Seq<u8>> {
        match self.group_key {
            Some(k) => Some(k@),
            None => None,
        }
    }

    pub open spec fn wf(&self) -> bool {
        &&& valid_threshold(self.t, self.n)
        &&& 1 <= self.next <= self.n
        &&& self.phase == Phase::Commit ==> self.committed@ == self.next - 1 && self.dealt@ == 0
        &&& self.phase == Phase::Share ==> self.committed@ == self.n && self.dealt@ == self.next - 1
        &&& (self.phase == Phase::Finalize || self.phase == Phase::Done) ==> self.committed@
            == self.n && self.dealt@ == self.n
        &&& (self.phase == Phase::Commit || self.phase == Phase::Share) ==> self.group_key is None
            && self.finished@.len() == 0
        &&& self.phase == Phase::Finalize ==> self.finished@.len() == self.next - 1
            && self.completed@ == first_indices((self.next - 1) as nat)
        &&& (self.phase == Phase::Commit || self.phase == Phase::Share) ==> self.completed@.len()
            == 0
        &&& self.phase == Phase::Done ==> self.completed@ == first_indices(self.n as nat)
        &&& self.phase == Phase::Done ==> self.finished@.len() == self.n && self.next == 1
        &&& self.phase != Phase::Aborted && self.finished@.len() > 0 ==> (self.key_model() matches Some(
            k,
        ) && all_equal(self.finished@, k))
    }

    /// `e` reports the work that the batch asked for.
    pub open spec fn expects(&self, e: Event) -> bool {
        match (self.phase, e) {
            (Phase::Commit, Event::Committed { i }) => i == self.next,
            (Phase::Share, Event::Shared { i }) => i == self.next,
            (Phase::Finalize, Event::Completed { i, .. }) => i == self.next,
            _ => false,
        }
    }

    /// `e` reports a group key other than the one the batch already holds.
    pub open spec fn conflicts(&self, e: Event) -> bool {
        match e {
            Event::Completed { group_key, .. } => self.key_model() matches Some(k) && k != group_key@,
            _ => false,
        }
    }

    /// A batch of `n` participants with threshold `t`, at the first participant's commitment.
    pub fn new(t: u16, n: u16) -> (r: Result<Batch, KeyError>)
        ensures
            r is Ok <==> valid_threshold(t, n),
            r is Err ==> r matches Err(KeyError::Config),
            r matches Ok(b) ==> b.wf() && b.t == t && b.n == n && b.phase == Phase::Commit && b.next
                == 1,
    {
        if 1 <= t && t <= n {
            Ok(Batch { t, n, phase: Phase::Commit, next: 1, group_key: None, finished: Ghost(Seq::empty()), completed: Ghost(Seq::empty()), committed: Ghost(0), dealt: Ghost(0) })
        } else {
            Err(KeyError::Config)
        }
    }

    /// The work to do next.
    pub fn next_action(&self) -> (r: Action)
        requires
            self.wf(),
        ensures
            self.phase == Phase::Commit ==> r == (Action::Commit { i: self.next }),
            self.phase == Phase::Share ==> r == (Action::Share { i: self.next }),
            self.phase == Phase::Finalize ==> (r matches Action::Complete { i, senders } && i
                == self.next && senders@ == senders_of(self.next, self.n)),
            self.phase == Phase::Done ==> r is Finished,
            self.phase == Phase::Aborted ==> r is Halted,
    {
        match self.phase {
            Phase::Commit => Action::Commit { i: self.next },
            Phase::Share => Action::Share { i: self.next },
            Phase::Finalize => Action::Complete { i: self.next, senders: senders_for(self.next, self.n) },
            Phase::Done => Action::Finished,
            Phase::Aborted => Action::Halted,
        }
    }

    /// Takes a participant's report. A report out of order, or a group key that differs
    /// from the one already agreed, aborts the batch.
    pub fn record(&mut self, e: Event) -> (r: Result<(), KeyError>)
        requires
            old(self).wf(),
        ensures
            final(self).wf(),
            final(self).t == old(self).t,
            final(self).n == old(self).n,
            r is Ok <==> old(self).expects(e) && !old(self).conflicts(e),
            r == Err::<(), KeyError>(KeyError::OutOfOrder) <==> !old(self).expects(e),
            r == Err::<(), KeyError>(KeyError::GroupKeyMismatch) <==> old(self).expects(e)
                && old(self).conflicts(e),
            r is Err ==> final(self).phase == Phase::Aborted,
            r is Ok ==> final(self).phase == if old(self).next < old(self).n {
                old(self).phase
            } else {
                next_phase(old(self).phase)
            },
            r is Ok ==> final(self).next == if old(self).next < old(self).n {
                old(self).next + 1
            } else {
                1
            },
            r is Ok && e is Completed ==> final(self).key_model() == Some(
                e->Completed_group_key@,
            ),
            r is Ok && !(e is Completed) ==> final(self).key_model() == old(self).key_model(),
    {
        let expected = match (self.phase, &e) {
            (Phase::Commit, Event::Committed { i }) => *i == self.next,
            (Phase::Share, Event::Shared { i }) => *i == self.next,
            (Phase::Finalize, Event::Completed { i, .. }) => *i == self.next,
            _ => false,
        };
        if !expected {
            self.phase = Phase::Aborted;
            return Err(KeyError::OutOfOrder);
        }
        if let Event::Committed { .. } = e {
            self.committed = Ghost(self.committed@ + 1);
        }
        if let Event::Shared { .. } = e {
            self.dealt = Ghost(self.dealt@ + 1);
        }
        if let Event::Completed { group_key, .. } = e {
            let agrees = match &self.group_key {
                Some(k) => same_bytes(k, &group_key),
                None => true,
            };
            if !agrees {
                self.phase = Phase::Aborted;
                return Err(KeyError::GroupKeyMismatch);
            }
            self.finished = Ghost(self.finished@.push(group_key@));
            self.completed = Ghost(self.completed@.push(self.next));
            assert(self.completed@ =~= first_indices(self.next as nat));
            self.group_key = Some(group_key);
        }
        if self.next < self.n {
            self.next = self.next + 1;
        } else {
            assert(self.phase == Phase::Share ==> self.completed@ =~= first_indices(0));
            self.next = 1;
            self.phase = match self.phase {
                Phase::Commit => Phase::Share,
                Phase::Share => Phase::Finalize,
                _ => Phase::Done,
            };
        }
        Ok(())
    }
}

/// No round starts before every participant finished the one before: dealing starts
/// only once all `n` commitments are published, and finishing only once all `n`
/// participants dealt their shares.
pub proof fn lemma_round_barrier(b: Batch)
    requires
        b.wf(),
    ensures
        b.phase == Phase::Share ==> b.committed@ == b.n,
        b.phase == Phase::Finalize || b.phase == Phase::Done ==> b.committed@ == b.n && b.dealt@
            == b.n,
{
}

/// A batch that reached its end holds exactly one finished participant per index
/// 1..=n, in order, all with one group key: no batch with two group keys ends in
/// success.
pub proof fn lemma_done_means_agreement(b: Batch)
    requires
        b.wf(),
        b.phase == Phase::Done,
    ensures
        b.completed@ == first_indices(b.n as nat),
        b.finished@.len() == b.n,
        b.key_model() matches Some(k) && all_equal(b.finished@, k),
{
}

} // verus!
