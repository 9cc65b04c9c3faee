//! Groups signing jobs so that those with one key are computed together.

use std::collections::VecDeque;
use vstd::prelude::*;

verus! {

pub const MINIMUM_BATCH_CMAC_BYTES: usize = 1024;

pub const MAXIMUM_INLINE_BATCH_CMAC_BYTES: usize = 65535;

/// How many jobs are computed together at most.
pub const CMAC_LANES: usize = 4;

#[derive(Clone, Copy, Debug, PartialEq, Eq, Structural)]
pub struct BatchJob {
    /// Names the job to whoever waits for it.
    pub job_id: u64,
    /// Names the key that signs it.
    pub key_id: u64,
}

#[derive(Clone, Copy, Debug, PartialEq, Eq, Structural)]
pub enum BatchError {
    /// Only jobs whose key can be shared may enter.
    NotBatchable,
    /// The computation of the batch failed.
    CalculationFailed,
    /// Whoever drained the queue was cancelled.
    LeaderCancelled,
    /// The coordinator stopped before the job was done.
    Stopped,
}

#[verifier::ext_equal]
pub struct BatchModel {
    pub queue: Seq<BatchJob>,
    /// Whether somebody drains the queue.
    pub leader_active: bool,
}

/// The first `n` jobs of a queue with a given key, in their order.
pub open spec fn picked(queue: Seq<BatchJob>, key_id: u64, n: nat) -> Seq<BatchJob>
    decreases queue.len(),
{
    if queue.len() == 0 || n == 0 {
        Seq::empty()
    } else if queue[0].key_id == key_id {
        seq![queue[0]] + picked(queue.drop_first(), key_id, (n - 1) as nat)
    } else {
        picked(queue.drop_first(), key_id, n)
    }
}

/// What is left of a queue without those jobs, in its order.
pub open spec fn left_over(queue: Seq<BatchJob>, key_id: u64, n: nat) -> Seq<BatchJob>
    decreases queue.len(),
{
    if queue.len() == 0 || n == 0 {
        queue
    } else if queue[0].key_id == key_id {
        left_over(queue.drop_first(), key_id, (n - 1) as nat)
    } else {
        seq![queue[0]] + left_over(queue.drop_first(), key_id, n)
    }
}

impl BatchModel {
    /// A job enters; the first one becomes the leader that drains the queue.
    pub open spec fn enter(self, job: BatchJob) -> (Self, bool) {
        (BatchModel { queue: self.queue.push(job), leader_active: true }, !self.leader_active)
    }

    /// The leader takes the next batch, or leaves.
    pub open spec fn next_batch(self) -> (Self, Seq<BatchJob>) {
        if self.queue.len() == 0 {
            (BatchModel { leader_active: false, ..self }, Seq::empty())
        } else {
            let key_id = self.queue[0].key_id;
            (
                BatchModel { queue: left_over(self.queue, key_id, CMAC_LANES as nat), ..self },
                picked(self.queue, key_id, CMAC_LANES as nat),
            )
        }
    }
}

/// A batch holds jobs of one key, at most one for each lane, and at least
/// one while any job waits.
pub proof fn batches_have_one_key(model: BatchModel)
    ensures
        model.next_batch().1.len() <= CMAC_LANES,
        model.queue.len() > 0 ==> model.next_batch().1.len() > 0 && model.next_batch().1[0]
            == model.queue[0],
        forall|i: int|
            0 <= i < model.next_batch().1.len() ==> (#[trigger] model.next_batch().1[i]).key_id
                == model.queue[0].key_id,
{
    if model.queue.len() > 0 {
        picked_has_one_key(model.queue, model.queue[0].key_id, CMAC_LANES as nat);
    }
}

proof fn picked_has_one_key(queue: Seq<BatchJob>, key_id: u64, n: nat)
    ensures
        picked(queue, key_id, n).len() <= n,
        forall|i: int|
            0 <= i < picked(queue, key_id, n).len() ==> (#[trigger] picked(
                queue,
                key_id,
                n,
            )[i]).key_id == key_id,
    decreases queue.len(),
{
    if queue.len() > 0 && n > 0 {
        if queue[0].key_id == key_id {
            picked_has_one_key(queue.drop_first(), key_id, (n - 1) as nat);
        } else {
            picked_has_one_key(queue.drop_first(), key_id, n);
        }
    }
}

/// No job is lost and none is made up: those of a batch and those that are
/// left are those that waited.
pub proof fn no_job_is_lost(model: BatchModel)
    ensures
        model.next_batch().0.queue.to_multiset().add(model.next_batch().1.to_multiset())
            =~= model.queue.to_multiset(),
{
    broadcast use vstd::seq_lib::group_to_multiset_ensures;

    if model.queue.len() > 0 {
        parted(model.queue, model.queue[0].key_id, CMAC_LANES as nat);
    } else {
        assert(model.queue =~= Seq::<BatchJob>::empty());
    }
}

proof fn parted(queue: Seq<BatchJob>, key_id: u64, n: nat)
    ensures
        left_over(queue, key_id, n).to_multiset().add(picked(queue, key_id, n).to_multiset())
            =~= queue.to_multiset(),
    decreases queue.len(),
{
    broadcast use vstd::seq_lib::group_to_multiset_ensures;

    if queue.len() == 0 || n == 0 {
        assert(queue.to_multiset().add(Seq::<BatchJob>::empty().to_multiset())
            =~= queue.to_multiset());
    } else {
        let rest = queue.drop_first();
        assert(queue =~= seq![queue[0]] + rest);
        vstd::seq_lib::lemma_multiset_commutative(seq![queue[0]], rest);
        if queue[0].key_id == key_id {
            parted(rest, key_id, (n - 1) as nat);
            vstd::seq_lib::lemma_multiset_commutative(
                seq![queue[0]],
                picked(rest, key_id, (n - 1) as nat),
            );
        } else {
            parted(rest, key_id, n);
            vstd::seq_lib::lemma_multiset_commutative(
                seq![queue[0]],
                left_over(rest, key_id, n),
            );
        }
    }
}

/// Each batch shortens the queue, so that the leader comes to its end.
pub proof fn draining_ends(model: BatchModel)
    requires
        model.queue.len() > 0,
    ensures
        model.next_batch().0.queue.len() == model.queue.len() - model.next_batch().1.len(),
        model.next_batch().0.queue.len() < model.queue.len(),
{
    lengths(model.queue, model.queue[0].key_id, CMAC_LANES as nat);
    batches_have_one_key(model);
}

proof fn lengths(queue: Seq<BatchJob>, key_id: u64, n: nat)
    ensures
        left_over(queue, key_id, n).len() + picked(queue, key_id, n).len() == queue.len(),
    decreases queue.len(),
{
    if queue.len() > 0 && n > 0 {
        if queue[0].key_id == key_id {
            lengths(queue.drop_first(), key_id, (n - 1) as nat);
        } else {
            lengths(queue.drop_first(), key_id, n);
        }
    }
}

/// The jobs of a queue with a given key, in their order.
pub open spec fn of_key(queue: Seq<BatchJob>, key_id: u64) -> Seq<BatchJob> {
    queue.filter(|job: BatchJob| job.key_id == key_id)
}

/// Jobs of one key are signed in the order in which they entered: a batch
/// holds the oldest of them, and the others follow.
pub proof fn jobs_are_signed_in_their_order(model: BatchModel)
    requires
        model.queue.len() > 0,
    ensures
        model.next_batch().1 + of_key(model.next_batch().0.queue, model.queue[0].key_id) == of_key(
            model.queue,
            model.queue[0].key_id,
        ),
{
    oldest_first(model.queue, model.queue[0].key_id, CMAC_LANES as nat);
}

proof fn of_key_first(queue: Seq<BatchJob>, key_id: u64)
    requires
        queue.len() > 0,
    ensures
        of_key(queue, key_id) == (if queue[0].key_id == key_id {
            seq![queue[0]]
        } else {
            Seq::empty()
        }) + of_key(queue.drop_first(), key_id),
{
    let keyed = |job: BatchJob| job.key_id == key_id;
    assert(queue =~= seq![queue[0]] + queue.drop_first());
    Seq::filter_distributes_over_add(seq![queue[0]], queue.drop_first(), keyed);
    reveal(Seq::filter);
    let one = seq![queue[0]];
    assert(one.drop_last() =~= Seq::<BatchJob>::empty());
    assert(one.drop_last().filter(keyed) =~= Seq::<BatchJob>::empty());
    assert(one.filter(keyed) =~= if queue[0].key_id == key_id {
        one
    } else {
        Seq::empty()
    });
}

proof fn oldest_first(queue: Seq<BatchJob>, key_id: u64, n: nat)
    ensures
        picked(queue, key_id, n) + of_key(left_over(queue, key_id, n), key_id) =~= of_key(
            queue,
            key_id,
        ),
    decreases queue.len(),
{
    if queue.len() > 0 && n > 0 {
        let rest = queue.drop_first();
        of_key_first(queue, key_id);
        if queue[0].key_id == key_id {
            oldest_first(rest, key_id, (n - 1) as nat);
        } else {
            oldest_first(rest, key_id, n);
            let left = left_over(queue, key_id, n);
            of_key_first(left, key_id);
            assert(left.drop_first() =~= left_over(rest, key_id, n));
        }
    }
}

pub struct CmacBatcher {
    queue: VecDeque<BatchJob>,
    leader_active: bool,
}

impl View for CmacBatcher {
    type V = BatchModel;

    closed spec fn view(&self) -> BatchModel {
        BatchModel { queue: self.queue@, leader_active: self.leader_active }
    }
}

/// Whether a message of this length is signed in a batch.
pub fn should_batch(bytes: usize) -> (batch: bool)
    ensures
        batch == (1024 <= bytes <= 65535),
{
    MINIMUM_BATCH_CMAC_BYTES <= bytes && bytes <= MAXIMUM_INLINE_BATCH_CMAC_BYTES
}

/// What each job of a batch is told: its own signature, where there is one
/// for each job; else that the computation failed.
pub fn batch_results(jobs: usize, signatures: Option<Vec<u128>>) -> (results: Result<
    Vec<u128>,
    BatchError,
>)
    ensures
        match signatures {
            Some(signatures) => if signatures@.len() == jobs {
                results is Ok && results->Ok_0@ == signatures@
            } else {
                results == Err::<Vec<u128>, BatchError>(BatchError::CalculationFailed)
            },
            None => results == Err::<Vec<u128>, BatchError>(BatchError::CalculationFailed),
        },
{
    match signatures {
        Some(signatures) => if signatures.len() == jobs {
            Ok(signatures)
        } else {
            Err(BatchError::CalculationFailed)
        },
        None => Err(BatchError::CalculationFailed),
    }
}

impl CmacBatcher {
    pub fn new() -> (batcher: Self)
        ensures
            batcher@ == (BatchModel { queue: Seq::empty(), leader_active: false }),
    {
        CmacBatcher { queue: VecDeque::new(), leader_active: false }
    }

    /// A job enters the queue. Whoever brought the first one has to drain it.
    pub fn enter(&mut self, job_id: u64, key_id: Option<u64>) -> (leads: Result<bool, BatchError>)
        ensures
            match key_id {
                Some(key_id) => {
                    let entered = old(self)@.enter(BatchJob { job_id, key_id });
                    final(self)@ == entered.0 && leads == Ok::<bool, BatchError>(entered.1)
                },
                None => final(self)@ == old(self)@ && leads == Err::<bool, BatchError>(
                    BatchError::NotBatchable,
                ),
            },
    {
        match key_id {
            Some(key_id) => {
                let leads = !self.leader_active;
                self.queue.push_back(BatchJob { job_id, key_id });
                self.leader_active = true;
                assert(self@ =~= old(self)@.enter(BatchJob { job_id, key_id }).0);
                Ok(leads)
            },
            None => Err(BatchError::NotBatchable),
        }
    }

    /// Takes the next batch. An empty one means that the queue was empty,
    /// and that the leader is done.
    pub fn next_batch(&mut self) -> (batch: Vec<BatchJob>)
        ensures
            (final(self)@, batch@) == old(self)@.next_batch(),
    {
        let mut batch: Vec<BatchJob> = Vec::new();
        if self.queue.len() == 0 {
            self.leader_active = false;
            assert(self@ =~= old(self)@.next_batch().0);
            return batch;
        }
        let key_id: u64 = self.queue[0].key_id;
        let mut rest: VecDeque<BatchJob> = VecDeque::new();
        let mut i: usize = 0;
        let ghost queue = self.queue@;
        proof {
            assert(queue.skip(0) =~= queue);
        }
        while i < self.queue.len()
            invariant
                i <= queue.len(),
                self.queue@ == queue,
                batch@.len() <= CMAC_LANES,
                picked(queue, key_id, CMAC_LANES as nat) == batch@ + picked(
                    queue.skip(i as int),
                    key_id,
                    (CMAC_LANES - batch@.len()) as nat,
                ),
                left_over(queue, key_id, CMAC_LANES as nat) == rest@ + left_over(
                    queue.skip(i as int),
                    key_id,
                    (CMAC_LANES - batch@.len()) as nat,
                ),
            decreases queue.len() - i,
        {
            let job: BatchJob = self.queue[i];
            let ghost tail = queue.skip(i as int);
            let ghost batch_before = batch@;
            let ghost rest_before = rest@;
            let ghost open_lanes = (CMAC_LANES - batch@.len()) as nat;
            proof {
                assert(tail[0] == job);
                assert(tail.drop_first() =~= queue.skip(i + 1));
            }
            if batch.len() < CMAC_LANES && job.key_id == key_id {
                batch.push(job);
                proof {
                    let more = picked(queue.skip(i + 1), key_id, (open_lanes - 1) as nat);
                    assert(batch_before + (seq![job] + more) =~= batch@ + more);
                }
            } else {
                rest.push_back(job);
                proof {
                    let more = left_over(queue.skip(i + 1), key_id, open_lanes);
                    assert(left_over(queue.skip(i + 1), key_id, 0) == queue.skip(i + 1));
                    if open_lanes == 0 {
                        assert(tail =~= seq![job] + queue.skip(i + 1));
                    }
                    assert(rest_before + (seq![job] + more) =~= rest@ + more);
                }
            }
            i = i + 1;
        }
        proof {
            assert(queue.skip(queue.len() as int) =~= Seq::<BatchJob>::empty());
            assert(batch@ + Seq::<BatchJob>::empty() =~= batch@);
            assert(rest@ + Seq::<BatchJob>::empty() =~= rest@);
        }
        self.queue = rest;
        batch
    }

    /// The leader was cancelled: every job that waits is told so, and the
    /// next one to enter leads.
    pub fn abandon(&mut self) -> (abandoned: Vec<BatchJob>)
        ensures
            abandoned@ == old(self)@.queue,
            final(self)@ == (BatchModel { queue: Seq::empty(), leader_active: false }),
    {
        let mut abandoned: Vec<BatchJob> = Vec::new();
        let ghost queue = self.queue@;
        let mut i: usize = 0;
        while i < self.queue.len()
            invariant
                i <= queue.len(),
                self.queue@ == queue,
                abandoned@ == queue.take(i as int),
            decreases queue.len() - i,
        {
            abandoned.push(self.queue[i]);
            i = i + 1;
            assert(abandoned@ =~= queue.take(i as int));
        }
        self.queue = VecDeque::new();
        self.leader_active = false;
        assert(queue.take(i as int) =~= queue);
        abandoned
    }
}

/// The first job to enter an idle queue drains it; every job stands behind
/// those that came before it. Without any job the leader leaves.
pub proof fn the_first_job_leads(model: BatchModel, job: BatchJob)
    ensures
        model.enter(job).1 == !model.leader_active,
        model.enter(job).0.leader_active,
        model.enter(job).0.queue.len() == model.queue.len() + 1,
        model.enter(job).0.queue.last() == job,
        model.enter(job).0.queue.drop_last() == model.queue,
        model.queue.len() == 0 ==> !model.next_batch().0.leader_active
            && model.next_batch().1.len() == 0,
        model.queue.len() > 0 ==> model.next_batch().0.leader_active == model.leader_active,
{
    assert(model.enter(job).0.queue.drop_last() =~= model.queue);
}

/// A batch is as large as it can be: it holds four jobs of the oldest job's
/// key, or all of them where there are fewer. The jobs of other keys stay, in
/// their order.
pub proof fn batches_are_full(model: BatchModel, other: u64)
    requires
        model.queue.len() > 0,
        other != model.queue[0].key_id,
    ensures
        model.next_batch().1.len() <= 4,
        model.next_batch().1.len() < 4 ==> model.next_batch().1 == of_key(
            model.queue,
            model.queue[0].key_id,
        ),
        of_key(model.next_batch().0.queue, other) == of_key(model.queue, other),
{
    let key_id = model.queue[0].key_id;
    batches_have_one_key(model);
    all_are_picked(model.queue, key_id, CMAC_LANES as nat);
    others_stay(model.queue, key_id, CMAC_LANES as nat, other);
}

proof fn all_are_picked(queue: Seq<BatchJob>, key_id: u64, n: nat)
    ensures
        picked(queue, key_id, n).len() < n ==> picked(queue, key_id, n) == of_key(queue, key_id),
    decreases queue.len(),
{
    if queue.len() == 0 {
        reveal(Seq::filter);
        assert(of_key(queue, key_id) =~= Seq::<BatchJob>::empty());
    } else if n > 0 {
        of_key_first(queue, key_id);
        if queue[0].key_id == key_id {
            all_are_picked(queue.drop_first(), key_id, (n - 1) as nat);
        } else {
            all_are_picked(queue.drop_first(), key_id, n);
            assert(Seq::<BatchJob>::empty() + of_key(queue.drop_first(), key_id) =~= of_key(
                queue.drop_first(),
                key_id,
            ));
        }
    }
}

proof fn others_stay(queue: Seq<BatchJob>, key_id: u64, n: nat, other: u64)
    requires
        other != key_id,
    ensures
        of_key(left_over(queue, key_id, n), other) == of_key(queue, other),
    decreases queue.len(),
{
    if queue.len() > 0 && n > 0 {
        let rest = queue.drop_first();
        of_key_first(queue, other);
        if queue[0].key_id == key_id {
            others_stay(rest, key_id, (n - 1) as nat, other);
            assert(Seq::<BatchJob>::empty() + of_key(rest, other) =~= of_key(rest, other));
        } else {
            others_stay(rest, key_id, n, other);
            let left = left_over(queue, key_id, n);
            of_key_first(left, other);
            assert(left.drop_first() =~= left_over(rest, key_id, n));
        }
    }
}

} // verus!
