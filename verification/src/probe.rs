//! The stack probe and the sink that its readings are recorded in.

use vstd::prelude::*;

verus! {

/// `stacker::remaining_stack` reports how many bytes lie between the current
/// stack pointer and the limit of the running thread's stack, or `None` where
/// the platform gives no limit. The answer depends on the machine and on the
/// point of the call, so nothing is claimed of it.
pub assume_specification[ stacker::remaining_stack ]() -> (remaining: Option<usize>)
;

/// The samples held after one reading was offered to a sink that held `before`.
pub open spec fn recorded(before: Seq<usize>, reading: Option<usize>) -> Seq<usize> {
    match reading {
        Some(remaining) => before.push(remaining),
        None => before,
    }
}

/// The readings that were available, in the order in which they were taken.
pub open spec fn kept(readings: Seq<Option<usize>>) -> Seq<usize>
    decreases readings.len(),
{
    if readings.len() == 0 {
        Seq::empty()
    } else {
        recorded(kept(readings.drop_last()), readings.last())
    }
}

/// `after` is `before` followed by what `levels` consecutive readings of the
/// probe left behind: one reading per level, the unavailable ones skipped.
pub open spec fn sampled(before: Seq<usize>, after: Seq<usize>, levels: nat) -> bool {
    exists|readings: Seq<Option<usize>>|
        readings.len() == levels && after == before + #[trigger] kept(readings)
}

/// Appends `reading` to the samples if the probe could give one, and leaves
/// the samples as they are if it could not.
pub fn record_sample(stack_info: &mut Vec<usize>, reading: Option<usize>)
    ensures
        final(stack_info)@ == recorded(old(stack_info)@, reading),
{
    if let Some(remaining) = reading {
        stack_info.push(remaining);
    }
}

/// No reading is invented: at most one sample is kept per reading.
pub proof fn lemma_kept_len(readings: Seq<Option<usize>>)
    ensures
        kept(readings).len() <= readings.len(),
    decreases readings.len(),
{
    if readings.len() > 0 {
        lemma_kept_len(readings.drop_last());
    }
}

/// Where the probe answers at every level, every level leaves its sample, in
/// call order.
pub proof fn lemma_kept_all_available(readings: Seq<Option<usize>>)
    requires
        forall|i: int| 0 <= i < readings.len() ==> readings[i] is Some,
    ensures
        kept(readings).len() == readings.len(),
        forall|i: int| 0 <= i < readings.len() ==> readings[i] == Some(#[trigger] kept(readings)[i]),
    decreases readings.len(),
{
    if readings.len() > 0 {
        lemma_kept_all_available(readings.drop_last());
    }
}

/// Where the probe is unavailable throughout, nothing is recorded.
pub proof fn lemma_kept_none_available(readings: Seq<Option<usize>>)
    requires
        forall|i: int| 0 <= i < readings.len() ==> readings[i] is None,
    ensures
        kept(readings).len() == 0,
    decreases readings.len(),
{
    if readings.len() > 0 {
        lemma_kept_none_available(readings.drop_last());
    }
}

/// Readings taken one after another are kept one after another.
pub proof fn lemma_kept_concat(first: Seq<Option<usize>>, second: Seq<Option<usize>>)
    ensures
        kept(first + second) == kept(first) + kept(second),
    decreases second.len(),
{
    if second.len() == 0 {
        assert(first + second =~= first);
        assert(kept(first) + kept(second) =~= kept(first));
    } else {
        lemma_kept_concat(first, second.drop_last());
        assert((first + second).drop_last() =~= first + second.drop_last());
        assert((first + second).last() == second.last());
        assert(kept(first + second) =~= kept(first) + kept(second));
    }
}

/// A walk only appends: what the sink held stays, and at most one sample per
/// level is added.
pub proof fn lemma_sampled_extends(before: Seq<usize>, after: Seq<usize>, levels: nat)
    requires
        sampled(before, after, levels),
    ensures
        before.len() <= after.len() <= before.len() + levels,
        after.subrange(0, before.len() as int) == before,
{
    let readings = choose|readings: Seq<Option<usize>>|
        readings.len() == levels && after == before + #[trigger] kept(readings);
    lemma_kept_len(readings);
    assert(after.subrange(0, before.len() as int) =~= before);
}

/// One walk after another reads the probe once for each level of either.
pub proof fn lemma_sampled_then(
    before: Seq<usize>,
    middle: Seq<usize>,
    after: Seq<usize>,
    first: nat,
    second: nat,
)
    requires
        sampled(before, middle, first),
        sampled(middle, after, second),
    ensures
        sampled(before, after, first + second),
{
    let r1 = choose|readings: Seq<Option<usize>>|
        readings.len() == first && middle == before + #[trigger] kept(readings);
    let r2 = choose|readings: Seq<Option<usize>>|
        readings.len() == second && after == middle + #[trigger] kept(readings);
    lemma_kept_concat(r1, r2);
    assert(after =~= before + kept(r1 + r2));
}

/// A single reading, recorded, is a walk of one level.
pub proof fn lemma_sampled_one(before: Seq<usize>, reading: Option<usize>)
    ensures
        sampled(before, recorded(before, reading), 1),
{
    let readings = seq![reading];
    assert(readings.drop_last() =~= Seq::<Option<usize>>::empty());
    assert(kept(readings.drop_last()) =~= Seq::<usize>::empty());
    assert(recorded(before, reading) =~= before + kept(readings));
}

} // verus!
