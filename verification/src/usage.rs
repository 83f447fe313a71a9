//! Reducing the samples of one walk to the stack that the walk consumed.

use crate::probe::{lemma_sampled_extends, sampled};
use vstd::prelude::*;

verus! {

/// What a walk consumed: the bytes between its first sample and its lowest
/// one, and the number of samples that the figure rests on. The mean cost of
/// a level is `total_used` divided by `samples`.
#[derive(Clone, Copy, Debug, PartialEq, Eq, Structural)]
pub struct StackUsage {
    pub total_used: usize,
    pub samples: usize,
}

/// The smallest of the samples.
pub open spec fn lowest(samples: Seq<usize>) -> usize
    recommends
        samples.len() > 0,
    decreases samples.len(),
{
    if samples.len() <= 1 {
        samples[0]
    } else {
        let earlier = lowest(samples.drop_last());
        if samples.last() < earlier {
            samples.last()
        } else {
            earlier
        }
    }
}

/// The usage that a sequence of samples stands for: none where fewer than two
/// samples were taken, since a single sample spans no distance.
pub open spec fn usage_of(samples: Seq<usize>) -> Option<StackUsage> {
    if samples.len() < 2 {
        None
    } else {
        Some(
            StackUsage {
                total_used: (samples[0] - lowest(samples)) as usize,
                samples: samples.len() as usize,
            },
        )
    }
}

/// `lowest` is a sample, and no sample lies below it.
pub proof fn lemma_lowest_is_minimum(samples: Seq<usize>)
    requires
        samples.len() > 0,
    ensures
        exists|i: int| 0 <= i < samples.len() && samples[i] == lowest(samples),
        forall|i: int| 0 <= i < samples.len() ==> lowest(samples) <= samples[i],
    decreases samples.len(),
{
    if samples.len() > 1 {
        let earlier = samples.drop_last();
        lemma_lowest_is_minimum(earlier);
        let at = choose|i: int| 0 <= i < earlier.len() && earlier[i] == lowest(earlier);
        if samples.last() < lowest(earlier) {
            assert(samples[samples.len() - 1] == lowest(samples));
        } else {
            assert(samples[at] == lowest(samples));
        }
        assert forall|i: int| 0 <= i < samples.len() implies lowest(samples) <= samples[i] by {
            if i < earlier.len() {
                assert(earlier[i] == samples[i]);
            }
        }
    } else {
        assert(samples[0] == lowest(samples));
    }
}

/// Where the samples never rise, the lowest sample is the last one, so the
/// usage is the distance from the first sample to the last.
pub proof fn lemma_lowest_of_descending(samples: Seq<usize>)
    requires
        samples.len() > 0,
        forall|i: int, j: int| 0 <= i <= j < samples.len() ==> samples[i] >= samples[j],
    ensures
        lowest(samples) == samples.last(),
    decreases samples.len(),
{
    if samples.len() > 1 {
        let earlier = samples.drop_last();
        assert forall|i: int, j: int| 0 <= i <= j < earlier.len() implies earlier[i]
            >= earlier[j] by {
            assert(earlier[i] == samples[i]);
            assert(earlier[j] == samples[j]);
        }
        lemma_lowest_of_descending(earlier);
        assert(earlier.last() == samples[samples.len() - 2]);
    }
}

/// A walk of a single level, begun with no samples, spans no distance: it
/// leaves one sample at most, and with that no usage.
pub proof fn lemma_single_level_measures_nothing(after: Seq<usize>)
    requires
        sampled(Seq::empty(), after, 1),
    ensures
        after.len() <= 1,
        usage_of(after) is None,
{
    lemma_sampled_extends(Seq::empty(), after, 1);
}

/// Reduces the samples of one walk to the stack that the walk consumed.
///
/// With fewer than two samples there is nothing to measure and the answer is
/// `None`. Otherwise the bytes used are those between the first sample and the
/// lowest sample, wherever in the sequence the lowest one stands.
pub fn analyze_stack(stack_info: &[usize]) -> (usage: Option<StackUsage>)
    ensures
        usage == usage_of(stack_info@),
        usage is None <==> stack_info@.len() < 2,
        usage matches Some(found) ==> {
            &&& found.samples == stack_info@.len()
            &&& found.total_used == stack_info@[0] - lowest(stack_info@)
            &&& found.total_used <= stack_info@[0]
        },
{
    let count: usize = stack_info.len();
    if count < 2 {
        return None;
    }
    let start: usize = stack_info[0];
    let mut end: usize = start;
    let mut i: usize = 1;
    while i < count
        invariant
            1 <= i <= count,
            count == stack_info@.len(),
            end == lowest(stack_info@.subrange(0, i as int)),
        decreases count - i,
    {
        proof {
            assert(stack_info@.subrange(0, i + 1).drop_last() =~= stack_info@.subrange(0, i as int));
        }
        if stack_info[i] < end {
            end = stack_info[i];
        }
        i = i + 1;
    }
    proof {
        assert(stack_info@.subrange(0, count as int) =~= stack_info@);
        lemma_lowest_is_minimum(stack_info@);
    }
    let used: usize = start.saturating_sub(end);
    Some(StackUsage { total_used: used, samples: count })
}

} // verus!
