//! The tracked evaluators: each level of the recursion reads the stack probe
//! once, records the reading, and descends exactly once until the countdown
//! has reached its end.

use crate::chain::{BoxedFact, BoxedString};
use crate::label::{countdown_label, countdown_text};
use crate::probe::{lemma_sampled_one, lemma_sampled_then, record_sample, sampled};
use stacker::remaining_stack;
use vstd::prelude::*;
use vstd::string::StringExecFns;

verus! {

/// Walks a prepared chain from its head to its terminal node.
///
/// The payloads are carried along untouched. The probe is read once in every
/// node, the terminal node included, so a chain of `k` nodes accounts for `k`
/// readings.
pub fn eval_boxed_fact_tracked<T>(f: &BoxedFact<T>, stack_info: &mut Vec<usize>)
    ensures
        sampled(old(stack_info)@, final(stack_info)@, f@.len()),
    decreases f,
{
    let reading: Option<usize> = remaining_stack();
    record_sample(stack_info, reading);
    proof {
        lemma_sampled_one(old(stack_info)@, reading);
    }
    match f {
        BoxedFact::Next(_, next) => {
            let ghost here = stack_info@;
            eval_boxed_fact_tracked(next, stack_info);
            proof {
                lemma_sampled_then(old(stack_info)@, here, stack_info@, 1, next@.len());
            }
        },
        BoxedFact::Done(_) => {},
    }
}

/// Counts down from `n` to `0` on the call stack with a one-byte counter,
/// reading the probe once at each of the `n + 1` levels.
pub fn simple_factorial_tracked_u8(n: u8, stack_info: &mut Vec<usize>)
    ensures
        sampled(old(stack_info)@, final(stack_info)@, (n + 1) as nat),
    decreases n,
{
    let reading: Option<usize> = remaining_stack();
    record_sample(stack_info, reading);
    proof {
        lemma_sampled_one(old(stack_info)@, reading);
    }
    if n > 0 {
        let ghost here = stack_info@;
        simple_factorial_tracked_u8(n - 1, stack_info);
        proof {
            lemma_sampled_then(old(stack_info)@, here, stack_info@, 1, n as nat);
        }
    }
}

/// Counts down from `n` to `0` on the call stack with an eight-byte counter,
/// reading the probe once at each of the `n + 1` levels.
pub fn simple_factorial_tracked_u64(n: u64, stack_info: &mut Vec<usize>)
    ensures
        sampled(old(stack_info)@, final(stack_info)@, (n + 1) as nat),
    decreases n,
{
    let reading: Option<usize> = remaining_stack();
    record_sample(stack_info, reading);
    proof {
        lemma_sampled_one(old(stack_info)@, reading);
    }
    if n > 0 {
        let ghost here = stack_info@;
        simple_factorial_tracked_u64(n - 1, stack_info);
        proof {
            lemma_sampled_then(old(stack_info)@, here, stack_info@, 1, n as nat);
        }
    }
}

/// Counts down from `n` to `0` on the call stack with a sixteen-byte counter,
/// reading the probe once at each of the `n + 1` levels.
pub fn simple_factorial_tracked_u128(n: u128, stack_info: &mut Vec<usize>)
    ensures
        sampled(old(stack_info)@, final(stack_info)@, (n + 1) as nat),
    decreases n,
{
    let reading: Option<usize> = remaining_stack();
    record_sample(stack_info, reading);
    proof {
        lemma_sampled_one(old(stack_info)@, reading);
    }
    if n > 0 {
        let ghost here = stack_info@;
        simple_factorial_tracked_u128(n - 1, stack_info);
        proof {
            lemma_sampled_then(old(stack_info)@, here, stack_info@, 1, n as nat);
        }
    }
}

/// Counts down from `n` to `0` on the call stack and writes the countdown out.
///
/// Each of the `n + 1` levels reads the probe once, renders its own label and
/// appends it to `s`, which all levels share.
pub fn simple_string_tracked(n: u64, stack_info: &mut Vec<usize>, s: &mut String)
    ensures
        sampled(old(stack_info)@, final(stack_info)@, (n + 1) as nat),
        final(s)@ == old(s)@ + countdown_text(n as nat),
    decreases n,
{
    let reading: Option<usize> = remaining_stack();
    record_sample(stack_info, reading);
    proof {
        lemma_sampled_one(old(stack_info)@, reading);
    }
    {
        let label = countdown_label(n);
        s.append(label.as_str());
    }
    if n > 0 {
        let ghost here = stack_info@;
        simple_string_tracked(n - 1, stack_info, s);
        proof {
            lemma_sampled_then(old(stack_info)@, here, stack_info@, 1, n as nat);
            assert(s@ =~= old(s)@ + countdown_text(n as nat));
        }
    }
}

/// Walks a prepared chain of labels from its head to its terminal node and
/// writes the labels out.
///
/// The probe is read once in every node, the terminal node included, and the
/// text that the node carries is appended to `out` as it stands.
pub fn eval_boxed_string_tracked(f: &BoxedString, stack_info: &mut Vec<usize>, out: &mut String)
    ensures
        sampled(old(stack_info)@, final(stack_info)@, f@.len()),
        final(out)@ == old(out)@ + f.text(),
    decreases f,
{
    let reading: Option<usize> = remaining_stack();
    record_sample(stack_info, reading);
    proof {
        lemma_sampled_one(old(stack_info)@, reading);
    }
    match f {
        BoxedString::Next(s, next) => {
            out.append(s.as_str());
            let ghost here = stack_info@;
            eval_boxed_string_tracked(next, stack_info, out);
            proof {
                lemma_sampled_then(old(stack_info)@, here, stack_info@, 1, next@.len());
                assert(out@ =~= old(out)@ + f.text());
            }
        },
        BoxedString::Done(s) => {
            out.append(s.as_str());
        },
    }
}

} // verus!
