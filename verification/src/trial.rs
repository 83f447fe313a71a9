//! Trials: one measurement for each payload kind and each strategy, and the
//! stages that a trial is made of.

use crate::chain::{
    lemma_text_of_countdown, make_boxed_fact_u128, make_boxed_fact_u64, make_boxed_fact_u8,
    make_boxed_string, node_count, BoxedFact, BoxedString,
};
use crate::label::{countdown_text, label_text};
use crate::probe::sampled;
use crate::walk::{
    eval_boxed_fact_tracked, eval_boxed_string_tracked, simple_factorial_tracked_u128,
    simple_factorial_tracked_u64, simple_factorial_tracked_u8, simple_string_tracked,
};
use vstd::prelude::*;

verus! {

/// What a level of the countdown carries.
#[derive(Clone, Copy, Debug, PartialEq, Eq, Structural)]
pub enum PayloadKind {
    /// A one-byte unsigned integer.
    Narrow,
    /// An eight-byte unsigned integer.
    Wide,
    /// A sixteen-byte unsigned integer.
    ExtraWide,
    /// The level's label as owned text.
    Text,
}

/// How the countdown is laid out.
#[derive(Clone, Copy, Debug, PartialEq, Eq, Structural)]
pub enum Strategy {
    /// The recursion counts down by itself; nothing is built beforehand.
    Pure,
    /// A chain is built on the heap first and then walked.
    Boxed,
}

/// One measurement: a payload kind under a strategy.
#[derive(Clone, Copy, Debug, PartialEq, Eq, Structural)]
pub struct Trial {
    pub kind: PayloadKind,
    pub strategy: Strategy,
}

impl Trial {
    /// The name under which the trial is reported.
    pub open spec fn label_view(self) -> Seq<char> {
        match self.strategy {
            Strategy::Pure => match self.kind {
                PayloadKind::Narrow => "simple(u8)"@,
                PayloadKind::Wide => "simple(u64)"@,
                PayloadKind::ExtraWide => "simple(u128)"@,
                PayloadKind::Text => "string(pure)"@,
            },
            Strategy::Boxed => match self.kind {
                PayloadKind::Narrow => "boxed(u8)"@,
                PayloadKind::Wide => "boxed(u64)"@,
                PayloadKind::ExtraWide => "boxed(u128)"@,
                PayloadKind::Text => "string(boxed)"@,
            },
        }
    }

    /// The name under which the trial is reported.
    pub fn label(&self) -> (label: String)
        ensures
            label@ == self.label_view(),
    {
        let name: &'static str = match self.strategy {
            Strategy::Pure => match self.kind {
                PayloadKind::Narrow => "simple(u8)",
                PayloadKind::Wide => "simple(u64)",
                PayloadKind::ExtraWide => "simple(u128)",
                PayloadKind::Text => "string(pure)",
            },
            Strategy::Boxed => match self.kind {
                PayloadKind::Narrow => "boxed(u8)",
                PayloadKind::Wide => "boxed(u64)",
                PayloadKind::ExtraWide => "boxed(u128)",
                PayloadKind::Text => "string(boxed)",
            },
        };
        name.to_owned()
    }
}

/// The part of a trial in which the stack ran out.
#[derive(Clone, Copy, Debug, PartialEq, Eq, Structural)]
pub enum Phase {
    Construction,
    Evaluation,
}

/// How deep a trial of `kind` goes when depth `n` is asked for.
///
/// A one-byte counter holds no more than 255, so the narrow kind keeps the
/// low byte of `n`; the other kinds go to `n` itself.
pub open spec fn depth_of(kind: PayloadKind, n: u64) -> nat {
    match kind {
        PayloadKind::Narrow => (n % 256) as nat,
        _ => n as nat,
    }
}

/// What a trial of `kind` writes out when it goes `depth` levels deep: the
/// labels of the countdown for the text kind, nothing for the others.
pub open spec fn written(kind: PayloadKind, depth: nat) -> Seq<char> {
    match kind {
        PayloadKind::Text => countdown_text(depth),
        _ => Seq::empty(),
    }
}

/// A chain built for one of the payload kinds.
pub enum Chain {
    Narrow(BoxedFact<u8>),
    Wide(BoxedFact<u64>),
    ExtraWide(BoxedFact<u128>),
    Text(BoxedString),
}

impl Chain {
    /// Takes the chain apart node by node, at a constant stack depth, and
    /// says how many nodes it released.
    pub fn release(self) -> (released: usize)
        ensures
            released == node_count(self.nodes()),
    {
        match self {
            Chain::Narrow(chain) => chain.release(),
            Chain::Wide(chain) => chain.release(),
            Chain::ExtraWide(chain) => chain.release(),
            Chain::Text(chain) => chain.release(),
        }
    }

    /// The payload kind that the chain was built for.
    pub open spec fn kind(self) -> PayloadKind {
        match self {
            Chain::Narrow(_) => PayloadKind::Narrow,
            Chain::Wide(_) => PayloadKind::Wide,
            Chain::ExtraWide(_) => PayloadKind::ExtraWide,
            Chain::Text(_) => PayloadKind::Text,
        }
    }

    /// The number of nodes, the terminal node included.
    pub open spec fn nodes(self) -> nat {
        match self {
            Chain::Narrow(chain) => chain@.len(),
            Chain::Wide(chain) => chain@.len(),
            Chain::ExtraWide(chain) => chain@.len(),
            Chain::Text(chain) => chain@.len(),
        }
    }

    /// What a walk of the chain writes out.
    pub open spec fn text(self) -> Seq<char> {
        match self {
            Chain::Text(chain) => chain.text(),
            _ => Seq::empty(),
        }
    }

    /// The chain counts down from `depth` to `0`, node by node.
    pub open spec fn counts_down_from(self, depth: nat) -> bool {
        match self {
            Chain::Narrow(chain) => {
                &&& chain@.len() == depth + 1
                &&& forall|i: int| 0 <= i <= depth ==> #[trigger] chain@[i] == depth - i
            },
            Chain::Wide(chain) => {
                &&& chain@.len() == depth + 1
                &&& forall|i: int| 0 <= i <= depth ==> #[trigger] chain@[i] == depth - i
            },
            Chain::ExtraWide(chain) => {
                &&& chain@.len() == depth + 1
                &&& forall|i: int| 0 <= i <= depth ==> #[trigger] chain@[i] == depth - i
            },
            Chain::Text(chain) => {
                &&& chain@.len() == depth + 1
                &&& forall|i: int|
                    0 <= i <= depth ==> #[trigger] chain@[i] == label_text((depth - i) as nat)
            },
        }
    }
}

/// The construction stage of a boxed trial: builds the chain of `kind` that
/// counts down from the depth that `n` stands for.
pub fn build_chain(kind: PayloadKind, n: u64) -> (chain: Chain)
    ensures
        chain.kind() == kind,
        chain.counts_down_from(depth_of(kind, n)),
        chain.nodes() == depth_of(kind, n) + 1,
        chain.text() == written(kind, depth_of(kind, n)),
{
    match kind {
        PayloadKind::Narrow => Chain::Narrow(make_boxed_fact_u8((n % 256) as u8)),
        PayloadKind::Wide => Chain::Wide(make_boxed_fact_u64(n)),
        PayloadKind::ExtraWide => Chain::ExtraWide(make_boxed_fact_u128(n as u128)),
        PayloadKind::Text => Chain::Text(make_boxed_string(n)),
    }
}

/// The evaluation stage of a boxed trial: walks the chain, recording one
/// reading of the probe per node, and writes to `out` what the chain carries
/// as text.
pub fn evaluate_chain(chain: &Chain, stack_info: &mut Vec<usize>, out: &mut String)
    ensures
        sampled(old(stack_info)@, final(stack_info)@, chain.nodes()),
        final(out)@ == old(out)@ + chain.text(),
{
    match chain {
        Chain::Narrow(fact) => eval_boxed_fact_tracked(fact, stack_info),
        Chain::Wide(fact) => eval_boxed_fact_tracked(fact, stack_info),
        Chain::ExtraWide(fact) => eval_boxed_fact_tracked(fact, stack_info),
        Chain::Text(labels) => eval_boxed_string_tracked(labels, stack_info, out),
    }
    proof {
        assert(out@ =~= old(out)@ + chain.text());
    }
}

/// The evaluation stage of a pure trial: counts down on the call stack from
/// the depth that `n` stands for, recording one reading of the probe per
/// level, and writes the labels to `out` where the kind is text.
pub fn evaluate_pure(kind: PayloadKind, n: u64, stack_info: &mut Vec<usize>, out: &mut String)
    ensures
        sampled(old(stack_info)@, final(stack_info)@, depth_of(kind, n) + 1),
        final(out)@ == old(out)@ + written(kind, depth_of(kind, n)),
{
    match kind {
        PayloadKind::Narrow => simple_factorial_tracked_u8((n % 256) as u8, stack_info),
        PayloadKind::Wide => simple_factorial_tracked_u64(n, stack_info),
        PayloadKind::ExtraWide => simple_factorial_tracked_u128(n as u128, stack_info),
        PayloadKind::Text => simple_string_tracked(n, stack_info, out),
    }
    proof {
        assert(out@ =~= old(out)@ + written(kind, depth_of(kind, n)));
    }
}

/// Both strategies measure the same countdown: a chain that counts down from
/// `depth` has one node per level of the pure recursion and carries the text
/// that the pure recursion writes.
pub proof fn lemma_boxed_matches_pure(chain: Chain, depth: nat)
    requires
        chain.counts_down_from(depth),
    ensures
        chain.nodes() == depth + 1,
        chain.text() == written(chain.kind(), depth),
{
    if let Chain::Text(labels) = chain {
        lemma_text_of_countdown(labels, depth);
    }
}

} // verus!
