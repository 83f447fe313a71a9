//! Countdown chains: singly linked, heap-allocated, exclusively owned.

use crate::label::{countdown_label, countdown_text, label_text};
use vstd::prelude::*;

verus! {

/// A number of nodes as a machine integer: the number itself, or the largest
/// machine integer where the number is beyond it.
pub open spec fn node_count(nodes: nat) -> usize {
    if nodes <= usize::MAX {
        nodes as usize
    } else {
        usize::MAX
    }
}

/// A countdown chain carrying one payload of type `T` per node.
///
/// `Next` owns the rest of the chain; `Done` is the terminal node.
pub enum BoxedFact<T> {
    Next(T, Box<BoxedFact<T>>),
    Done(T),
}

impl<T> BoxedFact<T> {
    /// Takes the chain apart from the head, one node at a time, and says how
    /// many nodes it released.
    ///
    /// Letting a chain go out of scope releases it node inside node, as deep
    /// as the chain is long. Taken apart in a loop, a chain of any length is
    /// released at a constant stack depth.
    pub fn release(self) -> (released: usize)
        ensures
            released == node_count(self@.len()),
    {
        let ghost whole = self@;
        let ghost mut seen: nat = 0;
        let mut released: usize = 0;
        let mut node: BoxedFact<T> = self;
        loop
            invariant_except_break
                seen + node@.len() == whole.len(),
                released == node_count(seen),
            ensures
                released == node_count(whole.len()),
            decreases node,
        {
            if released < usize::MAX {
                released = released + 1;
            }
            proof {
                seen = seen + 1;
            }
            match node {
                BoxedFact::Next(_, rest) => {
                    node = *rest;
                },
                BoxedFact::Done(_) => {
                    break ;
                },
            }
        }
        released
    }

    /// The payloads of the chain, read from the head to the terminal node.
    pub open spec fn payloads(self) -> Seq<T>
        decreases self,
    {
        match self {
            BoxedFact::Next(payload, rest) => seq![payload] + rest.payloads(),
            BoxedFact::Done(payload) => seq![payload],
        }
    }
}

/// A chain is no more than its payloads: two chains that carry the same
/// payloads in the same order are the same chain.
pub proof fn lemma_chain_is_its_payloads<T>(a: BoxedFact<T>, b: BoxedFact<T>)
    requires
        a@ == b@,
    ensures
        a == b,
    decreases a,
{
    match a {
        BoxedFact::Next(x, rest_a) => {
            assert(rest_a@.len() >= 1);
            match b {
                BoxedFact::Next(y, rest_b) => {
                    assert(a@[0] == x && b@[0] == y);
                    assert(rest_a@ =~= a@.subrange(1, a@.len() as int));
                    assert(rest_b@ =~= b@.subrange(1, b@.len() as int));
                    lemma_chain_is_its_payloads(*rest_a, *rest_b);
                    assert(*rest_a == *rest_b);
                    assert(rest_a == rest_b);
                },
                BoxedFact::Done(_) => {
                    assert(b@.len() == 1);
                },
            }
        },
        BoxedFact::Done(x) => {
            match b {
                BoxedFact::Next(_, rest_b) => {
                    assert(rest_b@.len() >= 1);
                },
                BoxedFact::Done(y) => {
                    assert(a@[0] == x && b@[0] == y);
                },
            }
        },
    }
}

impl<T> View for BoxedFact<T> {
    type V = Seq<T>;

    open spec fn view(&self) -> Seq<T> {
        self.payloads()
    }
}

/// Builds the chain `n, n - 1, ..., 0` of one-byte payloads.
///
/// The chain is assembled tail first in a loop, so building it needs no more
/// stack for a long chain than for a short one.
pub fn make_boxed_fact_u8(n: u8) -> (chain: BoxedFact<u8>)
    ensures
        chain@.len() == n + 1,
        forall|i: int| 0 <= i <= n ==> #[trigger] chain@[i] == n - i,
        chain@.first() == n,
        chain@.last() == 0,
{
    let mut current: BoxedFact<u8> = BoxedFact::Done(0);
    let mut i: u8 = 0;
    while i < n
        invariant
            i <= n,
            current@.len() == i + 1,
            forall|k: int| 0 <= k <= i ==> #[trigger] current@[k] == i - k,
        decreases n - i,
    {
        i = i + 1;
        current = BoxedFact::Next(i, Box::new(current));
    }
    current
}

/// Builds the chain `n, n - 1, ..., 0` of eight-byte payloads.
///
/// The chain is assembled tail first in a loop, so building it needs no more
/// stack for a long chain than for a short one.
pub fn make_boxed_fact_u64(n: u64) -> (chain: BoxedFact<u64>)
    ensures
        chain@.len() == n + 1,
        forall|i: int| 0 <= i <= n ==> #[trigger] chain@[i] == n - i,
        chain@.first() == n,
        chain@.last() == 0,
{
    let mut current: BoxedFact<u64> = BoxedFact::Done(0);
    let mut i: u64 = 0;
    while i < n
        invariant
            i <= n,
            current@.len() == i + 1,
            forall|k: int| 0 <= k <= i ==> #[trigger] current@[k] == i - k,
        decreases n - i,
    {
        i = i + 1;
        current = BoxedFact::Next(i, Box::new(current));
    }
    current
}

/// Builds the chain `n, n - 1, ..., 0` of sixteen-byte payloads.
///
/// The chain is assembled tail first in a loop, so building it needs no more
/// stack for a long chain than for a short one.
pub fn make_boxed_fact_u128(n: u128) -> (chain: BoxedFact<u128>)
    ensures
        chain@.len() == n + 1,
        forall|i: int| 0 <= i <= n ==> #[trigger] chain@[i] == n - i,
        chain@.first() == n,
        chain@.last() == 0,
{
    let mut current: BoxedFact<u128> = BoxedFact::Done(0);
    let mut i: u128 = 0;
    while i < n
        invariant
            i <= n,
            current@.len() == i + 1,
            forall|k: int| 0 <= k <= i ==> #[trigger] current@[k] == i - k,
        decreases n - i,
    {
        i = i + 1;
        current = BoxedFact::Next(i, Box::new(current));
    }
    current
}

/// A countdown chain whose nodes carry the text prepared for their level.
pub enum BoxedString {
    Next(String, Box<BoxedString>),
    Done(String),
}

impl BoxedString {
    /// Takes the chain apart from the head, one node at a time, and says how
    /// many nodes it released. A chain of any length is released at a
    /// constant stack depth.
    pub fn release(self) -> (released: usize)
        ensures
            released == node_count(self@.len()),
    {
        let ghost whole = self@;
        let ghost mut seen: nat = 0;
        let mut released: usize = 0;
        let mut node: BoxedString = self;
        loop
            invariant_except_break
                seen + node@.len() == whole.len(),
                released == node_count(seen),
            ensures
                released == node_count(whole.len()),
            decreases node,
        {
            if released < usize::MAX {
                released = released + 1;
            }
            proof {
                seen = seen + 1;
            }
            match node {
                BoxedString::Next(_, rest) => {
                    node = *rest;
                },
                BoxedString::Done(_) => {
                    break ;
                },
            }
        }
        released
    }

    /// The texts of the nodes, read from the head to the terminal node.
    pub open spec fn labels(self) -> Seq<Seq<char>>
        decreases self,
    {
        match self {
            BoxedString::Next(label, rest) => seq![label@] + rest.labels(),
            BoxedString::Done(label) => seq![label@],
        }
    }

    /// The texts of the nodes joined in chain order.
    pub open spec fn text(self) -> Seq<char>
        decreases self,
    {
        match self {
            BoxedString::Next(label, rest) => label@ + rest.text(),
            BoxedString::Done(label) => label@,
        }
    }
}

impl View for BoxedString {
    type V = Seq<Seq<char>>;

    open spec fn view(&self) -> Seq<Seq<char>> {
        self.labels()
    }
}

/// A chain whose nodes carry the labels of `depth, depth - 1, ..., 0` holds,
/// joined, the text of that countdown.
pub proof fn lemma_text_of_countdown(chain: BoxedString, depth: nat)
    requires
        chain@.len() == depth + 1,
        forall|i: int| 0 <= i <= depth ==> #[trigger] chain@[i] == label_text((depth - i) as nat),
    ensures
        chain.text() == countdown_text(depth),
    decreases chain,
{
    match chain {
        BoxedString::Next(label, rest) => {
            assert(chain@[0] == label@);
            assert(rest@ =~= chain@.subrange(1, chain@.len() as int));
            assert(depth >= 1);
            assert forall|i: int| 0 <= i <= depth - 1 implies #[trigger] rest@[i] == label_text(
                (depth - 1 - i) as nat,
            ) by {
                assert(rest@[i] == chain@[i + 1]);
            }
            lemma_text_of_countdown(*rest, (depth - 1) as nat);
        },
        BoxedString::Done(label) => {
            assert(chain@[0] == label@);
        },
    }
}

/// Builds the chain of the labels of `n, n - 1, ..., 0`.
///
/// The chain is assembled tail first in a loop, so building it needs no more
/// stack for a long chain than for a short one.
pub fn make_boxed_string(n: u64) -> (chain: BoxedString)
    ensures
        chain@.len() == n + 1,
        forall|i: int| 0 <= i <= n ==> #[trigger] chain@[i] == label_text((n - i) as nat),
        chain@.first() == label_text(n as nat),
        chain@.last() == label_text(0),
        chain.text() == countdown_text(n as nat),
{
    let mut current: BoxedString = BoxedString::Done(countdown_label(0));
    let mut i: u64 = 0;
    while i < n
        invariant
            i <= n,
            current@.len() == i + 1,
            forall|k: int| 0 <= k <= i ==> #[trigger] current@[k] == label_text((i - k) as nat),
            current.text() == countdown_text(i as nat),
        decreases n - i,
    {
        i = i + 1;
        current = BoxedString::Next(countdown_label(i), Box::new(current));
    }
    current
}

} // verus!
