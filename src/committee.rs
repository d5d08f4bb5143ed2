use vstd::prelude::*;

use crate::batch::{byte_strings, first_seen, unique_in_order};
use crate::codec::bytes_equal;

verus! {

/// The largest number of faulty validators a committee of `n` members tolerates.
pub open spec fn fault_bound_spec(n: nat) -> nat {
    ((n - 1) as nat) / 3
}

/// Number of faulty validators tolerated by a committee of `n >= 1` members.
pub fn fault_bound(n: usize) -> (f: usize)
    requires
        n >= 1,
    ensures
        f as nat == fault_bound_spec(n as nat),
        3 * f < n,
{
    (n - 1) / 3
}

/// Whether a node that has not yet proposed in the current epoch must now
/// propose: it has seen contributions of more peers than can be faulty. A node
/// that has proposed does not propose again.
pub fn contribution_due(contributed: bool, peer_contributions: usize, n: usize) -> (r: bool)
    requires
        n >= 1,
    ensures
        r == (!contributed && peer_contributions >= fault_bound_spec(n as nat) + 1),
{
    !contributed && peer_contributions > fault_bound(n)
}

/// Whether a node must now propose, given the senders of the contributions
/// it has seen: the same sender counts once.
pub fn contribution_due_from(contributed: bool, senders: Vec<Vec<u8>>, n: usize) -> (r: bool)
    requires
        n >= 1,
    ensures
        r == (!contributed && first_seen(byte_strings(senders@)).len() >= fault_bound_spec(n as nat)
            + 1),
{
    let distinct = unique_in_order(senders);
    contribution_due(contributed, distinct.len(), n)
}

/// Whether enough distinct signature shares have come in for a combined
/// signature: one more than can be faulty.
pub fn shares_suffice(collected: usize, n: usize) -> (r: bool)
    requires
        n >= 1,
    ensures
        r == (collected >= fault_bound_spec(n as nat) + 1),
{
    collected > fault_bound(n)
}

/// Where an outgoing message goes.
pub enum Target {
    /// To each of these nodes.
    Nodes(Vec<Vec<u8>>),
    /// To every member of the committee but these.
    AllExcept(Vec<Vec<u8>>),
}

/// The members of `s` that are not `ours` and not in `excluded`, in order.
pub open spec fn select(s: Seq<Seq<u8>>, ours: Seq<u8>, excluded: Seq<Seq<u8>>) -> Seq<Seq<u8>>
    decreases s.len(),
{
    if s.len() == 0 {
        s
    } else if s.last() != ours && !excluded.contains(s.last()) {
        select(s.drop_last(), ours, excluded).push(s.last())
    } else {
        select(s.drop_last(), ours, excluded)
    }
}

/// The nodes a message for `target` is sent to: never ourselves.
pub open spec fn recipients_spec(target: Target, committee: Seq<Seq<u8>>, ours: Seq<u8>) -> Seq<
    Seq<u8>,
> {
    match target {
        Target::Nodes(s) => select(byte_strings(s@), ours, Seq::empty()),
        Target::AllExcept(s) => select(committee, ours, byte_strings(s@)),
    }
}

/// Whether `x` is one of `list`.
pub fn contains_id(list: &Vec<Vec<u8>>, x: &Vec<u8>) -> (r: bool)
    ensures
        r == byte_strings(list@).contains(x@),
{
    let mut i: usize = 0;
    while i < list.len()
        invariant
            i <= list@.len(),
            forall|j: int| 0 <= j < i ==> list@[j]@ != x@,
        decreases list@.len() - i,
    {
        if bytes_equal(&list[i], x) {
            assert(byte_strings(list@)[i as int] == x@);
            return true;
        }
        i = i + 1;
    }
    proof {
        if byte_strings(list@).contains(x@) {
            let k = choose|k: int|
                0 <= k < byte_strings(list@).len() && #[trigger] byte_strings(list@)[k] == x@;
            assert(list@[k]@ == x@);
        }
    }
    false
}

fn select_ids(s: &Vec<Vec<u8>>, ours: &Vec<u8>, excluded: &Vec<Vec<u8>>) -> (r: Vec<Vec<u8>>)
    ensures
        byte_strings(r@) == select(byte_strings(s@), ours@, byte_strings(excluded@)),
{
    let mut out: Vec<Vec<u8>> = Vec::new();
    let mut i: usize = 0;
    while i < s.len()
        invariant
            i <= s@.len(),
            byte_strings(out@) == select(byte_strings(s@.take(i as int)), ours@, byte_strings(excluded@)),
        decreases s@.len() - i,
    {
        let ghost prev = out@;
        proof {
            assert(byte_strings(s@.take(i + 1)).drop_last() =~= byte_strings(s@.take(i as int)));
            assert(byte_strings(s@.take(i + 1)).last() == s@[i as int]@);
        }
        if !bytes_equal(&s[i], ours) && !contains_id(excluded, &s[i]) {
            let mut id: Vec<u8> = Vec::new();
            crate::codec::append_bytes(&mut id, &s[i]);
            out.push(id);
            proof {
                assert(byte_strings(out@) =~= byte_strings(prev).push(s@[i as int]@));
            }
        }
        i = i + 1;
    }
    proof {
        assert(s@.take(i as int) =~= s@);
    }
    out
}

/// The nodes to which a message for `target` is sent, in order and each
/// once: for `Nodes`, the listed nodes; for `AllExcept`, the committee members
/// not listed; in both cases without our own node.
pub fn recipients(target: &Target, committee: &Vec<Vec<u8>>, ours: &Vec<u8>) -> (r: Vec<Vec<u8>>)
    ensures
        byte_strings(r@) == first_seen(recipients_spec(*target, byte_strings(committee@), ours@)),
{
    let selected = match target {
        Target::Nodes(s) => {
            let none: Vec<Vec<u8>> = Vec::new();
            proof {
                assert(byte_strings(none@) =~= Seq::<Seq<u8>>::empty());
            }
            select_ids(s, ours, &none)
        },
        Target::AllExcept(s) => select_ids(committee, ours, s),
    };
    unique_in_order(selected)
}

/// Each node appears at most once among `first_seen(s)`.
pub proof fn lemma_first_seen_no_repeats(s: Seq<Seq<u8>>)
    ensures
        forall|i: int, j: int|
            0 <= i < j < first_seen(s).len() ==> #[trigger] first_seen(s)[i] != #[trigger] first_seen(s)[j],
    decreases s.len(),
{
    if s.len() > 0 {
        lemma_first_seen_no_repeats(s.drop_last());
        let p = first_seen(s.drop_last());
        if !p.contains(s.last()) {
            assert forall|i: int, j: int|
                0 <= i < j < first_seen(s).len() implies #[trigger] first_seen(s)[i]
                    != #[trigger] first_seen(s)[j] by {
                if j == p.len() {
                    assert(first_seen(s)[i] == p[i]);
                    if p[i] == s.last() {
                        assert(p.contains(s.last()));
                    }
                }
            }
        }
    }
}

} // verus!
