use vstd::prelude::*;
use vstd::relations::{sorted_by, total_ordering};
use vstd::seq_lib::lemma_sorted_unique;
use itertools::Itertools;

use crate::codec::append_bytes;

verus! {

/// One validator's proposal for a Honey Badger epoch.
pub struct Contribution {
    /// Encoded transactions, in the order the validator proposed them.
    pub transactions: Vec<Vec<u8>>,
    /// Seconds since the Unix epoch at the proposer.
    pub timestamp: u64,
    /// Local randomness; 32 bytes or more from an honest node.
    pub random_data: Vec<u8>,
}

impl Contribution {
    /// A contribution, provided the random data has at least 32 bytes.
    pub fn new(transactions: Vec<Vec<u8>>, timestamp: u64, random_data: Vec<u8>) -> (r: Option<Self>)
        ensures
            match r {
                Some(c) => random_data@.len() >= 32 && c.transactions == transactions && c.timestamp
                    == timestamp && c.random_data == random_data,
                None => random_data@.len() < 32,
            },
    {
        if random_data.len() < 32 {
            None
        } else {
            Some(Contribution { transactions, timestamp, random_data })
        }
    }
}

/// The output of one Honey Badger epoch: the contributions that made it into
/// the common subset, keyed by node id in ascending order.
pub struct Batch {
    pub epoch: u64,
    pub contributions: Vec<(Vec<u8>, Contribution)>,
}

/// Byte-wise lexicographic order of node ids, as `Ord` orders byte strings.
pub open spec fn id_less(a: Seq<u8>, b: Seq<u8>) -> bool
    decreases a.len(),
{
    if a.len() == 0 {
        b.len() > 0
    } else if b.len() == 0 {
        false
    } else if a[0] != b[0] {
        a[0] < b[0]
    } else {
        id_less(a.drop_first(), b.drop_first())
    }
}

/// A batch is valid where its node ids ascend strictly, as the keys of an
/// ordered map do: each contributor appears once, in id order.
pub open spec fn batch_valid(cs: Seq<(Vec<u8>, Contribution)>) -> bool {
    forall|i: int| 0 <= i < cs.len() - 1 ==> #[trigger] id_less(cs[i].0@, cs[i + 1].0@)
}

/// Whether node id `a` comes before node id `b`.
pub fn id_before(a: &Vec<u8>, b: &Vec<u8>) -> (r: bool)
    ensures
        r == id_less(a@, b@),
{
    let mut i: usize = 0;
    proof {
        assert(a@.skip(0) =~= a@);
        assert(b@.skip(0) =~= b@);
    }
    while i < a.len() && i < b.len() && a[i] == b[i]
        invariant
            i <= a@.len(),
            i <= b@.len(),
            id_less(a@, b@) == id_less(a@.skip(i as int), b@.skip(i as int)),
        decreases a@.len() - i,
    {
        proof {
            assert(a@.skip(i as int).drop_first() =~= a@.skip(i + 1));
            assert(b@.skip(i as int).drop_first() =~= b@.skip(i + 1));
        }
        i = i + 1;
    }
    if i == a.len() {
        i < b.len()
    } else if i == b.len() {
        false
    } else {
        a[i] < b[i]
    }
}

impl Batch {
    /// Whether the node ids of the batch ascend strictly.
    pub fn is_valid(&self) -> (r: bool)
        ensures
            r == batch_valid(self.contributions@),
    {
        let cs = &self.contributions;
        let mut i: usize = 1;
        while i < cs.len()
            invariant
                1 <= i,
                cs@ == self.contributions@,
                forall|k: int| 0 <= k < i - 1 && k < cs@.len() - 1 ==> #[trigger] id_less(
                    cs@[k].0@,
                    cs@[k + 1].0@,
                ),
            decreases cs@.len() - i,
        {
            if !id_before(&cs[i - 1].0, &cs[i].0) {
                proof {
                    let k = (i - 1) as int;
                    assert(cs@[k + 1] == cs@[i as int]);
                    assert(!id_less(cs@[k].0@, cs@[k + 1].0@));
                    assert(0 <= k < cs@.len() - 1);
                    assert(!batch_valid(cs@));
                }
                return false;
            }
            i = i + 1;
        }
        true
    }
}

/// What the engine builds a block from, once a batch is out.
pub struct BatchSummary {
    pub epoch: u64,
    /// Encoded transactions of all contributions, each kept once, in the order
    /// of first appearance.
    pub transactions: Vec<Vec<u8>>,
    /// Median of the contributions' timestamps.
    pub timestamp: u64,
    /// XOR of the first 32 bytes of each contribution's random data.
    pub random_number: Vec<u8>,
}

/// The contents of a list of byte strings.
pub open spec fn byte_strings(s: Seq<Vec<u8>>) -> Seq<Seq<u8>> {
    s.map_values(|v: Vec<u8>| v@)
}

/// The transactions of all contributions, one contribution after the other.
pub open spec fn all_transactions(cs: Seq<(Vec<u8>, Contribution)>) -> Seq<Seq<u8>>
    decreases cs.len(),
{
    if cs.len() == 0 {
        Seq::empty()
    } else {
        all_transactions(cs.drop_last()) + byte_strings(cs.last().1.transactions@)
    }
}

/// Each element of `s` once, at its first appearance.
pub open spec fn first_seen(s: Seq<Seq<u8>>) -> Seq<Seq<u8>>
    decreases s.len(),
{
    if s.len() == 0 {
        s
    } else if first_seen(s.drop_last()).contains(s.last()) {
        first_seen(s.drop_last())
    } else {
        first_seen(s.drop_last()).push(s.last())
    }
}

pub open spec fn leq_u64(a: u64, b: u64) -> bool {
    a <= b
}

pub open spec fn timestamps(cs: Seq<(Vec<u8>, Contribution)>) -> Seq<u64> {
    cs.map_values(|p: (Vec<u8>, Contribution)| p.1.timestamp)
}

/// The middle element of `ts` in ascending order (the upper one of the two
/// middle elements for an even count).
pub open spec fn median(ts: Seq<u64>) -> u64 {
    ts.sort_by(|a: u64, b: u64| leq_u64(a, b))[(ts.len() / 2) as int]
}

pub open spec fn zero_bytes() -> Seq<u8> {
    Seq::new(32, |i: int| 0u8)
}

pub open spec fn xor_bytes(a: Seq<u8>, b: Seq<u8>) -> Seq<u8> {
    Seq::new(32, |i: int| a[i] ^ b[i])
}

/// XOR of the first 32 bytes of the random data of every contribution that
/// has at least 32 bytes of it; the others are passed over.
pub open spec fn random_xor(cs: Seq<(Vec<u8>, Contribution)>) -> Seq<u8>
    decreases cs.len(),
{
    if cs.len() == 0 {
        zero_bytes()
    } else if cs.last().1.random_data@.len() >= 32 {
        xor_bytes(random_xor(cs.drop_last()), cs.last().1.random_data@)
    } else {
        random_xor(cs.drop_last())
    }
}

/// What a contribution holds, as plain values.
pub open spec fn contribution_view(c: Contribution) -> (Seq<Seq<u8>>, u64, Seq<u8>) {
    (byte_strings(c.transactions@), c.timestamp, c.random_data@)
}

/// What a batch's contributions hold, as plain values.
pub open spec fn contributions_view(cs: Seq<(Vec<u8>, Contribution)>) -> Seq<(Seq<u8>, (Seq<Seq<u8>>, u64, Seq<u8>))> {
    cs.map_values(|p: (Vec<u8>, Contribution)| (p.0@, contribution_view(p.1)))
}

/// Two nodes holding batches with the same contents compute the same
/// transaction list, timestamp and random number from them.
pub proof fn lemma_summary_deterministic(a: Seq<(Vec<u8>, Contribution)>, b: Seq<(Vec<u8>, Contribution)>)
    requires
        contributions_view(a) == contributions_view(b),
    ensures
        all_transactions(a) == all_transactions(b),
        first_seen(all_transactions(a)) == first_seen(all_transactions(b)),
        median(timestamps(a)) == median(timestamps(b)),
        random_xor(a) == random_xor(b),
    decreases a.len(),
{
    assert(a.len() == contributions_view(a).len());
    if a.len() > 0 {
        assert(contributions_view(a.drop_last()) =~= contributions_view(a).drop_last());
        assert(contributions_view(b.drop_last()) =~= contributions_view(b).drop_last());
        lemma_summary_deterministic(a.drop_last(), b.drop_last());
        assert(contributions_view(a)[a.len() - 1] == contributions_view(b)[a.len() - 1]);
        assert(contribution_view(a.last().1) == contribution_view(b.last().1));
        assert(byte_strings(a.last().1.transactions@) == byte_strings(b.last().1.transactions@));
        assert(all_transactions(a) == all_transactions(b));
    }
    assert(timestamps(a) =~= timestamps(b)) by {
        assert forall|i: int| 0 <= i < a.len() implies timestamps(a)[i] == timestamps(b)[i] by {
            assert(contributions_view(a)[i] == contributions_view(b)[i]);
        }
    }
}

/// Relies on itertools::Itertools::unique: it yields an element only the
/// first time an equal one comes by, in the order of the input.
#[verifier::external_body]
pub(crate) fn unique_in_order(items: Vec<Vec<u8>>) -> (r: Vec<Vec<u8>>)
    ensures
        byte_strings(r@) == first_seen(byte_strings(items@)),
{
    items.into_iter().unique().collect()
}

/// Relies on itertools::Itertools::sorted: the same elements, in ascending
/// order.
#[verifier::external_body]
fn sorted_ascending(items: Vec<u64>) -> (r: Vec<u64>)
    ensures
        r@.to_multiset() == items@.to_multiset(),
        sorted_by(r@, |a: u64, b: u64| leq_u64(a, b)),
{
    items.into_iter().sorted().collect()
}

proof fn lemma_leq_total()
    ensures
        total_ordering(|a: u64, b: u64| leq_u64(a, b)),
{
}

fn copy_bytes(v: &Vec<u8>) -> (r: Vec<u8>)
    ensures
        r@ == v@,
{
    let mut r: Vec<u8> = Vec::new();
    append_bytes(&mut r, v);
    assert(r@ =~= v@);
    r
}

/// All transactions of the batch, each kept once, in order of first
/// appearance.
pub fn batch_transactions(batch: &Batch) -> (r: Vec<Vec<u8>>)
    ensures
        byte_strings(r@) == first_seen(all_transactions(batch.contributions@)),
{
    let cs = &batch.contributions;
    let mut flat: Vec<Vec<u8>> = Vec::new();
    let mut i: usize = 0;
    while i < cs.len()
        invariant
            i <= cs@.len(),
            byte_strings(flat@) == all_transactions(cs@.take(i as int)),
        decreases cs@.len() - i,
    {
        let txns = &cs[i].1.transactions;
        let ghost before = flat@;
        let mut k: usize = 0;
        while k < txns.len()
            invariant
                k <= txns@.len(),
                byte_strings(flat@) == byte_strings(before) + byte_strings(txns@.take(k as int)),
            decreases txns@.len() - k,
        {
            let t = copy_bytes(&txns[k]);
            let ghost prev = flat@;
            let ghost tv = t@;
            proof {
                assert(tv == txns@[k as int]@);
                assert(txns@.take(k + 1) =~= txns@.take(k as int).push(txns@[k as int]));
                assert(byte_strings(txns@.take(k + 1)) =~= byte_strings(txns@.take(k as int)).push(
                    tv,
                ));
            }
            flat.push(t);
            proof {
                assert(byte_strings(flat@) =~= byte_strings(prev).push(tv));
            }
            k = k + 1;
            proof {
                assert(byte_strings(flat@) =~= byte_strings(before) + byte_strings(
                    txns@.take(k as int),
                ));
            }
        }
        proof {
            assert(cs@.take(i + 1).drop_last() =~= cs@.take(i as int));
            assert(txns@.take(k as int) =~= txns@);
        }
        i = i + 1;
    }
    proof {
        assert(cs@.take(i as int) =~= cs@);
    }
    unique_in_order(flat)
}

/// The median of the contributions' timestamps; `None` for a batch without
/// contributions.
pub fn median_timestamp(batch: &Batch) -> (r: Option<u64>)
    ensures
        match r {
            Some(t) => batch.contributions@.len() > 0 && t == median(
                timestamps(batch.contributions@),
            ),
            None => batch.contributions@.len() == 0,
        },
{
    let cs = &batch.contributions;
    let mut ts: Vec<u64> = Vec::new();
    let mut i: usize = 0;
    while i < cs.len()
        invariant
            i <= cs@.len(),
            ts@ == timestamps(cs@).take(i as int),
        decreases cs@.len() - i,
    {
        ts.push(cs[i].1.timestamp);
        i = i + 1;
        proof {
            assert(ts@ =~= timestamps(cs@).take(i as int));
        }
    }
    proof {
        assert(ts@ =~= timestamps(cs@));
    }
    let ghost all = ts@;
    let sorted = sorted_ascending(ts);
    if sorted.len() == 0 {
        proof {
            sorted@.to_multiset_ensures();
            all.to_multiset_ensures();
        }
        return None;
    }
    proof {
        lemma_leq_total();
        all.lemma_sort_by_ensures(|a: u64, b: u64| leq_u64(a, b));
        lemma_sorted_unique(sorted@, all.sort_by(|a: u64, b: u64| leq_u64(a, b)), |a: u64, b: u64| leq_u64(a, b));
        sorted@.to_multiset_ensures();
        all.to_multiset_ensures();
    }
    Some(sorted[sorted.len() / 2])
}

/// XOR of the first 32 bytes of the random data of every contribution with
/// at least 32 bytes of it.
pub fn random_number(batch: &Batch) -> (r: Vec<u8>)
    ensures
        r@ == random_xor(batch.contributions@),
        r@.len() == 32,
{
    let cs = &batch.contributions;
    let mut acc: Vec<u8> = Vec::new();
    let mut k: usize = 0;
    while k < 32
        invariant
            k <= 32,
            acc@ == zero_bytes().take(k as int),
        decreases 32 - k,
    {
        acc.push(0u8);
        k = k + 1;
        proof {
            assert(acc@ =~= zero_bytes().take(k as int));
        }
    }
    proof {
        assert(acc@ =~= zero_bytes());
        assert(cs@.take(0) =~= Seq::<(Vec<u8>, Contribution)>::empty());
    }
    let mut i: usize = 0;
    while i < cs.len()
        invariant
            i <= cs@.len(),
            acc@ == random_xor(cs@.take(i as int)),
            acc@.len() == 32,
        decreases cs@.len() - i,
    {
        let data = &cs[i].1.random_data;
        let ghost prev = acc@;
        proof {
            assert(cs@.take(i + 1).drop_last() =~= cs@.take(i as int));
        }
        if data.len() >= 32 {
            let mut j: usize = 0;
            while j < 32
                invariant
                    j <= 32,
                    data@.len() >= 32,
                    acc@.len() == 32,
                    forall|x: int| 0 <= x < j ==> acc@[x] == prev[x] ^ data@[x],
                    forall|x: int| j <= x < 32 ==> acc@[x] == prev[x],
                decreases 32 - j,
            {
                let v = acc[j] ^ data[j];
                acc.set(j, v);
                j = j + 1;
            }
            proof {
                assert(acc@ =~= xor_bytes(prev, data@));
            }
        }
        i = i + 1;
    }
    proof {
        assert(cs@.take(i as int) =~= cs@);
    }
    acc
}

/// What the first batch of an epoch's output yields: its epoch, transactions,
/// median timestamp and random number. `None` where there is no batch or the
/// first batch has no contributions. Batches after the first are not used.
pub fn summarize_output(output: &Vec<Batch>) -> (r: Option<BatchSummary>)
    ensures
        match r {
            Some(s) => {
                let b = output@[0];
                &&& output@.len() > 0
                &&& b.contributions@.len() > 0
                &&& s.epoch == b.epoch
                &&& byte_strings(s.transactions@) == first_seen(all_transactions(b.contributions@))
                &&& s.timestamp == median(timestamps(b.contributions@))
                &&& s.random_number@ == random_xor(b.contributions@)
            },
            None => output@.len() == 0 || output@[0].contributions@.len() == 0,
        },
{
    if output.len() == 0 {
        return None;
    }
    let batch = &output[0];
    let transactions = batch_transactions(batch);
    let timestamp = match median_timestamp(batch) {
        Some(t) => t,
        None => return None,
    };
    let random_number = random_number(batch);
    Some(BatchSummary { epoch: batch.epoch, transactions, timestamp, random_number })
}

} // verus!
