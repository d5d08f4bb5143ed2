use vstd::prelude::*;

use crate::block_table::BlockTable;
use crate::codec::bytes_equal;

verus! {

/// The threshold signing of one block.
pub enum Sealing {
    /// Signature shares collected so far, as (sender id, share) pairs.
    InProgress { shares: Vec<(Vec<u8>, Vec<u8>)> },
    /// The combined signature.
    Complete { signature: Vec<u8> },
}

/// What a `Sealing` holds, as plain values.
pub enum SealingView {
    InProgress(Seq<(Seq<u8>, Seq<u8>)>),
    Complete(Seq<u8>),
}

pub open spec fn shares_view(s: Seq<(Vec<u8>, Vec<u8>)>) -> Seq<(Seq<u8>, Seq<u8>)> {
    s.map_values(|p: (Vec<u8>, Vec<u8>)| (p.0@, p.1@))
}

/// Whether a share from `sender` is among `shares`.
pub open spec fn has_sender(shares: Seq<(Seq<u8>, Seq<u8>)>, sender: Seq<u8>) -> bool {
    exists|i: int| 0 <= i < shares.len() && #[trigger] shares[i].0 == sender
}

impl View for Sealing {
    type V = SealingView;

    open spec fn view(&self) -> SealingView {
        match self {
            Sealing::InProgress { shares } => SealingView::InProgress(shares_view(shares@)),
            Sealing::Complete { signature } => SealingView::Complete(signature@),
        }
    }
}

/// Whether the host may seal the next block.
pub enum SealingState {
    Ready,
    NotReady,
}

/// What became of a signature share handed to the tracker.
pub enum ShareOutcome {
    /// The block is at or below the host's latest block; nothing was recorded.
    Obsolete,
    /// The block already has its combined signature; nothing was recorded.
    AlreadyComplete,
    /// The block's signing holds this many shares from distinct senders.
    Collected(usize),
}

/// The entry a share from `sender` leads to, from the entry `e` that was there.
pub open spec fn after_share(e: Option<SealingView>, sender: Seq<u8>, share: Seq<u8>) -> SealingView {
    match e {
        None => SealingView::InProgress(seq![(sender, share)]),
        Some(SealingView::InProgress(shares)) => if has_sender(shares, sender) {
            SealingView::InProgress(shares)
        } else {
            SealingView::InProgress(shares.push((sender, share)))
        },
        Some(SealingView::Complete(sig)) => SealingView::Complete(sig),
    }
}

/// The outcome that a share from `sender` yields on the entry `e`.
pub open spec fn share_outcome(e: Option<SealingView>, sender: Seq<u8>) -> ShareOutcome {
    match e {
        None => ShareOutcome::Collected(1),
        Some(SealingView::InProgress(shares)) => if has_sender(shares, sender) {
            ShareOutcome::Collected(shares.len() as usize)
        } else {
            ShareOutcome::Collected((shares.len() + 1) as usize)
        },
        Some(SealingView::Complete(_)) => ShareOutcome::AlreadyComplete,
    }
}

pub open spec fn entry_of(m: Map<u64, SealingView>, b: u64) -> Option<SealingView> {
    if m.contains_key(b) {
        Some(m[b])
    } else {
        None
    }
}

/// Every combined signature of `old` is still in `new`, unchanged.
pub open spec fn keeps_signatures(old: Map<u64, SealingView>, new: Map<u64, SealingView>) -> bool {
    forall|b: u64|
        #![trigger old.contains_key(b)]
        old.contains_key(b) && old[b] is Complete ==> new.contains_key(b) && new[b] == old[b]
}

/// A block's sealing only moves forward: a share starts a session or joins
/// one, and once the combined signature is there no share changes it, so a
/// block gets at most one combined signature.
pub proof fn lemma_sealing_monotone(e: Option<SealingView>, sender: Seq<u8>, share: Seq<u8>)
    ensures
        e is None ==> after_share(e, sender, share) is InProgress,
        e matches Some(SealingView::InProgress(_)) ==> after_share(e, sender, share) is InProgress,
        e matches Some(SealingView::Complete(sig)) ==> after_share(e, sender, share)
            == SealingView::Complete(sig) && share_outcome(e, sender) is AlreadyComplete,
{
}

/// Over any run of sealing operations, each of which keeps the combined
/// signatures (as `add_share`, `handle_peer_share` and `complete` do), a block
/// that has a combined signature in one state has that same signature in
/// every later state: no block gets a second one.
pub proof fn lemma_one_signature_per_block(states: Seq<Map<u64, SealingView>>, b: u64, i: int, j: int)
    requires
        forall|k: int| 0 <= k < states.len() - 1 ==> #[trigger] keeps_signatures(states[k], states[k + 1]),
        0 <= i <= j < states.len(),
        states[i].contains_key(b),
        states[i][b] is Complete,
    ensures
        states[j].contains_key(b),
        states[j][b] == states[i][b],
    decreases j - i,
{
    if j > i {
        lemma_one_signature_per_block(states, b, i, j - 1);
        assert(keeps_signatures(states[j - 1], states[(j - 1) + 1]));
        assert(states[j - 1].contains_key(b));
    }
}

/// The sealing sessions of the blocks that are not yet on the chain.
pub struct SealingTracker {
    table: BlockTable<Sealing>,
}

impl View for SealingTracker {
    type V = Map<u64, SealingView>;

    closed spec fn view(&self) -> Map<u64, SealingView> {
        self.table@.map_values(|e: Sealing| e@)
    }
}

fn find_sender(shares: &Vec<(Vec<u8>, Vec<u8>)>, sender: &Vec<u8>) -> (r: bool)
    ensures
        r == has_sender(shares_view(shares@), sender@),
{
    let mut i: usize = 0;
    while i < shares.len()
        invariant
            i <= shares@.len(),
            forall|j: int| 0 <= j < i ==> shares@[j].0@ != sender@,
        decreases shares@.len() - i,
    {
        if bytes_equal(&shares[i].0, sender) {
            assert(shares_view(shares@)[i as int].0 == sender@);
            return true;
        }
        i = i + 1;
    }
    proof {
        if has_sender(shares_view(shares@), sender@) {
            let k = choose|k: int|
                0 <= k < shares_view(shares@).len() && #[trigger] shares_view(shares@)[k].0
                    == sender@;
            assert(shares@[k].0@ == sender@);
        }
    }
    false
}

impl SealingTracker {
    /// A tracker without sessions.
    pub fn new() -> (t: Self)
        ensures
            t@ == Map::<u64, SealingView>::empty(),
    {
        let t = SealingTracker { table: BlockTable::new() };
        assert(t@ =~= Map::<u64, SealingView>::empty());
        t
    }

    /// Records a signature share for `block`, starting its session where
    /// there is none. A second share from the same sender, and any share for
    /// a block that has its combined signature, changes nothing.
    pub fn add_share(&mut self, block: u64, sender: Vec<u8>, share: Vec<u8>) -> (r: ShareOutcome)
        ensures
            r == share_outcome(entry_of(old(self)@, block), sender@),
            final(self)@ == old(self)@.insert(
                block,
                after_share(entry_of(old(self)@, block), sender@, share@),
            ),
            keeps_signatures(old(self)@, final(self)@),
    {
        let ghost before = self@;
        let ghost sv = sender@;
        let ghost hv = share@;
        let taken = self.table.remove(block);
        let (entry, r) = match taken {
            None => {
                let mut shares: Vec<(Vec<u8>, Vec<u8>)> = Vec::new();
                shares.push((sender, share));
                proof {
                    assert(shares_view(shares@) =~= seq![(sv, hv)]);
                }
                (Sealing::InProgress { shares }, ShareOutcome::Collected(1))
            },
            Some(Sealing::InProgress { mut shares }) => {
                let ghost old_shares = shares_view(shares@);
                if find_sender(&shares, &sender) {
                    let n = shares.len();
                    (Sealing::InProgress { shares }, ShareOutcome::Collected(n))
                } else {
                    shares.push((sender, share));
                    proof {
                        assert(shares_view(shares@) =~= old_shares.push((sv, hv)));
                    }
                    let n = shares.len();
                    (Sealing::InProgress { shares }, ShareOutcome::Collected(n))
                }
            },
            Some(Sealing::Complete { signature }) => {
                (Sealing::Complete { signature }, ShareOutcome::AlreadyComplete)
            },
        };
        self.table.insert(block, entry);
        assert(self@ =~= before.insert(block, after_share(entry_of(before, block), sv, hv)));
        r
    }

    /// Records a share that a peer sent for `block`. Where the host's latest
    /// block is `block` or later the share is obsolete and dropped.
    pub fn handle_peer_share(
        &mut self,
        latest: Option<u64>,
        block: u64,
        sender: Vec<u8>,
        share: Vec<u8>,
    ) -> (r: ShareOutcome)
        ensures
            match latest {
                Some(l) if l >= block => r is Obsolete && final(self)@ == old(self)@,
                _ => {
                    &&& r == share_outcome(entry_of(old(self)@, block), sender@)
                    &&& final(self)@ == old(self)@.insert(
                        block,
                        after_share(entry_of(old(self)@, block), sender@, share@),
                    )
                },
            },
            keeps_signatures(old(self)@, final(self)@),
    {
        if let Some(l) = latest {
            if l >= block {
                return ShareOutcome::Obsolete;
            }
        }
        self.add_share(block, sender, share)
    }

    /// Stores the combined signature of `block`. Only a session in progress
    /// takes one: the result says whether it was stored.
    pub fn complete(&mut self, block: u64, signature: Vec<u8>) -> (r: bool)
        ensures
            r == (old(self)@.contains_key(block) && old(self)@[block] is InProgress),
            r ==> final(self)@ == old(self)@.insert(block, SealingView::Complete(signature@)),
            !r ==> final(self)@ == old(self)@,
            keeps_signatures(old(self)@, final(self)@),
    {
        let ghost before = self@;
        match self.table.remove(block) {
            None => {
                assert(self@ =~= before);
                false
            },
            Some(Sealing::InProgress { shares }) => {
                let ghost sv = signature@;
                self.table.insert(block, Sealing::Complete { signature });
                assert(self@ =~= before.insert(block, SealingView::Complete(sv)));
                true
            },
            Some(Sealing::Complete { signature: kept }) => {
                self.table.insert(block, Sealing::Complete { signature: kept });
                assert(self@ =~= before);
                false
            },
        }
    }

    /// The combined signature of `block`, if it has one.
    pub fn signature(&self, block: u64) -> (r: Option<&Vec<u8>>)
        ensures
            match r {
                Some(sig) => self@.contains_key(block) && self@[block] == SealingView::Complete(
                    sig@,
                ),
                None => !(self@.contains_key(block) && self@[block] is Complete),
            },
    {
        match self.table.get(block) {
            Some(Sealing::Complete { signature }) => Some(signature),
            _ => None,
        }
    }

    /// Drops the sessions of blocks up to the host's latest block and tells
    /// whether the next block has its combined signature. Without a latest
    /// block nothing is dropped and the answer is `NotReady`.
    pub fn sealing_state(&mut self, latest: Option<u64>) -> (r: SealingState)
        ensures
            match latest {
                None => final(self)@ == old(self)@ && r is NotReady,
                Some(l) => {
                    &&& final(self)@ == old(self)@.restrict(Set::new(|b: u64| b > l))
                    &&& forall|b: u64| #[trigger] final(self)@.contains_key(b) ==> b > l
                    &&& (r is Ready <==> (l < u64::MAX && old(self)@.contains_key(
                        (l + 1) as u64,
                    ) && old(self)@[(l + 1) as u64] is Complete))
                },
            },
    {
        match latest {
            None => SealingState::NotReady,
            Some(l) => {
                let ghost before = self@;
                self.table.retain_above(l);
                assert(self@ =~= before.restrict(Set::new(|b: u64| b > l)));
                if l < u64::MAX && self.signature(l + 1).is_some() {
                    SealingState::Ready
                } else {
                    SealingState::NotReady
                }
            },
        }
    }
}

} // verus!
