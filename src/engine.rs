use vstd::prelude::*;

use crate::batch::{all_transactions, byte_strings, first_seen, median, random_xor, timestamps, Batch, BatchSummary};
use crate::block_table::BlockTable;
use crate::codec::{decode, message_bytes, Message, MessageView};
use crate::seal::{check_seal, seal_check, seal_field, seal_for, BlockError};
use crate::sealing::{
    after_share, entry_of, keeps_signatures, share_outcome, SealingState, SealingTracker,
    SealingView, ShareOutcome,
};
use crate::timing::{epoch_start_due, timer_millis, timer_millis_spec};

verus! {

/// Errors the engine reports to the host.
pub enum EngineError {
    /// The host client is not registered.
    RequiresClient,
    /// No signer is set.
    RequiresSigner,
    /// A peer message could not be decoded.
    MalformedMessage,
    /// A peer message came without a sender.
    UnexpectedMessage,
    /// Any other error, with its text.
    Custom(String),
}

/// Parameters of the engine, as the chain configuration sets them.
pub struct HbbftParams {
    /// Seconds that must pass after a block before the next one is started.
    pub minimum_block_time: u64,
    /// Queued transactions needed to start a new epoch.
    pub transaction_queue_size_trigger: usize,
    /// Address of the block reward contract, if any.
    pub block_reward_contract_address: Option<Vec<u8>>,
    /// Whether the engine runs without its timer.
    pub is_unit_test: bool,
}

/// Where the key generation of the next committee stands, and what to do.
pub enum KeygenStep {
    /// No key generation is in progress, or its state cannot be read.
    NotInKeygen,
    /// The new keys are ready: the validator set may change.
    KeyReady,
    /// We are a pending validator: post our Part and Acks.
    PostTransactions,
    /// Nothing to do yet.
    Wait,
}

/// The next step of key generation: `pending_validators` is the number of
/// pending validators (`None` where the contract could not be read),
/// `key_ready` whether the local session over the chain's Parts and Acks is
/// ready, `we_are_pending` whether our signer is a pending validator (`None`
/// where there is no signer or it could not be read).
pub fn keygen_step(pending_validators: Option<usize>, key_ready: Option<bool>, we_are_pending: Option<
    bool,
>) -> (r: KeygenStep)
    ensures
        r == (if !(pending_validators matches Some(p) && p > 0) {
            KeygenStep::NotInKeygen
        } else if key_ready == Some(true) {
            KeygenStep::KeyReady
        } else if we_are_pending == Some(true) {
            KeygenStep::PostTransactions
        } else {
            KeygenStep::Wait
        }),
{
    match pending_validators {
        None => KeygenStep::NotInKeygen,
        Some(p) => {
            if p == 0 {
                KeygenStep::NotInKeygen
            } else if key_ready == Some(true) {
                KeygenStep::KeyReady
            } else if we_are_pending == Some(true) {
                KeygenStep::PostTransactions
            } else {
                KeygenStep::Wait
            }
        },
    }
}

/// The state of a Honey Badger BFT engine that its decisions rest on: the
/// sealing sessions, the random numbers of processed batches and the message
/// counter.
pub struct HoneyBadgerBFT {
    params: HbbftParams,
    sealing: SealingTracker,
    random_numbers: BlockTable<Vec<u8>>,
    message_counter: u64,
}

impl HoneyBadgerBFT {
    pub closed spec fn sealing_view(&self) -> Map<u64, SealingView> {
        self.sealing@
    }

    pub closed spec fn random_view(&self) -> Map<u64, Seq<u8>> {
        self.random_numbers@.map_values(|v: Vec<u8>| v@)
    }

    pub closed spec fn counter(&self) -> u64 {
        self.message_counter
    }

    /// The parameters the engine was made with.
    pub closed spec fn params_spec(&self) -> HbbftParams {
        self.params
    }

    pub closed spec fn minimum_block_time(&self) -> u64 {
        self.params.minimum_block_time
    }

    pub closed spec fn queue_trigger(&self) -> usize {
        self.params.transaction_queue_size_trigger
    }

    /// An engine with no sealing session, no random number and no message sent.
    pub fn new(params: HbbftParams) -> (e: Self)
        ensures
            e.sealing_view() == Map::<u64, SealingView>::empty(),
            e.random_view() == Map::<u64, Seq<u8>>::empty(),
            e.counter() == 0,
            e.minimum_block_time() == params.minimum_block_time,
            e.queue_trigger() == params.transaction_queue_size_trigger,
            e.params_spec() == params,
    {
        let e = HoneyBadgerBFT {
            params,
            sealing: SealingTracker::new(),
            random_numbers: BlockTable::new(),
            message_counter: 0,
        };
        assert(e.random_view() =~= Map::<u64, Seq<u8>>::empty());
        e
    }

    /// Whether the engine runs without its timer.
    pub fn is_unit_test(&self) -> (r: bool)
        ensures
            r == self.params_spec().is_unit_test,
    {
        self.params.is_unit_test
    }

    /// Whether a block reward contract is configured.
    pub fn has_block_reward_contract(&self) -> (r: bool)
        ensures
            r == self.params_spec().block_reward_contract_address is Some,
    {
        self.params.block_reward_contract_address.is_some()
    }

    /// The call to make when a block is closed: the block reward contract's
    /// address with the flag that says whether new keys are ready, exactly
    /// where an address is configured; no call otherwise.
    pub fn reward_call(&self, keygen_done: bool) -> (r: Option<(Vec<u8>, bool)>)
        ensures
            match self.params_spec().block_reward_contract_address {
                Some(a) => r matches Some((addr, flag)) && addr@ == a@ && flag == keygen_done,
                None => r is None,
            },
    {
        match &self.params.block_reward_contract_address {
            Some(a) => {
                let mut addr: Vec<u8> = Vec::new();
                crate::codec::append_bytes(&mut addr, a);
                Some((addr, keygen_done))
            },
            None => None,
        }
    }

    /// The delay before the next timer tick, in milliseconds.
    pub fn next_timer_millis(&self, latest_timestamp: Option<u64>, now_ms: u64) -> (r: u128)
        ensures
            r as int == timer_millis_spec(latest_timestamp, self.minimum_block_time(), now_ms),
    {
        timer_millis(latest_timestamp, self.params.minimum_block_time, now_ms)
    }

    /// Whether a new epoch is to start, given the latest block's timestamp,
    /// the time in seconds and the number of queued transactions.
    pub fn transaction_queue_and_time_thresholds_reached(
        &self,
        latest_timestamp: Option<u64>,
        now_secs: u64,
        queued: usize,
    ) -> (r: bool)
        ensures
            r == (latest_timestamp matches Some(ts) && ts + self.minimum_block_time() <= now_secs
                && queued >= self.queue_trigger()),
    {
        epoch_start_due(
            latest_timestamp,
            self.params.minimum_block_time,
            now_secs,
            queued,
            self.params.transaction_queue_size_trigger,
        )
    }

    /// The number of Honey Badger messages wrapped so far.
    pub fn message_count(&self) -> (r: u64)
        ensures
            r == self.counter(),
    {
        self.message_counter
    }

    /// Wraps a Honey Badger message for the wire, with the next sequence number.
    pub fn wrap_hb_message(&mut self, payload: Vec<u8>) -> (r: Message)
        requires
            old(self).counter() < u64::MAX,
        ensures
            final(self).counter() == old(self).counter() + 1,
            r@ == MessageView::HoneyBadger(final(self).counter(), payload@),
            final(self).sealing_view() == old(self).sealing_view(),
            final(self).random_view() == old(self).random_view(),
            final(self).minimum_block_time() == old(self).minimum_block_time(),
            final(self).queue_trigger() == old(self).queue_trigger(),
            final(self).params_spec() == old(self).params_spec(),
    {
        self.message_counter = self.message_counter + 1;
        Message::HoneyBadger(self.message_counter, payload)
    }

    /// Takes in the output of an epoch: the first batch's random number is
    /// recorded for its epoch, and what a block is built from is returned.
    /// Without a usable batch nothing changes.
    pub fn process_output(&mut self, output: &Vec<Batch>) -> (r: Option<BatchSummary>)
        ensures
            match r {
                Some(s) => {
                    let b = output@[0];
                    &&& output@.len() > 0
                    &&& b.contributions@.len() > 0
                    &&& s.epoch == b.epoch
                    &&& byte_strings(s.transactions@) == first_seen(all_transactions(b.contributions@))
                    &&& s.timestamp == median(timestamps(b.contributions@))
                    &&& s.random_number@ == random_xor(b.contributions@)
                    &&& final(self).random_view() == old(self).random_view().insert(b.epoch, s.random_number@)
                },
                None => {
                    &&& (output@.len() == 0 || output@[0].contributions@.len() == 0)
                    &&& final(self).random_view() == old(self).random_view()
                },
            },
            final(self).sealing_view() == old(self).sealing_view(),
            final(self).counter() == old(self).counter(),
            final(self).params_spec() == old(self).params_spec(),
            final(self).minimum_block_time() == old(self).minimum_block_time(),
            final(self).queue_trigger() == old(self).queue_trigger(),
    {
        let summary = crate::batch::summarize_output(output);
        match summary {
            Some(s) => {
                let ghost before = self.random_view();
                let mut copy: Vec<u8> = Vec::new();
                crate::codec::append_bytes(&mut copy, &s.random_number);
                let ghost cv = copy@;
                self.random_numbers.insert(s.epoch, copy);
                assert(self.random_view() =~= before.insert(s.epoch, cv));
                Some(s)
            },
            None => None,
        }
    }

    /// Records our own signature share for `block`.
    pub fn sign_block(&mut self, block: u64, our_id: Vec<u8>, share: Vec<u8>) -> (r: ShareOutcome)
        ensures
            r == share_outcome(entry_of(old(self).sealing_view(), block), our_id@),
            final(self).sealing_view() == old(self).sealing_view().insert(
                block,
                after_share(entry_of(old(self).sealing_view(), block), our_id@, share@),
            ),
            keeps_signatures(old(self).sealing_view(), final(self).sealing_view()),
            final(self).random_view() == old(self).random_view(),
            final(self).counter() == old(self).counter(),
            final(self).params_spec() == old(self).params_spec(),
    {
        self.sealing.add_share(block, our_id, share)
    }

    /// Takes in a peer's signature share for `block`; `latest` is the host's
    /// latest block number, if known. A share for a block at or below it is
    /// dropped.
    pub fn process_sealing_message(
        &mut self,
        latest: Option<u64>,
        block: u64,
        sender: Vec<u8>,
        share: Vec<u8>,
    ) -> (r: ShareOutcome)
        ensures
            match latest {
                Some(l) if l >= block => r is Obsolete && final(self).sealing_view() == old(
                    self,
                ).sealing_view(),
                _ => {
                    &&& r == share_outcome(entry_of(old(self).sealing_view(), block), sender@)
                    &&& final(self).sealing_view() == old(self).sealing_view().insert(
                        block,
                        after_share(entry_of(old(self).sealing_view(), block), sender@, share@),
                    )
                },
            },
            keeps_signatures(old(self).sealing_view(), final(self).sealing_view()),
            final(self).random_view() == old(self).random_view(),
            final(self).counter() == old(self).counter(),
            final(self).params_spec() == old(self).params_spec(),
    {
        self.sealing.handle_peer_share(latest, block, sender, share)
    }

    /// Stores the combined signature of `block` once its session yields it.
    /// A block that has one keeps it.
    pub fn process_seal_output(&mut self, block: u64, signature: Vec<u8>) -> (r: bool)
        ensures
            r == (old(self).sealing_view().contains_key(block) && old(
                self,
            ).sealing_view()[block] is InProgress),
            r ==> final(self).sealing_view() == old(self).sealing_view().insert(
                block,
                SealingView::Complete(signature@),
            ),
            !r ==> final(self).sealing_view() == old(self).sealing_view(),
            keeps_signatures(old(self).sealing_view(), final(self).sealing_view()),
            final(self).random_view() == old(self).random_view(),
            final(self).counter() == old(self).counter(),
            final(self).params_spec() == old(self).params_spec(),
    {
        self.sealing.complete(block, signature)
    }

    /// Whether the next block can be sealed, after dropping the sessions of
    /// blocks up to the latest; `latest` is `None` where the host or its
    /// latest block is unknown.
    pub fn sealing_state(&mut self, latest: Option<u64>) -> (r: SealingState)
        ensures
            match latest {
                None => final(self).sealing_view() == old(self).sealing_view() && r is NotReady,
                Some(l) => {
                    &&& final(self).sealing_view() == old(self).sealing_view().restrict(
                        Set::new(|b: u64| b > l),
                    )
                    &&& forall|b: u64| #[trigger]
                        final(self).sealing_view().contains_key(b) ==> b > l
                    &&& (r is Ready <==> (l < u64::MAX && old(self).sealing_view().contains_key(
                        (l + 1) as u64,
                    ) && old(self).sealing_view()[(l + 1) as u64] is Complete))
                },
            },
            final(self).random_view() == old(self).random_view(),
            final(self).counter() == old(self).counter(),
            final(self).params_spec() == old(self).params_spec(),
    {
        self.sealing.sealing_state(latest)
    }

    /// The combined signature of `block`, for checking before sealing.
    pub fn seal_signature(&self, block: u64) -> (r: Option<&Vec<u8>>)
        ensures
            match r {
                Some(sig) => self.sealing_view().contains_key(block) && self.sealing_view()[block]
                    == SealingView::Complete(sig@),
                None => !(self.sealing_view().contains_key(block)
                    && self.sealing_view()[block] is Complete),
            },
    {
        self.sealing.signature(block)
    }

    /// The seal of `block`: its combined signature, where it has one and
    /// `verified` says it checked out against the block, as one RLP field.
    pub fn generate_seal(&self, block: u64, verified: bool) -> (r: Option<Vec<Vec<u8>>>)
        ensures
            match r {
                Some(seal) => {
                    &&& verified
                    &&& self.sealing_view().contains_key(block)
                    &&& self.sealing_view()[block] matches SealingView::Complete(sig)
                    &&& sig.len() == 96
                    &&& seal@.len() == 1
                    &&& seal@[0]@ == seal_field(sig)
                },
                None => !(verified && self.sealing_view().contains_key(block) && (
                self.sealing_view()[block] matches SealingView::Complete(sig) && sig.len() == 96)),
            },
    {
        seal_for(self.sealing.signature(block), verified)
    }

    /// The checks of a header's seal before the cryptographic one: its
    /// number may be at most one above the latest block, and its seal must be
    /// one field holding a 96-byte signature, which is returned.
    pub fn verify_block_family(&self, number: u64, latest: u64, seal: &Vec<Vec<u8>>) -> (r: Result<
        Vec<u8>,
        BlockError,
    >)
        ensures
            match r {
                Ok(sig) => seal_check(number, latest, seal@.map_values(|f: Vec<u8>| f@)) == Some(
                    sig@,
                ),
                Err(_) => seal_check(number, latest, seal@.map_values(|f: Vec<u8>| f@)) is None,
            },
    {
        check_seal(number, latest, seal)
    }

    /// The system transactions for the block with number `block`: none, once
    /// the batch of that number has been processed; an error before.
    pub fn generate_engine_transactions(&self, block: u64) -> (r: Result<Vec<Vec<u8>>, EngineError>)
        ensures
            match r {
                Ok(txns) => self.random_view().contains_key(block) && txns@.len() == 0,
                Err(e) => !self.random_view().contains_key(block) && (e matches EngineError::Custom(
                    t,
                ) && t@ == "No value available for calling randomness contract"@),
            },
    {
        if self.random_numbers.contains(block) {
            Ok(Vec::new())
        } else {
            Err(EngineError::Custom("No value available for calling randomness contract".to_owned()))
        }
    }

    /// Decodes a peer message. A message without a sender is unexpected; one
    /// that does not decode is malformed.
    pub fn handle_message(&self, bytes: &Vec<u8>, sender: Option<Vec<u8>>) -> (r: Result<
        (Vec<u8>, Message),
        EngineError,
    >)
        ensures
            match sender {
                None => r matches Err(EngineError::UnexpectedMessage),
                Some(s) => match r {
                    Ok((id, m)) => id@ == s@ && message_bytes(m@) == bytes@,
                    Err(e) => e is MalformedMessage && forall|m: MessageView|
                        message_bytes(m) != bytes@,
                },
            },
    {
        match sender {
            None => Err(EngineError::UnexpectedMessage),
            Some(id) => match decode(bytes) {
                Some(m) => Ok((id, m)),
                None => Err(EngineError::MalformedMessage),
            },
        }
    }

    /// Number of fields in a seal.
    pub fn seal_fields(&self) -> (r: usize)
        ensures
            r == 1,
    {
        1
    }

    /// The engine's name.
    pub fn name(&self) -> (r: String)
        ensures
            r@ == "HoneyBadgerBFT"@,
    {
        "HoneyBadgerBFT".to_owned()
    }

    /// Blocks are made from batches, never prepared by the miner.
    pub fn should_miner_prepare_blocks(&self) -> (r: bool)
        ensures
            !r,
    {
        false
    }

    /// The block author is not used.
    pub fn use_block_author(&self) -> (r: bool)
        ensures
            !r,
    {
        false
    }
}

} // verus!
