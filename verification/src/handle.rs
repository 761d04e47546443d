use vstd::prelude::*;

use crate::config::{
    build_builder, resolve, BuilderSettings, BuildPlan, ChainDataSourceConfig, Config,
    EntropySourceConfig, GossipSourceConfig, plan_entropy_valid, settings_of_plan,
};
use crate::errors::{ConfigError, NodeError, TranslationError};
use crate::hexcode::{bytes_to_hex, hex_of, lemma_hex_of_is_hex};
use crate::wire::{
    check_address_text, check_id64_text, copy_channel_details, copy_event, copy_net_address,
    copy_payment_details, copy_peer_details, invoice_commits, invoice_prefix, invoice_text,
    lemma_invoice_text_parts, make_address_text, make_id64_text, make_invoice_text, make_sig_text,
    parse_invoice, parse_net_address, parse_public_key, spec_address_text, spec_id64_text,
    spec_sig_text, valid_address_text, valid_hash_text, valid_invoice_text,
    valid_net_address_text, valid_public_key_text, Address, ChannelConfig, ChannelDetails,
    ChannelId, Event, Invoice, NetAddress, Network, PaymentDetails, PaymentDirection, PaymentHash,
    PaymentStatus, PeerDetails, PublicKey, Txid,
};

verus! {

// The node handle owns one engine instance behind a mutual-exclusion
// boundary and is the sole entry point through which callers reach it. It
// tracks the facade-visible engine state: the lifecycle, the event queue,
// the payment store, peers, channels and the on-chain balances. The
// engine's internals (chain sync, on-chain wallet, gossip, storage) are
// external collaborators and are not modelled here.

/// The lifecycle of a handle: linear, with no re-entry. Once `Stopped`,
/// the handle is terminal and cannot be started again.
#[derive(Clone, Copy, PartialEq, Eq, Structural, Debug)]
pub enum LifecycleState {
    Built,
    Running,
    Stopped,
}

/// A counting model of the mutual-exclusion boundary around the engine.
/// An operation that mutates the handle acquires the lock for the
/// duration of its single engine call; acquisition demands that no holder
/// is present, so at most one holder ever exists. Read-only operations
/// take a shared borrow, which Rust already keeps disjoint from every
/// mutating operation.
#[derive(Clone, Copy, PartialEq, Eq, Structural, Debug)]
pub struct EngineLock {
    pub holders: u8,
}

impl EngineLock {
    /// Whether the lock has no holder.
    pub open spec fn is_free(self) -> bool {
        self.holders == 0
    }

    /// Take the lock. Only possible while it is free.
    fn acquire(&mut self)
        requires
            old(self).is_free(),
        ensures
            final(self).holders == 1,
    {
        self.holders = 1;
    }

    /// Give the lock back.
    fn release(&mut self)
        requires
            old(self).holders == 1,
        ensures
            final(self).is_free(),
            final(self).holders == 0,
    {
        self.holders = 0;
    }
}

/// While the lock is held, no second holder can take it: the maximum
/// number of concurrent holders is one.
pub proof fn lemma_lock_mutual_exclusion(l: EngineLock)
    requires
        l.holders == 1,
    ensures
        !l.is_free(),
{
}

/// Whether no two payment records share a hash.
pub open spec fn distinct_payment_hashes(s: Seq<PaymentDetails>) -> bool {
    forall|i: int, j: int|
        0 <= i < j < s.len() ==> s[i].hash.internal@ != s[j].hash.internal@
}

/// Whether no two peer records share a node id.
pub open spec fn distinct_peer_ids(s: Seq<PeerDetails>) -> bool {
    forall|i: int, j: int|
        0 <= i < j < s.len() ==> s[i].node_id.internal@ != s[j].node_id.internal@
}

/// Whether no two channel records share a channel id.
pub open spec fn distinct_channel_ids(s: Seq<ChannelDetails>) -> bool {
    forall|i: int, j: int|
        0 <= i < j < s.len() ==> s[i].channel_id.internal@ != s[j].channel_id.internal@
}

/// Whether some payment record carries the hash text `h`.
pub open spec fn spec_has_payment(s: Seq<PaymentDetails>, h: Seq<char>) -> bool {
    exists|i: int| 0 <= i < s.len() && s[i].hash.internal@ == h
}

/// The seed the model derives node identity from: the configured seed
/// bytes when the plan gave any, all zeros otherwise.
pub open spec fn spec_node_seed(settings: BuilderSettings) -> Seq<u8> {
    match settings.entropy_seed_bytes {
        Some(b) => b@,
        None => Seq::new(32, |i: int| 0u8),
    }
}

/// The node id the model derives at build time: the hex text of a
/// compressed-key-shaped 33-byte value, a `02` prefix byte followed by
/// the node seed.
pub open spec fn spec_node_id_text(settings: BuilderSettings) -> Seq<char> {
    hex_of(seq![2u8] + spec_node_seed(settings))
}

/// The exclusive owner of one engine instance: lifecycle control plus
/// every delegated operation, each serialized behind the lock.
#[derive(Debug)]
pub struct NodeHandle {
    pub lifecycle: LifecycleState,
    pub lock: EngineLock,
    pub settings: BuilderSettings,
    pub node_id_text: String,
    pub spendable_sats: u64,
    pub total_sats: u64,
    pub events: Vec<Event>,
    pub payments: Vec<PaymentDetails>,
    pub peers: Vec<PeerDetails>,
    pub channels: Vec<ChannelDetails>,
    pub fresh: u64,
}

impl NodeHandle {
    /// The well-formedness every constructor establishes and every
    /// operation preserves.
    pub open spec fn wf(self) -> bool {
        &&& self.lock.is_free()
        &&& self.spendable_sats <= self.total_sats
        &&& self.node_id_text@ == spec_node_id_text(self.settings)
        &&& valid_public_key_text(self.node_id_text@)
        &&& distinct_payment_hashes(self.payments@)
        &&& distinct_peer_ids(self.peers@)
        &&& distinct_channel_ids(self.channels@)
    }

    /// Whether the handle is in the `Running` state.
    pub open spec fn is_running(self) -> bool {
        self.lifecycle == LifecycleState::Running
    }

    /// What the non-blocking peek returns: the head of the event queue,
    /// if any.
    pub open spec fn spec_next_event(self) -> Option<Event> {
        if self.events@.len() == 0 {
            None
        } else {
            Some(self.events@[0])
        }
    }
}

/// Derive the model node id from the resolved settings.
fn derive_node_id(settings: &BuilderSettings) -> (r: String)
    requires
        match settings.entropy_seed_bytes {
            Some(b) => b@.len() == 32,
            None => true,
        },
    ensures
        r@ == spec_node_id_text(*settings),
        valid_public_key_text(r@),
{
    let mut bytes: Vec<u8> = Vec::new();
    bytes.push(2);
    match &settings.entropy_seed_bytes {
        Some(b) => {
            let mut i: usize = 0;
            while i < b.len()
                invariant
                    i <= b@.len(),
                    b@.len() == 32,
                    bytes@ == seq![2u8] + b@.take(i as int),
                decreases b@.len() - i,
            {
                bytes.push(b[i]);
                proof {
                    assert(bytes@ =~= seq![2u8] + b@.take(i as int + 1));
                }
                i += 1;
            }
            proof {
                assert(b@.take(32) =~= b@);
            }
        },
        None => {
            let mut i: usize = 0;
            while i < 32
                invariant
                    i <= 32,
                    bytes@ == seq![2u8] + Seq::new(i as nat, |k: int| 0u8),
                decreases 32 - i,
            {
                bytes.push(0);
                proof {
                    assert(bytes@ =~= seq![2u8] + Seq::new(i as nat + 1, |k: int| 0u8));
                }
                i += 1;
            }
        },
    }
    let r = bytes_to_hex(&bytes);
    proof {
        assert(bytes@ =~= seq![2u8] + spec_node_seed(*settings));
        lemma_hex_of_is_hex(bytes@);
        assert(r@.len() == 66);
        assert(r@[0] == crate::hexcode::hex_digit(bytes@[0] as int / 16));
        assert(r@[1] == crate::hexcode::hex_digit(bytes@[0] as int % 16));
    }
    r
}

/// Resolve a base configuration and the optional family selections, and
/// build a node from the plan. Succeeds for every valid plan and returns
/// a handle in state `Built` with empty queues and stores; seed bytes of
/// any length other than 32 are rejected with `InvalidSeedBytes` before
/// any engine resources are allocated.
pub fn build_node(
    config: Config,
    chain_data_source_config: Option<ChainDataSourceConfig>,
    entropy_source_config: Option<EntropySourceConfig>,
    gossip_source_config: Option<GossipSourceConfig>,
) -> (r: Result<NodeHandle, ConfigError>)
    ensures
        ({
            let plan = BuildPlan {
                config,
                entropy_source: entropy_source_config,
                chain_data_source: chain_data_source_config,
                gossip_source: gossip_source_config,
            };
            match r {
                Ok(h) => {
                    &&& plan_entropy_valid(plan)
                    &&& h.wf()
                    &&& h.lifecycle == LifecycleState::Built
                    &&& settings_of_plan(plan, h.settings)
                    &&& h.events@ == Seq::<Event>::empty()
                    &&& h.payments@ == Seq::<PaymentDetails>::empty()
                    &&& h.peers@ == Seq::<PeerDetails>::empty()
                    &&& h.channels@ == Seq::<ChannelDetails>::empty()
                    &&& h.spendable_sats == 0
                    &&& h.total_sats == 0
                    &&& h.fresh == 0
                },
                Err(e) => !plan_entropy_valid(plan) && e == ConfigError::InvalidSeedBytes,
            }
        }),
{
    let plan = resolve(config, entropy_source_config, chain_data_source_config,
        gossip_source_config);
    let settings = match build_builder(plan) {
        Ok(s) => s,
        Err(e) => {
            return Err(e);
        },
    };
    let node_id_text = derive_node_id(&settings);
    let h = NodeHandle {
        lifecycle: LifecycleState::Built,
        lock: EngineLock { holders: 0 },
        settings,
        node_id_text,
        spendable_sats: 0,
        total_sats: 0,
        events: Vec::new(),
        payments: Vec::new(),
        peers: Vec::new(),
        channels: Vec::new(),
        fresh: 0,
    };
    proof {
        assert(h.events@ =~= Seq::<Event>::empty());
        assert(h.payments@ =~= Seq::<PaymentDetails>::empty());
        assert(h.peers@ =~= Seq::<PeerDetails>::empty());
        assert(h.channels@ =~= Seq::<ChannelDetails>::empty());
    }
    Ok(h)
}

impl NodeHandle {
    /// Start the engine's background work and move to `Running`. Fails
    /// with `AlreadyRunning` while `Running` and with `Stopped` once
    /// stopped: a stopped handle is terminal and is never silently
    /// restarted. Nothing else about the handle changes.
    pub fn start(&mut self) -> (r: Result<(), NodeError>)
        requires
            old(self).wf(),
        ensures
            final(self).wf(),
            match r {
                Ok(_) => old(self).lifecycle == LifecycleState::Built && *final(self) == (
                NodeHandle { lifecycle: LifecycleState::Running, ..*old(self) }),
                Err(e) => *final(self) == *old(self) && match old(self).lifecycle {
                    LifecycleState::Built => false,
                    LifecycleState::Running => e == NodeError::AlreadyRunning,
                    LifecycleState::Stopped => e == NodeError::Stopped,
                },
            },
    {
        self.lock.acquire();
        let r = match self.lifecycle {
            LifecycleState::Built => {
                self.lifecycle = LifecycleState::Running;
                Ok(())
            },
            LifecycleState::Running => Err(NodeError::AlreadyRunning),
            LifecycleState::Stopped => Err(NodeError::Stopped),
        };
        self.lock.release();
        r
    }

    /// Disconnect peers, halt background work and move to `Stopped`.
    /// Stopping is not idempotent: a second `stop`, or a `stop` before
    /// `start`, surfaces `NotRunning` like any other call outside
    /// `Running`.
    pub fn stop(&mut self) -> (r: Result<(), NodeError>)
        requires
            old(self).wf(),
        ensures
            final(self).wf(),
            match r {
                Ok(_) => old(self).is_running() && *final(self) == (NodeHandle {
                    lifecycle: LifecycleState::Stopped,
                    ..*old(self)
                }),
                Err(e) => !old(self).is_running() && e == NodeError::NotRunning && *final(self)
                    == *old(self),
            },
    {
        self.lock.acquire();
        let r = match self.lifecycle {
            LifecycleState::Running => {
                self.lifecycle = LifecycleState::Stopped;
                Ok(())
            },
            _ => Err(NodeError::NotRunning),
        };
        self.lock.release();
        r
    }

    /// Non-blocking peek at the current head event. Returns `None` when
    /// the queue is empty, and the same head event on every call until
    /// `event_handled` acknowledges it: this is a non-consuming read.
    pub fn next_event(&self) -> (r: Option<Event>)
        ensures
            r == self.spec_next_event(),
    {
        if self.events.len() == 0 {
            None
        } else {
            Some(copy_event(&self.events[0]))
        }
    }

    /// Return the head event, blocking until one is available. In this
    /// synchronous rendering the wait is expressed as a precondition: the
    /// caller enters only once the non-blocking peek reports an event.
    /// Like `next_event`, it returns the same event on every call until
    /// `event_handled` is called, and never holds the lock while waiting.
    pub fn wait_until_next_event(&self) -> (r: Event)
        requires
            self.events@.len() > 0,
        ensures
            Some(r) == self.spec_next_event(),
    {
        copy_event(&self.events[0])
    }

    /// Acknowledge the current head event and release the next one, if
    /// any: exactly one queue slot advances. Acknowledging an empty queue
    /// changes nothing. Yields `NotRunning` outside `Running`.
    pub fn event_handled(&mut self) -> (r: Result<(), NodeError>)
        requires
            old(self).wf(),
        ensures
            final(self).wf(),
            match r {
                Ok(_) => {
                    &&& old(self).is_running()
                    &&& *final(self) == (NodeHandle {
                        events: final(self).events,
                        ..*old(self)
                    })
                    &&& old(self).events@.len() == 0 ==> final(self).events@ == old(
                        self,
                    ).events@
                    &&& old(self).events@.len() > 0 ==> final(self).events@ == old(
                        self,
                    ).events@.drop_first()
                },
                Err(e) => !old(self).is_running() && e == NodeError::NotRunning && *final(self)
                    == *old(self),
            },
    {
        if !matches!(self.lifecycle, LifecycleState::Running) {
            return Err(NodeError::NotRunning);
        }
        self.lock.acquire();
        if self.events.len() > 0 {
            self.events.remove(0);
            proof {
                assert(self.events@ =~= old(self).events@.drop_first());
            }
        }
        self.lock.release();
        Ok(())
    }

    /// Our own node id, as compressed-key hex text. Only available while
    /// `Running`; before `start` and after `stop` it yields `NotRunning`.
    pub fn node_id(&self) -> (r: Result<PublicKey, NodeError>)
        ensures
            match r {
                Ok(k) => self.is_running() && k.internal@ == self.node_id_text@,
                Err(e) => !self.is_running() && e == NodeError::NotRunning,
            },
    {
        if !matches!(self.lifecycle, LifecycleState::Running) {
            return Err(NodeError::NotRunning);
        }
        Ok(PublicKey { internal: self.node_id_text.clone() })
    }

    /// Our own listening address, as configured; `None` when the
    /// configuration gave none.
    pub fn listening_address(&self) -> (r: Option<NetAddress>)
        ensures
            r == self.settings.config.listening_address,
    {
        match &self.settings.config.listening_address {
            Some(a) => Some(copy_net_address(a)),
            None => None,
        }
    }

    /// The currently spendable on-chain balance in satoshis. Yields
    /// `NotRunning` outside `Running`.
    pub fn spendable_onchain_balance_sats(&self) -> (r: Result<u64, NodeError>)
        ensures
            match r {
                Ok(v) => self.is_running() && v == self.spendable_sats,
                Err(e) => !self.is_running() && e == NodeError::NotRunning,
            },
    {
        if !matches!(self.lifecycle, LifecycleState::Running) {
            return Err(NodeError::NotRunning);
        }
        Ok(self.spendable_sats)
    }

    /// The current total on-chain balance in satoshis. Yields
    /// `NotRunning` outside `Running`.
    pub fn total_onchain_balance_sats(&self) -> (r: Result<u64, NodeError>)
        ensures
            match r {
                Ok(v) => self.is_running() && v == self.total_sats,
                Err(e) => !self.is_running() && e == NodeError::NotRunning,
            },
    {
        if !matches!(self.lifecycle, LifecycleState::Running) {
            return Err(NodeError::NotRunning);
        }
        Ok(self.total_sats)
    }
}

/// The index of the payment record carrying hash text `h`, if any.
fn find_payment_index(payments: &Vec<PaymentDetails>, h: &String) -> (r: Option<usize>)
    ensures
        match r {
            Some(i) => i < payments@.len() && payments@[i as int].hash.internal@ == h@,
            None => !spec_has_payment(payments@, h@),
        },
{
    let mut i: usize = 0;
    while i < payments.len()
        invariant
            i <= payments@.len(),
            forall|j: int| 0 <= j < i ==> payments@[j].hash.internal@ != h@,
        decreases payments@.len() - i,
    {
        if payments[i].hash.internal == *h {
            return Some(i);
        }
        i += 1;
    }
    None
}

/// Whether some peer record carries the node id text `id`.
pub open spec fn spec_has_peer(s: Seq<PeerDetails>, id: Seq<char>) -> bool {
    exists|i: int| 0 <= i < s.len() && s[i].node_id.internal@ == id
}

/// The index of the peer record with node id text `id`, if any.
fn find_peer_index(peers: &Vec<PeerDetails>, id: &String) -> (r: Option<usize>)
    ensures
        match r {
            Some(i) => i < peers@.len() && peers@[i as int].node_id.internal@ == id@,
            None => !spec_has_peer(peers@, id@),
        },
{
    let mut i: usize = 0;
    while i < peers.len()
        invariant
            i <= peers@.len(),
            forall|j: int| 0 <= j < i ==> peers@[j].node_id.internal@ != id@,
        decreases peers@.len() - i,
    {
        if peers[i].node_id.internal == *id {
            return Some(i);
        }
        i += 1;
    }
    None
}

/// Whether some channel record carries the channel id text `id`.
pub open spec fn spec_has_channel(s: Seq<ChannelDetails>, id: Seq<char>) -> bool {
    exists|i: int| 0 <= i < s.len() && s[i].channel_id.internal@ == id
}

/// The index of the channel record with channel id text `id`, if any.
fn find_channel_index(channels: &Vec<ChannelDetails>, id: &String) -> (r: Option<usize>)
    ensures
        match r {
            Some(i) => i < channels@.len() && channels@[i as int].channel_id.internal@ == id@,
            None => !spec_has_channel(channels@, id@),
        },
{
    let mut i: usize = 0;
    while i < channels.len()
        invariant
            i <= channels@.len(),
            forall|j: int| 0 <= j < i ==> channels@[j].channel_id.internal@ != id@,
        decreases channels@.len() - i,
    {
        if channels[i].channel_id.internal == *id {
            return Some(i);
        }
        i += 1;
    }
    None
}

impl NodeHandle {
    /// Retrieve a fresh on-chain funding address. Yields `NotRunning`
    /// outside `Running`; an `Operation` error only on exhaustion of the
    /// generator counter.
    pub fn new_onchain_address(&mut self) -> (r: Result<Address, NodeError>)
        requires
            old(self).wf(),
        ensures
            final(self).wf(),
            match r {
                Ok(a) => {
                    &&& old(self).is_running()
                    &&& old(self).fresh < u64::MAX
                    &&& a.internal@ == spec_address_text(
                        old(self).settings.config.network,
                        old(self).fresh,
                    )
                    &&& valid_address_text(a.internal@, old(self).settings.config.network)
                    &&& final(self).fresh == old(self).fresh + 1
                    &&& *final(self) == (NodeHandle { fresh: final(self).fresh, ..*old(self) })
                },
                Err(e) => *final(self) == *old(self) && (if !old(self).is_running() {
                    e == NodeError::NotRunning
                } else {
                    e is Operation && old(self).fresh == u64::MAX
                }),
            },
    {
        if !matches!(self.lifecycle, LifecycleState::Running) {
            return Err(NodeError::NotRunning);
        }
        self.lock.acquire();
        if self.fresh == u64::MAX {
            self.lock.release();
            return Err(NodeError::Operation(("address generator exhausted").to_owned()));
        }
        let text = make_address_text(self.settings.config.network, self.fresh);
        self.fresh = self.fresh + 1;
        self.lock.release();
        Ok(Address { internal: text })
    }

    /// Send an on-chain payment of `amount_sats` to `address`. Rejects
    /// text that is not a canonical address for the node's network with
    /// `TranslationError`, and an amount above the spendable balance with
    /// an `Operation` error; on success both balances shrink by the
    /// amount and a fresh transaction id is returned.
    pub fn send_to_onchain_address(&mut self, address: Address, amount_sats: u64) -> (r: Result<
        Txid,
        NodeError,
    >)
        requires
            old(self).wf(),
        ensures
            final(self).wf(),
            match r {
                Ok(t) => {
                    &&& old(self).is_running()
                    &&& valid_address_text(address.internal@, old(self).settings.config.network)
                    &&& amount_sats <= old(self).spendable_sats
                    &&& old(self).fresh < u64::MAX
                    &&& t.internal@ == spec_id64_text(old(self).fresh)
                    &&& final(self).spendable_sats == old(self).spendable_sats - amount_sats
                    &&& final(self).total_sats == old(self).total_sats - amount_sats
                    &&& final(self).fresh == old(self).fresh + 1
                    &&& *final(self) == (NodeHandle {
                        spendable_sats: final(self).spendable_sats,
                        total_sats: final(self).total_sats,
                        fresh: final(self).fresh,
                        ..*old(self)
                    })
                },
                Err(e) => *final(self) == *old(self) && (if !old(self).is_running() {
                    e == NodeError::NotRunning
                } else if !valid_address_text(
                    address.internal@,
                    old(self).settings.config.network,
                ) {
                    e == NodeError::Translation(TranslationError::ParseError)
                } else {
                    e is Operation && (amount_sats > old(self).spendable_sats || old(self).fresh
                        == u64::MAX)
                }),
            },
    {
        if !matches!(self.lifecycle, LifecycleState::Running) {
            return Err(NodeError::NotRunning);
        }
        if !check_address_text(address.internal.as_str(), self.settings.config.network) {
            return Err(NodeError::Translation(TranslationError::ParseError));
        }
        self.lock.acquire();
        if amount_sats > self.spendable_sats {
            self.lock.release();
            return Err(NodeError::Operation(("insufficient funds").to_owned()));
        }
        if self.fresh == u64::MAX {
            self.lock.release();
            return Err(NodeError::Operation(("id generator exhausted").to_owned()));
        }
        let text = make_id64_text(self.fresh);
        self.spendable_sats = self.spendable_sats - amount_sats;
        self.total_sats = self.total_sats - amount_sats;
        self.fresh = self.fresh + 1;
        self.lock.release();
        Ok(Txid { internal: text })
    }

    /// Send an on-chain payment draining the whole spendable balance.
    pub fn send_all_to_onchain_address(&mut self, address: Address) -> (r: Result<
        Txid,
        NodeError,
    >)
        requires
            old(self).wf(),
        ensures
            final(self).wf(),
            match r {
                Ok(t) => {
                    &&& old(self).is_running()
                    &&& valid_address_text(address.internal@, old(self).settings.config.network)
                    &&& old(self).fresh < u64::MAX
                    &&& t.internal@ == spec_id64_text(old(self).fresh)
                    &&& final(self).spendable_sats == 0
                    &&& final(self).total_sats == old(self).total_sats - old(
                        self,
                    ).spendable_sats
                    &&& final(self).fresh == old(self).fresh + 1
                    &&& *final(self) == (NodeHandle {
                        spendable_sats: 0,
                        total_sats: final(self).total_sats,
                        fresh: final(self).fresh,
                        ..*old(self)
                    })
                },
                Err(e) => *final(self) == *old(self) && (if !old(self).is_running() {
                    e == NodeError::NotRunning
                } else if !valid_address_text(
                    address.internal@,
                    old(self).settings.config.network,
                ) {
                    e == NodeError::Translation(TranslationError::ParseError)
                } else {
                    e is Operation && old(self).fresh == u64::MAX
                }),
            },
    {
        if !matches!(self.lifecycle, LifecycleState::Running) {
            return Err(NodeError::NotRunning);
        }
        if !check_address_text(address.internal.as_str(), self.settings.config.network) {
            return Err(NodeError::Translation(TranslationError::ParseError));
        }
        self.lock.acquire();
        if self.fresh == u64::MAX {
            self.lock.release();
            return Err(NodeError::Operation(("id generator exhausted").to_owned()));
        }
        let text = make_id64_text(self.fresh);
        self.total_sats = self.total_sats - self.spendable_sats;
        self.spendable_sats = 0;
        self.fresh = self.fresh + 1;
        self.lock.release();
        Ok(Txid { internal: text })
    }

    /// Sync the wallets with the current chain state. The facade-visible
    /// state does not change; yields `NotRunning` outside `Running`.
    pub fn sync_wallets(&mut self) -> (r: Result<(), NodeError>)
        requires
            old(self).wf(),
        ensures
            final(self).wf(),
            *final(self) == *old(self),
            match r {
                Ok(_) => old(self).is_running(),
                Err(e) => !old(self).is_running() && e == NodeError::NotRunning,
            },
    {
        if !matches!(self.lifecycle, LifecycleState::Running) {
            return Err(NodeError::NotRunning);
        }
        self.lock.acquire();
        self.lock.release();
        Ok(())
    }

    /// The list of known channels, element for element in the engine's
    /// reported order: no re-sorting, no de-duplication.
    pub fn list_channels(&self) -> (r: Vec<ChannelDetails>)
        ensures
            r@ == self.channels@,
    {
        let mut out: Vec<ChannelDetails> = Vec::new();
        let mut i: usize = 0;
        while i < self.channels.len()
            invariant
                i <= self.channels@.len(),
                out@ == self.channels@.take(i as int),
            decreases self.channels@.len() - i,
        {
            out.push(copy_channel_details(&self.channels[i]));
            proof {
                assert(out@ =~= self.channels@.take(i as int + 1));
            }
            i += 1;
        }
        proof {
            assert(self.channels@.take(self.channels@.len() as int) =~= self.channels@);
        }
        out
    }

    /// Connect to a peer. Malformed node-id or address text yields a
    /// `TranslationError`. A new peer is recorded as connected,
    /// remembered for reconnection when `persist` is set. Re-connecting
    /// to a known peer with `persist` set refreshes the stored address
    /// and marks the entry persisted; with `persist` unset the stored
    /// entry is kept as it is.
    pub fn connect(&mut self, node_id: PublicKey, address: NetAddress, persist: bool) -> (r:
        Result<(), NodeError>)
        requires
            old(self).wf(),
        ensures
            final(self).wf(),
            match r {
                Ok(_) => {
                    &&& old(self).is_running()
                    &&& valid_public_key_text(node_id.internal@)
                    &&& valid_net_address_text(address.internal@)
                    &&& if !spec_has_peer(old(self).peers@, node_id.internal@) {
                        final(self).peers@ == old(self).peers@.push(
                            PeerDetails {
                                node_id,
                                address,
                                is_persisted: persist,
                                is_connected: true,
                            },
                        ) && *final(self) == (NodeHandle {
                            peers: final(self).peers,
                            ..*old(self)
                        })
                    } else if persist {
                        (exists|i: int|
                            0 <= i < old(self).peers@.len() && old(
                                self,
                            ).peers@[i].node_id.internal@ == node_id.internal@
                                && final(self).peers@ == old(self).peers@.update(
                                i,
                                (PeerDetails {
                                    node_id,
                                    address,
                                    is_persisted: true,
                                    is_connected: true,
                                }),
                            )) && *final(self) == (NodeHandle {
                            peers: final(self).peers,
                            ..*old(self)
                        })
                    } else {
                        *final(self) == *old(self)
                    }
                },
                Err(e) => *final(self) == *old(self) && (if !old(self).is_running() {
                    e == NodeError::NotRunning
                } else {
                    (!valid_public_key_text(node_id.internal@) || !valid_net_address_text(
                        address.internal@,
                    )) && e == NodeError::Translation(TranslationError::ParseError)
                }),
            },
    {
        if !matches!(self.lifecycle, LifecycleState::Running) {
            return Err(NodeError::NotRunning);
        }
        if parse_public_key(node_id.internal.as_str()).is_err() {
            return Err(NodeError::Translation(TranslationError::ParseError));
        }
        if parse_net_address(address.internal.as_str()).is_err() {
            return Err(NodeError::Translation(TranslationError::ParseError));
        }
        self.lock.acquire();
        match find_peer_index(&self.peers, &node_id.internal) {
            Some(i) => {
                if persist {
                    self.peers.remove(i);
                    self.peers.insert(
                        i,
                        PeerDetails { node_id, address, is_persisted: true, is_connected: true },
                    );
                    proof {
                        let s = old(self).peers@;
                        let updated = self.peers@[i as int];
                        assert(self.peers@ =~= s.update(i as int, updated));
                        assert forall|a: int, b: int|
                            0 <= a < b < self.peers@.len() implies self.peers@[a].node_id.internal@
                            != self.peers@[b].node_id.internal@ by {
                            assert(self.peers@[a].node_id.internal@ == s[a].node_id.internal@);
                            assert(self.peers@[b].node_id.internal@ == s[b].node_id.internal@);
                        }
                    }
                }
            },
            None => {
                self.peers.push(
                    PeerDetails { node_id, address, is_persisted: persist, is_connected: true },
                );
            },
        }
        self.lock.release();
        Ok(())
    }

    /// Connect to a node and open a channel with it. Malformed node-id
    /// or address text yields a `TranslationError`; pushing more
    /// millisatoshi to the counterparty than the whole channel holds is
    /// an `Operation` error. On success a channel record with a fresh
    /// temporary channel id is added and a `ChannelPending` event is
    /// queued.
    pub fn connect_open_channel(
        &mut self,
        address: NetAddress,
        node_id: PublicKey,
        channel_amount_sats: u64,
        push_to_counterparty_msat: Option<u64>,
        announce_channel: bool,
        channel_config: Option<ChannelConfig>,
    ) -> (r: Result<(), NodeError>)
        requires
            old(self).wf(),
        ensures
            final(self).wf(),
            match r {
                Ok(_) => {
                    &&& old(self).is_running()
                    &&& valid_public_key_text(node_id.internal@)
                    &&& valid_net_address_text(address.internal@)
                    &&& (push_to_counterparty_msat matches Some(p) ==> p as int
                        <= channel_amount_sats as int * 1000)
                    &&& old(self).fresh < u64::MAX
                    &&& final(self).channels@.len() == old(self).channels@.len() + 1
                    &&& final(self).channels@ == old(self).channels@.push(
                        final(self).channels@.last(),
                    )
                    &&& ({
                        let c = final(self).channels@.last();
                        &&& c.channel_id.internal@ == spec_id64_text(old(self).fresh)
                        &&& c.counterparty_node_id == node_id
                        &&& c.funding_txid is None
                        &&& c.channel_value_sats == channel_amount_sats
                        &&& c.local_balance_msat == 0
                        &&& c.outbound_capacity_msat == 0
                        &&& c.inbound_capacity_msat == 0
                        &&& c.config == (match channel_config {
                            Some(cc) => cc,
                            None => ChannelConfig {
                                forwarding_fee_proportional_millionths: 0,
                                forwarding_fee_base_msat: 0,
                                cltv_expiry_delta: 0,
                            },
                        })
                        &&& !c.is_channel_ready
                        &&& c.is_public == announce_channel
                    })
                    &&& final(self).events@ == old(self).events@.push(
                        Event::ChannelPending {
                            channel_id: final(self).channels@.last().channel_id,
                            counterparty_node_id: node_id,
                        },
                    )
                    &&& final(self).fresh == old(self).fresh + 1
                    &&& *final(self) == (NodeHandle {
                        channels: final(self).channels,
                        events: final(self).events,
                        fresh: final(self).fresh,
                        ..*old(self)
                    })
                },
                Err(e) => *final(self) == *old(self) && (if !old(self).is_running() {
                    e == NodeError::NotRunning
                } else if !valid_public_key_text(node_id.internal@) || !valid_net_address_text(
                    address.internal@,
                ) {
                    e == NodeError::Translation(TranslationError::ParseError)
                } else {
                    e is Operation && ((push_to_counterparty_msat matches Some(p) && p as int
                        > channel_amount_sats as int * 1000) || old(self).fresh == u64::MAX
                        || spec_has_channel(
                        old(self).channels@,
                        spec_id64_text(old(self).fresh),
                    ))
                }),
            },
    {
        if !matches!(self.lifecycle, LifecycleState::Running) {
            return Err(NodeError::NotRunning);
        }
        if parse_public_key(node_id.internal.as_str()).is_err() {
            return Err(NodeError::Translation(TranslationError::ParseError));
        }
        if parse_net_address(address.internal.as_str()).is_err() {
            return Err(NodeError::Translation(TranslationError::ParseError));
        }
        let push_ok: bool = match push_to_counterparty_msat {
            Some(p) => {
                proof {
                    assert((u64::MAX as int / 1000) * 1000 <= u64::MAX as int) by (nonlinear_arith);
                }
                if channel_amount_sats <= u64::MAX / 1000 {
                    proof {
                        assert(channel_amount_sats as int * 1000 <= (u64::MAX as int / 1000)
                            * 1000) by (nonlinear_arith)
                            requires
                                channel_amount_sats as int <= u64::MAX as int / 1000,
                        ;
                    }
                    p <= channel_amount_sats * 1000
                } else {
                    proof {
                        assert(channel_amount_sats as int * 1000 >= (u64::MAX as int / 1000 + 1)
                            * 1000) by (nonlinear_arith)
                            requires
                                channel_amount_sats as int >= u64::MAX as int / 1000 + 1,
                        ;
                        assert((u64::MAX as int / 1000 + 1) * 1000 > u64::MAX as int)
                            by (nonlinear_arith);
                    }
                    true
                }
            },
            None => true,
        };
        if !push_ok {
            return Err(NodeError::Operation(("push amount exceeds channel value").to_owned()));
        }
        self.lock.acquire();
        if self.fresh == u64::MAX {
            self.lock.release();
            return Err(NodeError::Operation(("id generator exhausted").to_owned()));
        }
        let id_text = make_id64_text(self.fresh);
        if find_channel_index(&self.channels, &id_text).is_some() {
            self.lock.release();
            return Err(NodeError::Operation(("channel id collision").to_owned()));
        }
        let channel_id = ChannelId { internal: id_text };
        let event_channel_id = ChannelId { internal: channel_id.internal.clone() };
        let event_counterparty = PublicKey { internal: node_id.internal.clone() };
        let config = match channel_config {
            Some(cc) => cc,
            None => ChannelConfig {
                forwarding_fee_proportional_millionths: 0,
                forwarding_fee_base_msat: 0,
                cltv_expiry_delta: 0,
            },
        };
        self.channels.push(
            ChannelDetails {
                channel_id,
                counterparty_node_id: node_id,
                funding_txid: None,
                channel_value_sats: channel_amount_sats,
                local_balance_msat: 0,
                outbound_capacity_msat: 0,
                inbound_capacity_msat: 0,
                config,
                is_channel_ready: false,
                is_public: announce_channel,
            },
        );
        self.events.push(
            Event::ChannelPending {
                channel_id: event_channel_id,
                counterparty_node_id: event_counterparty,
            },
        );
        self.fresh = self.fresh + 1;
        self.lock.release();
        Ok(())
    }

    /// Close a previously opened channel: the record is removed and a
    /// `ChannelClosed` event is queued. An unknown channel id, or one
    /// whose counterparty does not match, is an `Operation` error;
    /// malformed id text yields a `TranslationError`.
    pub fn close_channel(&mut self, channel_id: ChannelId, counterparty_node_id: PublicKey) -> (r:
        Result<(), NodeError>)
        requires
            old(self).wf(),
        ensures
            final(self).wf(),
            match r {
                Ok(_) => {
                    &&& old(self).is_running()
                    &&& valid_hash_text(channel_id.internal@)
                    &&& valid_public_key_text(counterparty_node_id.internal@)
                    &&& exists|i: int|
                        0 <= i < old(self).channels@.len() && old(
                            self,
                        ).channels@[i].channel_id.internal@ == channel_id.internal@ && old(
                            self,
                        ).channels@[i].counterparty_node_id.internal@
                            == counterparty_node_id.internal@ && final(self).channels@ == old(
                            self,
                        ).channels@.remove(i)
                    &&& final(self).events@ == old(self).events@.push(
                        Event::ChannelClosed { channel_id },
                    )
                    &&& *final(self) == (NodeHandle {
                        channels: final(self).channels,
                        events: final(self).events,
                        ..*old(self)
                    })
                },
                Err(e) => *final(self) == *old(self) && (if !old(self).is_running() {
                    e == NodeError::NotRunning
                } else if !valid_hash_text(channel_id.internal@) || !valid_public_key_text(
                    counterparty_node_id.internal@,
                ) {
                    e == NodeError::Translation(TranslationError::ParseError)
                } else {
                    e is Operation && !(exists|i: int|
                        0 <= i < old(self).channels@.len() && old(
                            self,
                        ).channels@[i].channel_id.internal@ == channel_id.internal@ && old(
                            self,
                        ).channels@[i].counterparty_node_id.internal@
                            == counterparty_node_id.internal@)
                }),
            },
    {
        if !matches!(self.lifecycle, LifecycleState::Running) {
            return Err(NodeError::NotRunning);
        }
        if !check_id64_text(channel_id.internal.as_str()) {
            return Err(NodeError::Translation(TranslationError::ParseError));
        }
        if parse_public_key(counterparty_node_id.internal.as_str()).is_err() {
            return Err(NodeError::Translation(TranslationError::ParseError));
        }
        self.lock.acquire();
        let found = find_channel_index(&self.channels, &channel_id.internal);
        let i = match found {
            Some(i) => i,
            None => {
                self.lock.release();
                return Err(NodeError::Operation(("unknown channel").to_owned()));
            },
        };
        if !(self.channels[i].counterparty_node_id.internal == counterparty_node_id.internal) {
            proof {
                assert forall|j: int|
                    0 <= j < old(self).channels@.len() implies !(old(
                    self,
                ).channels@[j].channel_id.internal@ == channel_id.internal@ && old(
                    self,
                ).channels@[j].counterparty_node_id.internal@
                    == counterparty_node_id.internal@) by {
                    if j != i as int && old(self).channels@[j].channel_id.internal@
                        == channel_id.internal@ {
                        assert(old(self).channels@[i as int].channel_id.internal@
                            == channel_id.internal@);
                    }
                }
            }
            self.lock.release();
            return Err(NodeError::Operation(("counterparty does not match").to_owned()));
        }
        self.channels.remove(i);
        self.events.push(Event::ChannelClosed { channel_id });
        proof {
            let s = old(self).channels@;
            assert forall|a: int, b: int|
                0 <= a < b < s.remove(i as int).len() implies s.remove(
                i as int,
            )[a].channel_id.internal@ != s.remove(i as int)[b].channel_id.internal@ by {
                assert(s.remove(i as int)[a] == (if a < i { s[a] } else { s[a + 1] }));
                assert(s.remove(i as int)[b] == (if b < i { s[b] } else { s[b + 1] }));
            }
        }
        self.lock.release();
        Ok(())
    }

    /// Update the configuration of a previously opened channel in place.
    /// The errors are as for `close_channel`.
    pub fn update_channel_config(
        &mut self,
        channel_id: ChannelId,
        counterparty_node_id: PublicKey,
        channel_config: ChannelConfig,
    ) -> (r: Result<(), NodeError>)
        requires
            old(self).wf(),
        ensures
            final(self).wf(),
            match r {
                Ok(_) => {
                    &&& old(self).is_running()
                    &&& valid_hash_text(channel_id.internal@)
                    &&& valid_public_key_text(counterparty_node_id.internal@)
                    &&& exists|i: int|
                        0 <= i < old(self).channels@.len() && old(
                            self,
                        ).channels@[i].channel_id.internal@ == channel_id.internal@ && old(
                            self,
                        ).channels@[i].counterparty_node_id.internal@
                            == counterparty_node_id.internal@ && final(self).channels@ == old(
                            self,
                        ).channels@.update(
                            i,
                            (ChannelDetails { config: channel_config, ..old(self).channels@[i] }),
                        )
                    &&& *final(self) == (NodeHandle {
                        channels: final(self).channels,
                        ..*old(self)
                    })
                },
                Err(e) => *final(self) == *old(self) && (if !old(self).is_running() {
                    e == NodeError::NotRunning
                } else if !valid_hash_text(channel_id.internal@) || !valid_public_key_text(
                    counterparty_node_id.internal@,
                ) {
                    e == NodeError::Translation(TranslationError::ParseError)
                } else {
                    e is Operation && !(exists|i: int|
                        0 <= i < old(self).channels@.len() && old(
                            self,
                        ).channels@[i].channel_id.internal@ == channel_id.internal@ && old(
                            self,
                        ).channels@[i].counterparty_node_id.internal@
                            == counterparty_node_id.internal@)
                }),
            },
    {
        if !matches!(self.lifecycle, LifecycleState::Running) {
            return Err(NodeError::NotRunning);
        }
        if !check_id64_text(channel_id.internal.as_str()) {
            return Err(NodeError::Translation(TranslationError::ParseError));
        }
        if parse_public_key(counterparty_node_id.internal.as_str()).is_err() {
            return Err(NodeError::Translation(TranslationError::ParseError));
        }
        self.lock.acquire();
        let found = find_channel_index(&self.channels, &channel_id.internal);
        let i = match found {
            Some(i) => i,
            None => {
                self.lock.release();
                return Err(NodeError::Operation(("unknown channel").to_owned()));
            },
        };
        if !(self.channels[i].counterparty_node_id.internal == counterparty_node_id.internal) {
            proof {
                assert forall|j: int|
                    0 <= j < old(self).channels@.len() implies !(old(
                    self,
                ).channels@[j].channel_id.internal@ == channel_id.internal@ && old(
                    self,
                ).channels@[j].counterparty_node_id.internal@
                    == counterparty_node_id.internal@) by {
                    if j != i as int && old(self).channels@[j].channel_id.internal@
                        == channel_id.internal@ {
                        assert(old(self).channels@[i as int].channel_id.internal@
                            == channel_id.internal@);
                    }
                }
            }
            self.lock.release();
            return Err(NodeError::Operation(("counterparty does not match").to_owned()));
        }
        let rec = self.channels.remove(i);
        let updated = ChannelDetails { config: channel_config, ..rec };
        self.channels.insert(i, updated);
        proof {
            let s = old(self).channels@;
            assert(self.channels@ =~= s.update(
                i as int,
                (ChannelDetails { config: channel_config, ..s[i as int] }),
            ));
            assert forall|a: int, b: int|
                0 <= a < b < self.channels@.len() implies self.channels@[a].channel_id.internal@
                != self.channels@[b].channel_id.internal@ by {
                assert(self.channels@[a].channel_id == s[a].channel_id);
                assert(self.channels@[b].channel_id == s[b].channel_id);
            }
        }
        self.lock.release();
        Ok(())
    }

    /// Disconnect the peer with the given node id and forget it. Unknown
    /// peers are ignored; malformed node-id text yields a
    /// `TranslationError`.
    pub fn disconnect(&mut self, counterparty_node_id: PublicKey) -> (r: Result<(), NodeError>)
        requires
            old(self).wf(),
        ensures
            final(self).wf(),
            match r {
                Ok(_) => {
                    &&& old(self).is_running()
                    &&& valid_public_key_text(counterparty_node_id.internal@)
                    &&& if spec_has_peer(old(self).peers@, counterparty_node_id.internal@) {
                        exists|i: int|
                            0 <= i < old(self).peers@.len() && old(
                                self,
                            ).peers@[i].node_id.internal@ == counterparty_node_id.internal@
                                && final(self).peers@ == old(self).peers@.remove(i)
                    } else {
                        final(self).peers@ == old(self).peers@
                    }
                    &&& *final(self) == (NodeHandle { peers: final(self).peers, ..*old(self) })
                },
                Err(e) => *final(self) == *old(self) && (if !old(self).is_running() {
                    e == NodeError::NotRunning
                } else {
                    !valid_public_key_text(counterparty_node_id.internal@) && e
                        == NodeError::Translation(TranslationError::ParseError)
                }),
            },
    {
        if !matches!(self.lifecycle, LifecycleState::Running) {
            return Err(NodeError::NotRunning);
        }
        if parse_public_key(counterparty_node_id.internal.as_str()).is_err() {
            return Err(NodeError::Translation(TranslationError::ParseError));
        }
        self.lock.acquire();
        match find_peer_index(&self.peers, &counterparty_node_id.internal) {
            Some(i) => {
                self.peers.remove(i);
                proof {
                    let s = old(self).peers@;
                    assert forall|a: int, b: int|
                        0 <= a < b < s.remove(i as int).len() implies s.remove(
                        i as int,
                    )[a].node_id.internal@ != s.remove(i as int)[b].node_id.internal@ by {
                        assert(s.remove(i as int)[a] == (if a < i { s[a] } else { s[a + 1] }));
                        assert(s.remove(i as int)[b] == (if b < i { s[b] } else { s[b + 1] }));
                    }
                }
            },
            None => {},
        }
        self.lock.release();
        Ok(())
    }
    /// Pay an invoice. Text that is not canonical invoice text yields a
    /// `TranslationError`. An invoice of another network, one without an
    /// amount, or one whose payment hash is already in the store is an
    /// `Operation` error. On success the payment is recorded outbound
    /// and pending under the invoice's hash, which is returned.
    pub fn send_payment(&mut self, invoice: Invoice) -> (r: Result<PaymentHash, NodeError>)
        requires
            old(self).wf(),
        ensures
            final(self).wf(),
            match r {
                Ok(h) => {
                    &&& old(self).is_running()
                    &&& valid_hash_text(h.internal@)
                    &&& !spec_has_payment(old(self).payments@, h.internal@)
                    &&& final(self).payments@.len() == old(self).payments@.len() + 1
                    &&& final(self).payments@ == old(self).payments@.push(
                        final(self).payments@.last(),
                    )
                    &&& ({
                        let p = final(self).payments@.last();
                        &&& p.hash == h
                        &&& p.preimage is None
                        &&& p.secret is None
                        &&& p.direction == PaymentDirection::Outbound
                        &&& p.status == PaymentStatus::Pending
                        &&& p.amount_msat is Some
                        &&& invoice_commits(
                            invoice.internal@,
                            old(self).settings.config.network,
                            true,
                            p.amount_msat->0,
                            h.internal@,
                        )
                    })
                    &&& *final(self) == (NodeHandle {
                        payments: final(self).payments,
                        ..*old(self)
                    })
                },
                Err(e) => *final(self) == *old(self) && (if !old(self).is_running() {
                    e == NodeError::NotRunning
                } else if !valid_invoice_text(invoice.internal@) {
                    e == NodeError::Translation(TranslationError::ParseError)
                } else {
                    e is Operation && exists|net: Network, has: bool, amt: u64, hash: Seq<char>|
                        (valid_hash_text(hash) && invoice_commits(
                            invoice.internal@,
                            net,
                            has,
                            amt,
                            hash,
                        ) && (net != old(self).settings.config.network || has == false
                            || spec_has_payment(old(self).payments@, hash)))
                }),
            },
    {
        if !matches!(self.lifecycle, LifecycleState::Running) {
            return Err(NodeError::NotRunning);
        }
        let parsed = match parse_invoice(invoice.internal.as_str()) {
            Ok(p) => p,
            Err(_) => {
                return Err(NodeError::Translation(TranslationError::ParseError));
            },
        };
        self.lock.acquire();
        proof {
            assert(invoice.internal@ == invoice_text(
                parsed.network,
                parsed.has_amount,
                parsed.amount_msat,
                parsed.expiry_secs,
                parsed.description@,
                parsed.hash.internal@,
            ));
            assert(invoice_commits(
                invoice.internal@,
                parsed.network,
                parsed.has_amount,
                parsed.amount_msat,
                parsed.hash.internal@,
            ));
        }
        if parsed.network != self.settings.config.network {
            self.lock.release();
            return Err(NodeError::Operation(("invoice is for another network").to_owned()));
        }
        if !parsed.has_amount {
            self.lock.release();
            return Err(NodeError::Operation(("invoice carries no amount").to_owned()));
        }
        if find_payment_index(&self.payments, &parsed.hash.internal).is_some() {
            self.lock.release();
            return Err(NodeError::Operation(("duplicate payment").to_owned()));
        }
        let ret = PaymentHash { internal: parsed.hash.internal.clone() };
        self.payments.push(
            PaymentDetails {
                hash: parsed.hash,
                preimage: None,
                secret: None,
                amount_msat: Some(parsed.amount_msat),
                direction: PaymentDirection::Outbound,
                status: PaymentStatus::Pending,
            },
        );
        self.lock.release();
        proof {
            assert(invoice.internal@ == invoice_text(
                old(self).settings.config.network,
                true,
                parsed.amount_msat,
                parsed.expiry_secs,
                parsed.description@,
                ret.internal@,
            ));
            assert(invoice_commits(
                invoice.internal@,
                old(self).settings.config.network,
                true,
                parsed.amount_msat,
                ret.internal@,
            ));
            assert(self.payments@ == old(self).payments@.push(
                PaymentDetails {
                    hash: ret,
                    preimage: None,
                    secret: None,
                    amount_msat: Some(parsed.amount_msat),
                    direction: PaymentDirection::Outbound,
                    status: PaymentStatus::Pending,
                },
            ));
        }
        Ok(ret)
    }

    /// Whether `s` is invoice text of network `net` for the hash `hash`
    /// whose demanded amount, if it demands one, is covered by
    /// `paid_msat`.
    pub open spec fn invoice_covered(
        s: Seq<char>,
        net: Network,
        paid_msat: u64,
        hash: Seq<char>,
    ) -> bool {
        exists|has: bool, amt: u64, exp: u32, desc: Seq<char>|
            s == invoice_text(net, has, amt, exp, desc, hash) && (has ==> paid_msat >= amt)
    }

    /// Whether paying the invoice `s` with `paid_msat` at a node of
    /// network `net` with payment store `store` must be refused: the
    /// invoice is of another network, demands more than is paid, or its
    /// hash is already in the store.
    pub open spec fn invoice_refused(
        s: Seq<char>,
        net: Network,
        paid_msat: u64,
        store: Seq<PaymentDetails>,
    ) -> bool {
        exists|net2: Network, has: bool, amt: u64, exp: u32, desc: Seq<char>, hash: Seq<char>|
            valid_hash_text(hash) && s == invoice_text(net2, has, amt, exp, desc, hash) && (net2
                != net || (
            has && paid_msat < amt) || spec_has_payment(store, hash))
    }

    /// Pay an invoice with a caller-chosen amount, as for a zero-amount
    /// invoice. Fails with an `Operation` error when the invoice demands
    /// more than the given amount; the other errors are as for
    /// `send_payment`.
    #[verifier::rlimit(50)]
    pub fn send_payment_using_amount(&mut self, invoice: Invoice, amount_msat: u64) -> (r: Result<
        PaymentHash,
        NodeError,
    >)
        requires
            old(self).wf(),
        ensures
            final(self).wf(),
            match r {
                Ok(h) => {
                    &&& old(self).is_running()
                    &&& valid_hash_text(h.internal@)
                    &&& !spec_has_payment(old(self).payments@, h.internal@)
                    &&& Self::invoice_covered(
                        invoice.internal@,
                        old(self).settings.config.network,
                        amount_msat,
                        h.internal@,
                    )
                    &&& final(self).payments@ == old(self).payments@.push(
                        PaymentDetails {
                            hash: h,
                            preimage: None,
                            secret: None,
                            amount_msat: Some(amount_msat),
                            direction: PaymentDirection::Outbound,
                            status: PaymentStatus::Pending,
                        },
                    )
                    &&& *final(self) == (NodeHandle {
                        payments: final(self).payments,
                        ..*old(self)
                    })
                },
                Err(e) => *final(self) == *old(self) && (if !old(self).is_running() {
                    e == NodeError::NotRunning
                } else if !valid_invoice_text(invoice.internal@) {
                    e == NodeError::Translation(TranslationError::ParseError)
                } else {
                    e is Operation && Self::invoice_refused(
                        invoice.internal@,
                        old(self).settings.config.network,
                        amount_msat,
                        old(self).payments@,
                    )
                }),
            },
    {
        if !matches!(self.lifecycle, LifecycleState::Running) {
            return Err(NodeError::NotRunning);
        }
        let parsed = match parse_invoice(invoice.internal.as_str()) {
            Ok(p) => p,
            Err(_) => {
                return Err(NodeError::Translation(TranslationError::ParseError));
            },
        };
        self.lock.acquire();
        proof {
            assert(invoice.internal@ == invoice_text(
                parsed.network,
                parsed.has_amount,
                parsed.amount_msat,
                parsed.expiry_secs,
                parsed.description@,
                parsed.hash.internal@,
            ));
            assert(invoice_commits(
                invoice.internal@,
                parsed.network,
                parsed.has_amount,
                parsed.amount_msat,
                parsed.hash.internal@,
            ));
        }
        if parsed.network != self.settings.config.network {
            self.lock.release();
            return Err(NodeError::Operation(("invoice is for another network").to_owned()));
        }
        if parsed.has_amount && amount_msat < parsed.amount_msat {
            self.lock.release();
            return Err(NodeError::Operation(("amount below invoice value").to_owned()));
        }
        if find_payment_index(&self.payments, &parsed.hash.internal).is_some() {
            self.lock.release();
            return Err(NodeError::Operation(("duplicate payment").to_owned()));
        }
        let ret = PaymentHash { internal: parsed.hash.internal.clone() };
        self.payments.push(
            PaymentDetails {
                hash: parsed.hash,
                preimage: None,
                secret: None,
                amount_msat: Some(amount_msat),
                direction: PaymentDirection::Outbound,
                status: PaymentStatus::Pending,
            },
        );
        self.lock.release();
        proof {
            assert(invoice.internal@ == invoice_text(
                old(self).settings.config.network,
                parsed.has_amount,
                parsed.amount_msat,
                parsed.expiry_secs,
                parsed.description@,
                ret.internal@,
            ));
            assert(self.payments@ == old(self).payments@.push(
                PaymentDetails {
                    hash: ret,
                    preimage: None,
                    secret: None,
                    amount_msat: Some(amount_msat),
                    direction: PaymentDirection::Outbound,
                    status: PaymentStatus::Pending,
                },
            ));
        }
        Ok(ret)
    }

    /// Send a spontaneous ("keysend") payment to a node. A fresh payment
    /// hash is generated, recorded outbound and pending, and returned.
    pub fn send_spontaneous_payment(&mut self, amount_msat: u64, node_id: PublicKey) -> (r: Result<
        PaymentHash,
        NodeError,
    >)
        requires
            old(self).wf(),
        ensures
            final(self).wf(),
            match r {
                Ok(h) => {
                    &&& old(self).is_running()
                    &&& old(self).fresh < u64::MAX
                    &&& valid_public_key_text(node_id.internal@)
                    &&& h.internal@ == spec_id64_text(old(self).fresh)
                    &&& !spec_has_payment(old(self).payments@, h.internal@)
                    &&& final(self).payments@ == old(self).payments@.push(
                        PaymentDetails {
                            hash: h,
                            preimage: None,
                            secret: None,
                            amount_msat: Some(amount_msat),
                            direction: PaymentDirection::Outbound,
                            status: PaymentStatus::Pending,
                        },
                    )
                    &&& final(self).fresh == old(self).fresh + 1
                    &&& *final(self) == (NodeHandle {
                        payments: final(self).payments,
                        fresh: final(self).fresh,
                        ..*old(self)
                    })
                },
                Err(e) => *final(self) == *old(self) && (if !old(self).is_running() {
                    e == NodeError::NotRunning
                } else if !valid_public_key_text(node_id.internal@) {
                    e == NodeError::Translation(TranslationError::ParseError)
                } else {
                    e is Operation && (old(self).fresh == u64::MAX || spec_has_payment(
                        old(self).payments@,
                        spec_id64_text(old(self).fresh),
                    ))
                }),
            },
    {
        if !matches!(self.lifecycle, LifecycleState::Running) {
            return Err(NodeError::NotRunning);
        }
        if parse_public_key(node_id.internal.as_str()).is_err() {
            return Err(NodeError::Translation(TranslationError::ParseError));
        }
        self.lock.acquire();
        if self.fresh == u64::MAX {
            self.lock.release();
            return Err(NodeError::Operation(("id generator exhausted").to_owned()));
        }
        let hash_text = make_id64_text(self.fresh);
        if find_payment_index(&self.payments, &hash_text).is_some() {
            self.lock.release();
            return Err(NodeError::Operation(("payment hash collision").to_owned()));
        }
        let ret = PaymentHash { internal: hash_text.clone() };
        self.payments.push(
            PaymentDetails {
                hash: PaymentHash { internal: hash_text },
                preimage: None,
                secret: None,
                amount_msat: Some(amount_msat),
                direction: PaymentDirection::Outbound,
                status: PaymentStatus::Pending,
            },
        );
        self.fresh = self.fresh + 1;
        self.lock.release();
        Ok(ret)
    }

    /// Create a payable invoice for the given amount. The invoice text
    /// begins with the network's invoice prefix and carries a fresh
    /// payment hash, under which an inbound pending payment is recorded.
    /// The invoice commits to the amount, the description and the expiry
    /// it was issued for.
    pub fn receive_payment(&mut self, amount_msat: u64, description: String, expiry_secs: u32) -> (
    r: Result<Invoice, NodeError>)
        requires
            old(self).wf(),
        ensures
            final(self).wf(),
            match r {
                Ok(inv) => {
                    &&& old(self).is_running()
                    &&& old(self).fresh < u64::MAX
                    &&& inv.internal@ == invoice_text(
                        old(self).settings.config.network,
                        true,
                        amount_msat,
                        expiry_secs,
                        description@,
                        spec_id64_text(old(self).fresh),
                    )
                    &&& inv.internal@.subrange(
                        0,
                        invoice_prefix(old(self).settings.config.network).len() as int,
                    ) == invoice_prefix(old(self).settings.config.network)
                    &&& !spec_has_payment(old(self).payments@, spec_id64_text(old(self).fresh))
                    &&& final(self).payments@.len() == old(self).payments@.len() + 1
                    &&& final(self).payments@ == old(self).payments@.push(
                        final(self).payments@.last(),
                    )
                    &&& ({
                        let p = final(self).payments@.last();
                        &&& p.hash.internal@ == spec_id64_text(old(self).fresh)
                        &&& p.preimage is None
                        &&& p.secret is None
                        &&& p.amount_msat == Some(amount_msat)
                        &&& p.direction == PaymentDirection::Inbound
                        &&& p.status == PaymentStatus::Pending
                    })
                    &&& final(self).fresh == old(self).fresh + 1
                    &&& *final(self) == (NodeHandle {
                        payments: final(self).payments,
                        fresh: final(self).fresh,
                        ..*old(self)
                    })
                },
                Err(e) => *final(self) == *old(self) && (if !old(self).is_running() {
                    e == NodeError::NotRunning
                } else {
                    e is Operation && (old(self).fresh == u64::MAX || spec_has_payment(
                        old(self).payments@,
                        spec_id64_text(old(self).fresh),
                    ))
                }),
            },
    {
        if !matches!(self.lifecycle, LifecycleState::Running) {
            return Err(NodeError::NotRunning);
        }
        self.lock.acquire();
        if self.fresh == u64::MAX {
            self.lock.release();
            return Err(NodeError::Operation(("id generator exhausted").to_owned()));
        }
        let hash_text = make_id64_text(self.fresh);
        if find_payment_index(&self.payments, &hash_text).is_some() {
            self.lock.release();
            return Err(NodeError::Operation(("payment hash collision").to_owned()));
        }
        let hash = PaymentHash { internal: hash_text };
        let text = make_invoice_text(
            self.settings.config.network,
            true,
            amount_msat,
            expiry_secs,
            &description,
            &hash,
        );
        self.payments.push(
            PaymentDetails {
                hash,
                preimage: None,
                secret: None,
                amount_msat: Some(amount_msat),
                direction: PaymentDirection::Inbound,
                status: PaymentStatus::Pending,
            },
        );
        self.fresh = self.fresh + 1;
        self.lock.release();
        proof {
            lemma_invoice_text_parts(
                old(self).settings.config.network,
                true,
                amount_msat,
                expiry_secs,
                description@,
                spec_id64_text(old(self).fresh),
            );
        }
        Ok(Invoice { internal: text })
    }

    /// Create a payable invoice whose amount the payer chooses, also
    /// known as a zero-amount invoice. As `receive_payment`, with no
    /// amount recorded; the invoice still commits to the description and
    /// the expiry.
    pub fn receive_variable_amount_payment(&mut self, description: String, expiry_secs: u32) -> (r:
        Result<Invoice, NodeError>)
        requires
            old(self).wf(),
        ensures
            final(self).wf(),
            match r {
                Ok(inv) => {
                    &&& old(self).is_running()
                    &&& old(self).fresh < u64::MAX
                    &&& inv.internal@ == invoice_text(
                        old(self).settings.config.network,
                        false,
                        0,
                        expiry_secs,
                        description@,
                        spec_id64_text(old(self).fresh),
                    )
                    &&& !spec_has_payment(old(self).payments@, spec_id64_text(old(self).fresh))
                    &&& final(self).payments@.len() == old(self).payments@.len() + 1
                    &&& final(self).payments@ == old(self).payments@.push(
                        final(self).payments@.last(),
                    )
                    &&& ({
                        let p = final(self).payments@.last();
                        &&& p.hash.internal@ == spec_id64_text(old(self).fresh)
                        &&& p.preimage is None
                        &&& p.secret is None
                        &&& p.amount_msat is None
                        &&& p.direction == PaymentDirection::Inbound
                        &&& p.status == PaymentStatus::Pending
                    })
                    &&& final(self).fresh == old(self).fresh + 1
                    &&& *final(self) == (NodeHandle {
                        payments: final(self).payments,
                        fresh: final(self).fresh,
                        ..*old(self)
                    })
                },
                Err(e) => *final(self) == *old(self) && (if !old(self).is_running() {
                    e == NodeError::NotRunning
                } else {
                    e is Operation && (old(self).fresh == u64::MAX || spec_has_payment(
                        old(self).payments@,
                        spec_id64_text(old(self).fresh),
                    ))
                }),
            },
    {
        if !matches!(self.lifecycle, LifecycleState::Running) {
            return Err(NodeError::NotRunning);
        }
        self.lock.acquire();
        if self.fresh == u64::MAX {
            self.lock.release();
            return Err(NodeError::Operation(("id generator exhausted").to_owned()));
        }
        let hash_text = make_id64_text(self.fresh);
        if find_payment_index(&self.payments, &hash_text).is_some() {
            self.lock.release();
            return Err(NodeError::Operation(("payment hash collision").to_owned()));
        }
        let hash = PaymentHash { internal: hash_text };
        let text = make_invoice_text(
            self.settings.config.network,
            false,
            0,
            expiry_secs,
            &description,
            &hash,
        );
        self.payments.push(
            PaymentDetails {
                hash,
                preimage: None,
                secret: None,
                amount_msat: None,
                direction: PaymentDirection::Inbound,
                status: PaymentStatus::Pending,
            },
        );
        self.fresh = self.fresh + 1;
        self.lock.release();
        Ok(Invoice { internal: text })
    }

    /// The details of the payment with the given hash, if it is known.
    pub fn payment(&self, payment_hash: PaymentHash) -> (r: Option<PaymentDetails>)
        ensures
            match r {
                Some(p) => p.hash.internal@ == payment_hash.internal@ && exists|i: int|
                    0 <= i < self.payments@.len() && self.payments@[i] == p,
                None => !spec_has_payment(self.payments@, payment_hash.internal@),
            },
    {
        match find_payment_index(&self.payments, &payment_hash.internal) {
            Some(i) => Some(copy_payment_details(&self.payments[i])),
            None => None,
        }
    }

    /// Remove the payment with the given hash from the store. Returns
    /// `true` when it was present and `false` otherwise: an unknown hash
    /// is not an error. Yields `NotRunning` outside `Running`.
    pub fn remove_payment(&mut self, payment_hash: PaymentHash) -> (r: Result<bool, NodeError>)
        requires
            old(self).wf(),
        ensures
            final(self).wf(),
            match r {
                Ok(present) => old(self).is_running() && if present {
                    exists|i: int|
                        0 <= i < old(self).payments@.len() && old(
                            self,
                        ).payments@[i].hash.internal@ == payment_hash.internal@
                            && final(self).payments@ == old(self).payments@.remove(i)
                } else {
                    !spec_has_payment(old(self).payments@, payment_hash.internal@) && *final(self)
                        == *old(self)
                },
                Err(e) => !old(self).is_running() && e == NodeError::NotRunning && *final(self)
                    == *old(self),
            },
            r is Ok ==> !spec_has_payment(final(self).payments@, payment_hash.internal@)
                && *final(self) == (NodeHandle { payments: final(self).payments, ..*old(self) }),
    {
        if !matches!(self.lifecycle, LifecycleState::Running) {
            return Err(NodeError::NotRunning);
        }
        self.lock.acquire();
        let r = match find_payment_index(&self.payments, &payment_hash.internal) {
            Some(i) => {
                self.payments.remove(i);
                proof {
                    let s = old(self).payments@;
                    assert forall|a: int, b: int|
                        0 <= a < b < s.remove(i as int).len() implies s.remove(
                        i as int,
                    )[a].hash.internal@ != s.remove(i as int)[b].hash.internal@ by {
                        assert(s.remove(i as int)[a] == (if a < i { s[a] } else { s[a + 1] }));
                        assert(s.remove(i as int)[b] == (if b < i { s[b] } else { s[b + 1] }));
                    }
                    assert forall|a: int|
                        0 <= a < s.remove(i as int).len() implies s.remove(
                        i as int,
                    )[a].hash.internal@ != payment_hash.internal@ by {
                        assert(s.remove(i as int)[a] == (if a < i { s[a] } else { s[a + 1] }));
                    }
                }
                Ok(true)
            },
            None => Ok(false),
        };
        self.lock.release();
        r
    }

    /// All payments whose direction matches, element for element in
    /// stored order.
    pub fn list_payments_with_filter(&self, payment_direction: PaymentDirection) -> (r: Vec<
        PaymentDetails,
    >)
        ensures
            r@ == self.payments@.filter(|p: PaymentDetails| p.direction == payment_direction),
    {
        let mut out: Vec<PaymentDetails> = Vec::new();
        let mut i: usize = 0;
        while i < self.payments.len()
            invariant
                i <= self.payments@.len(),
                out@ == self.payments@.take(i as int).filter(
                    |p: PaymentDetails| p.direction == payment_direction,
                ),
            decreases self.payments@.len() - i,
        {
            proof {
                reveal_with_fuel(Seq::filter, 2);
                assert(self.payments@.take(i as int + 1).drop_last() =~= self.payments@.take(
                    i as int,
                ));
                assert(self.payments@.take(i as int + 1).last() == self.payments@[i as int]);
            }
            if matches!(self.payments[i].direction, d if d == payment_direction) {
                out.push(copy_payment_details(&self.payments[i]));
            }
            i += 1;
        }
        proof {
            assert(self.payments@.take(self.payments@.len() as int) =~= self.payments@);
        }
        out
    }

    /// All payments, element for element in stored order.
    pub fn list_payments(&self) -> (r: Vec<PaymentDetails>)
        ensures
            r@ == self.payments@,
    {
        let mut out: Vec<PaymentDetails> = Vec::new();
        let mut i: usize = 0;
        while i < self.payments.len()
            invariant
                i <= self.payments@.len(),
                out@ == self.payments@.take(i as int),
            decreases self.payments@.len() - i,
        {
            out.push(copy_payment_details(&self.payments[i]));
            proof {
                assert(out@ =~= self.payments@.take(i as int + 1));
            }
            i += 1;
        }
        proof {
            assert(self.payments@.take(self.payments@.len() as int) =~= self.payments@);
        }
        out
    }

    /// All known peers, element for element in stored order.
    pub fn list_peers(&self) -> (r: Vec<PeerDetails>)
        ensures
            r@ == self.peers@,
    {
        let mut out: Vec<PeerDetails> = Vec::new();
        let mut i: usize = 0;
        while i < self.peers.len()
            invariant
                i <= self.peers@.len(),
                out@ == self.peers@.take(i as int),
            decreases self.peers@.len() - i,
        {
            out.push(copy_peer_details(&self.peers[i]));
            proof {
                assert(out@ =~= self.peers@.take(i as int + 1));
            }
            i += 1;
        }
        proof {
            assert(self.peers@.take(self.peers@.len() as int) =~= self.peers@);
        }
        out
    }

    /// Sign a message with the node's key. The signature text is a
    /// deterministic function of the node id and the message, and is
    /// exactly what `verify_signature` accepts for that pair. Yields
    /// `NotRunning` outside `Running`.
    pub fn sign_message(&self, msg: Vec<u8>) -> (r: Result<String, NodeError>)
        ensures
            match r {
                Ok(s) => self.is_running() && s@ == spec_sig_text(self.node_id_text@, msg@),
                Err(e) => !self.is_running() && e == NodeError::NotRunning,
            },
    {
        if !matches!(self.lifecycle, LifecycleState::Running) {
            return Err(NodeError::NotRunning);
        }
        Ok(make_sig_text(&self.node_id_text, &msg))
    }

    /// Verify that `sig` is the signature of `msg` under `pkey`: true
    /// exactly for the text `sign_message` produces on that message at
    /// the node whose id is `pkey`. Yields `NotRunning` outside
    /// `Running`.
    pub fn verify_signature(&self, msg: Vec<u8>, sig: String, pkey: PublicKey) -> (r: Result<
        bool,
        NodeError,
    >)
        ensures
            match r {
                Ok(b) => self.is_running() && b == (sig@ == spec_sig_text(pkey.internal@, msg@)),
                Err(e) => !self.is_running() && e == NodeError::NotRunning,
            },
    {
        if !matches!(self.lifecycle, LifecycleState::Running) {
            return Err(NodeError::NotRunning);
        }
        let expected = make_sig_text(&pkey.internal, &msg);
        Ok(sig == expected)
    }
}

} // verus!
