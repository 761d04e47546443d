use ldk_facade::config::{ChainDataSourceConfig, Config, EntropySourceConfig, GossipSourceConfig};
use ldk_facade::errors::{ConfigError, NodeError, TranslationError};
use ldk_facade::handle::{build_node, LifecycleState, NodeHandle};
use ldk_facade::wire::{Address, Event, Invoice, NetAddress, Network, PublicKey};

fn base_config(network: Network) -> Config {
    Config {
        storage_dir_path: String::from("/tmp/node"),
        network,
        listening_address: Some(NetAddress { internal: String::from("127.0.0.1:9735") }),
        default_cltv_expiry_delta: 144,
        onchain_wallet_sync_interval_secs: 60,
        wallet_sync_interval_secs: 30,
        fee_rate_cache_update_interval_secs: 600,
    }
}

fn built_node(network: Network) -> NodeHandle {
    build_node(
        base_config(network),
        Some(ChainDataSourceConfig::Esplora(String::from("https://example/api"))),
        Some(EntropySourceConfig::SeedBytes(vec![0u8; 32])),
        None,
    )
    .unwrap()
}

fn running_node(network: Network) -> NodeHandle {
    let mut h = built_node(network);
    h.start().unwrap();
    h
}

fn peer_key() -> PublicKey {
    let mut s = String::from("02");
    for _ in 0..32 {
        s.push_str("11");
    }
    PublicKey { internal: s }
}

#[test]
fn build_rejects_short_seed_bytes() {
    let r = build_node(
        base_config(Network::Bitcoin),
        None,
        Some(EntropySourceConfig::SeedBytes(vec![0u8; 31])),
        None,
    );
    assert_eq!(r.unwrap_err(), ConfigError::InvalidSeedBytes);
}

#[test]
fn build_rejects_long_seed_bytes() {
    let r = build_node(
        base_config(Network::Bitcoin),
        None,
        Some(EntropySourceConfig::SeedBytes(vec![0u8; 33])),
        None,
    );
    assert_eq!(r.unwrap_err(), ConfigError::InvalidSeedBytes);
}

#[test]
fn build_accepts_every_valid_plan() {
    let plans: Vec<Option<EntropySourceConfig>> = vec![
        None,
        Some(EntropySourceConfig::SeedFile(String::from("/tmp/seed"))),
        Some(EntropySourceConfig::SeedBytes(vec![7u8; 32])),
        Some(EntropySourceConfig::Bip39Mnemonic {
            mnemonic: ldk_facade::wire::Mnemonic { internal: String::from("abandon ability") },
            passphrase: None,
        }),
    ];
    for entropy in plans {
        for gossip in [
            None,
            Some(GossipSourceConfig::P2PNetwork),
            Some(GossipSourceConfig::RapidGossipSync(String::from("https://rgs.example"))),
        ] {
            let h = build_node(base_config(Network::Testnet), None, entropy.clone(), gossip)
                .unwrap();
            assert_eq!(h.lifecycle, LifecycleState::Built);
        }
    }
}

#[test]
fn lifecycle_scenario_full_run() {
    // Build with base config, 32 zero seed bytes, an esplora source and
    // no gossip source.
    let mut h = built_node(Network::Bitcoin);
    assert_eq!(h.lifecycle, LifecycleState::Built);

    h.start().unwrap();
    assert_eq!(h.lifecycle, LifecycleState::Running);

    let key = h.node_id().unwrap();
    assert_eq!(key.internal.len(), 66);
    assert!(key.internal.chars().all(|c| c.is_ascii_hexdigit()));
    // The model id of a node built from 32 zero seed bytes: the
    // compressed-key prefix byte, then the seed, in hex.
    assert_eq!(key.internal, format!("02{}", "00".repeat(32)));

    let invoice = h.receive_payment(1000, String::from("test"), 3600).unwrap();
    assert!(invoice.internal.starts_with("lnbc"));
    // The invoice commits to what was asked for.
    let parsed = ldk_facade::wire::parse_invoice(&invoice.internal).unwrap();
    assert_eq!(parsed.network, Network::Bitcoin);
    assert!(parsed.has_amount);
    assert_eq!(parsed.amount_msat, 1000);
    assert_eq!(parsed.expiry_secs, 3600);
    assert_eq!(parsed.description, "test");

    h.stop().unwrap();
    assert_eq!(h.lifecycle, LifecycleState::Stopped);
    assert_eq!(h.node_id().unwrap_err(), NodeError::NotRunning);
}

#[test]
fn operations_fail_before_start_and_after_stop() {
    let mut h = built_node(Network::Bitcoin);
    assert_eq!(h.node_id().unwrap_err(), NodeError::NotRunning);
    assert_eq!(h.new_onchain_address().unwrap_err(), NodeError::NotRunning);
    assert_eq!(h.spendable_onchain_balance_sats().unwrap_err(), NodeError::NotRunning);
    assert_eq!(h.total_onchain_balance_sats().unwrap_err(), NodeError::NotRunning);
    assert_eq!(h.sync_wallets().unwrap_err(), NodeError::NotRunning);
    assert_eq!(h.sign_message(vec![1, 2, 3]).unwrap_err(), NodeError::NotRunning);
    assert_eq!(h.event_handled().unwrap_err(), NodeError::NotRunning);
    assert_eq!(
        h.verify_signature(vec![1], String::from("s"), peer_key()).unwrap_err(),
        NodeError::NotRunning
    );
    assert_eq!(
        h.remove_payment(ldk_facade::wire::PaymentHash { internal: String::new() }).unwrap_err(),
        NodeError::NotRunning
    );
    assert_eq!(h.stop().unwrap_err(), NodeError::NotRunning);

    h.start().unwrap();
    h.stop().unwrap();
    assert_eq!(h.node_id().unwrap_err(), NodeError::NotRunning);
    assert_eq!(h.sync_wallets().unwrap_err(), NodeError::NotRunning);
    assert_eq!(h.stop().unwrap_err(), NodeError::NotRunning);
}

#[test]
fn start_is_not_reentrant() {
    let mut h = built_node(Network::Bitcoin);
    h.start().unwrap();
    assert_eq!(h.start().unwrap_err(), NodeError::AlreadyRunning);
    h.stop().unwrap();
    assert_eq!(h.start().unwrap_err(), NodeError::Stopped);
}

#[test]
fn start_can_be_retried_while_built() {
    let mut h = built_node(Network::Bitcoin);
    assert_eq!(h.lifecycle, LifecycleState::Built);
    h.start().unwrap();
    assert_eq!(h.lifecycle, LifecycleState::Running);
}

#[test]
fn event_is_repeated_until_handled() {
    let mut h = running_node(Network::Bitcoin);
    assert!(h.next_event().is_none());

    let addr = NetAddress { internal: String::from("10.0.0.1:9735") };
    h.connect_open_channel(addr, peer_key(), 100_000, None, true, None).unwrap();

    let e1 = h.next_event().unwrap();
    let e2 = h.next_event().unwrap();
    let e3 = h.next_event().unwrap();
    assert_eq!(e1, e2);
    assert_eq!(e2, e3);
    let waited = h.wait_until_next_event();
    assert_eq!(waited, e1);
    assert!(matches!(e1, Event::ChannelPending { .. }));

    h.event_handled().unwrap();
    assert!(h.next_event().is_none());
}

#[test]
fn events_arrive_in_order_one_per_acknowledgement() {
    let mut h = running_node(Network::Bitcoin);
    let addr = NetAddress { internal: String::from("10.0.0.1:9735") };
    h.connect_open_channel(addr, peer_key(), 50_000, None, false, None).unwrap();
    let channel = h.list_channels().pop().unwrap();
    h.close_channel(channel.channel_id, channel.counterparty_node_id).unwrap();

    assert!(matches!(h.next_event().unwrap(), Event::ChannelPending { .. }));
    h.event_handled().unwrap();
    assert!(matches!(h.next_event().unwrap(), Event::ChannelClosed { .. }));
    h.event_handled().unwrap();
    assert!(h.next_event().is_none());
    // Acknowledging an empty queue is harmless.
    h.event_handled().unwrap();
    assert!(h.next_event().is_none());
}

#[test]
fn remove_payment_scenario() {
    let mut h = running_node(Network::Bitcoin);
    let unknown = ldk_facade::wire::PaymentHash {
        internal: "ab".repeat(32),
    };
    assert_eq!(h.remove_payment(unknown).unwrap(), false);

    h.receive_payment(2500, String::from("order"), 600).unwrap();
    let hash = h.list_payments().pop().unwrap().hash;
    let again = ldk_facade::wire::PaymentHash { internal: hash.internal.clone() };
    assert_eq!(h.remove_payment(hash).unwrap(), true);
    assert!(h.payment(again).is_none());
}

#[test]
fn payments_are_recorded_and_filtered_in_order() {
    let mut h = running_node(Network::Bitcoin);
    h.receive_payment(1000, String::from("a"), 600).unwrap();
    h.receive_variable_amount_payment(String::from("b"), 600).unwrap();

    let outbound_hash = ldk_facade::wire::PaymentHash { internal: "cd".repeat(32) };
    let text = ldk_facade::wire::make_invoice_text(
        Network::Bitcoin,
        true,
        5000,
        600,
        &String::from("order"),
        &outbound_hash,
    );
    let paid = h.send_payment(Invoice { internal: text }).unwrap();
    assert_eq!(paid.internal, "cd".repeat(32));

    let all = h.list_payments();
    assert_eq!(all.len(), 3);
    let inbound = h.list_payments_with_filter(ldk_facade::wire::PaymentDirection::Inbound);
    assert_eq!(inbound.len(), 2);
    assert_eq!(inbound[0].amount_msat, Some(1000));
    assert_eq!(inbound[1].amount_msat, None);
    let outbound = h.list_payments_with_filter(ldk_facade::wire::PaymentDirection::Outbound);
    assert_eq!(outbound.len(), 1);
    assert_eq!(outbound[0].amount_msat, Some(5000));
    assert_eq!(
        outbound[0].status,
        ldk_facade::wire::PaymentStatus::Pending
    );
}

#[test]
fn send_payment_error_cases() {
    let mut h = running_node(Network::Bitcoin);
    assert_eq!(
        h.send_payment(Invoice { internal: String::from("not an invoice") }).unwrap_err(),
        NodeError::Translation(TranslationError::ParseError)
    );

    let hash = ldk_facade::wire::PaymentHash { internal: "ef".repeat(32) };
    let desc = String::from("d");
    let testnet = ldk_facade::wire::make_invoice_text(Network::Testnet, true, 100, 60, &desc, &hash);
    assert!(matches!(
        h.send_payment(Invoice { internal: testnet }).unwrap_err(),
        NodeError::Operation(_)
    ));

    let zero_amount =
        ldk_facade::wire::make_invoice_text(Network::Bitcoin, false, 0, 60, &desc, &hash);
    assert!(matches!(
        h.send_payment(Invoice { internal: zero_amount.clone() }).unwrap_err(),
        NodeError::Operation(_)
    ));

    // A zero-amount invoice is payable with a caller-chosen amount.
    let paid = h
        .send_payment_using_amount(Invoice { internal: zero_amount }, 777)
        .unwrap();
    assert_eq!(paid.internal, "ef".repeat(32));
    // Paying the same invoice again is a duplicate.
    let again = ldk_facade::wire::make_invoice_text(Network::Bitcoin, true, 100, 60, &desc, &hash);
    assert!(matches!(
        h.send_payment(Invoice { internal: again }).unwrap_err(),
        NodeError::Operation(_)
    ));

    // An invoice that demands more than is offered is refused.
    let hash2 = ldk_facade::wire::PaymentHash { internal: "0a".repeat(32) };
    let big =
        ldk_facade::wire::make_invoice_text(Network::Bitcoin, true, 10_000, 60, &desc, &hash2);
    assert!(matches!(
        h.send_payment_using_amount(Invoice { internal: big }, 9_999).unwrap_err(),
        NodeError::Operation(_)
    ));
}

#[test]
fn spontaneous_payment_gets_fresh_hash() {
    let mut h = running_node(Network::Bitcoin);
    let h1 = h.send_spontaneous_payment(42, peer_key()).unwrap();
    let h2 = h.send_spontaneous_payment(42, peer_key()).unwrap();
    assert_ne!(h1.internal, h2.internal);
    assert_eq!(h.list_payments().len(), 2);
    assert_eq!(
        h.send_spontaneous_payment(1, PublicKey { internal: String::from("bad") }).unwrap_err(),
        NodeError::Translation(TranslationError::ParseError)
    );
}

#[test]
fn onchain_wallet_operations() {
    let mut h = running_node(Network::Bitcoin);
    assert_eq!(h.spendable_onchain_balance_sats().unwrap(), 0);
    assert_eq!(h.total_onchain_balance_sats().unwrap(), 0);

    let a1 = h.new_onchain_address().unwrap();
    let a2 = h.new_onchain_address().unwrap();
    assert!(a1.internal.starts_with("bc1"));
    assert_eq!(a1.internal, "bc10000000000000000");
    assert_ne!(a1.internal, a2.internal);

    // No funds: any positive amount is refused, a drain of nothing works.
    assert!(matches!(
        h.send_to_onchain_address(Address { internal: a1.internal.clone() }, 5).unwrap_err(),
        NodeError::Operation(_)
    ));
    let txid = h.send_all_to_onchain_address(Address { internal: a1.internal.clone() }).unwrap();
    assert_eq!(txid.internal.len(), 64);
    assert_eq!(
        h.send_to_onchain_address(Address { internal: String::from("what") }, 0).unwrap_err(),
        NodeError::Translation(TranslationError::ParseError)
    );
    h.sync_wallets().unwrap();
}

#[test]
fn peers_are_connected_and_disconnected() {
    let mut h = running_node(Network::Bitcoin);
    let addr = NetAddress { internal: String::from("10.1.1.1:9735") };
    h.connect(peer_key(), addr, true).unwrap();
    let peers = h.list_peers();
    assert_eq!(peers.len(), 1);
    assert!(peers[0].is_persisted);
    assert!(peers[0].is_connected);

    // Connecting to a known peer keeps the stored entry.
    let addr2 = NetAddress { internal: String::from("10.2.2.2:9735") };
    h.connect(peer_key(), addr2, false).unwrap();
    assert_eq!(h.list_peers().len(), 1);
    assert_eq!(h.list_peers()[0].address.internal, "10.1.1.1:9735");

    h.disconnect(peer_key()).unwrap();
    assert!(h.list_peers().is_empty());
    // Disconnecting an unknown peer is not an error.
    h.disconnect(peer_key()).unwrap();

    assert_eq!(
        h.connect(
            PublicKey { internal: String::from("xyz") },
            NetAddress { internal: String::from("10.0.0.2:1") },
            false
        )
        .unwrap_err(),
        NodeError::Translation(TranslationError::ParseError)
    );
    assert_eq!(
        h.connect(peer_key(), NetAddress { internal: String::from("noport") }, false)
            .unwrap_err(),
        NodeError::Translation(TranslationError::ParseError)
    );
}

#[test]
fn channels_open_update_and_close() {
    let mut h = running_node(Network::Bitcoin);
    let addr = NetAddress { internal: String::from("10.0.0.9:9735") };
    h.connect_open_channel(addr, peer_key(), 250_000, Some(1_000_000), true, None).unwrap();
    let channels = h.list_channels();
    assert_eq!(channels.len(), 1);
    assert_eq!(channels[0].channel_value_sats, 250_000);
    assert!(channels[0].is_public);
    assert!(!channels[0].is_channel_ready);

    let new_config = ldk_facade::wire::ChannelConfig {
        forwarding_fee_proportional_millionths: 100,
        forwarding_fee_base_msat: 1000,
        cltv_expiry_delta: 40,
    };
    let id = ldk_facade::wire::ChannelId {
        internal: channels[0].channel_id.internal.clone(),
    };
    let peer = PublicKey { internal: channels[0].counterparty_node_id.internal.clone() };
    h.update_channel_config(id, peer, new_config).unwrap();
    assert_eq!(h.list_channels()[0].config, new_config);

    // Pushing more than the channel holds is refused.
    let addr2 = NetAddress { internal: String::from("10.0.0.9:9736") };
    assert!(matches!(
        h.connect_open_channel(addr2, peer_key(), 10, Some(10_001), false, None).unwrap_err(),
        NodeError::Operation(_)
    ));

    // Closing an unknown channel is refused.
    let bogus = ldk_facade::wire::ChannelId { internal: "99".repeat(32) };
    assert!(matches!(
        h.close_channel(bogus, peer_key()).unwrap_err(),
        NodeError::Operation(_)
    ));

    let channels = h.list_channels();
    let id = ldk_facade::wire::ChannelId {
        internal: channels[0].channel_id.internal.clone(),
    };
    let peer = PublicKey { internal: channels[0].counterparty_node_id.internal.clone() };
    h.close_channel(id, peer).unwrap();
    assert!(h.list_channels().is_empty());
}

#[test]
fn signatures_verify_for_the_signing_node() {
    let h = running_node(Network::Bitcoin);
    let key = h.node_id().unwrap();
    let sig = h.sign_message(vec![1, 2, 3]).unwrap();
    assert!(h.verify_signature(vec![1, 2, 3], sig.clone(), key).unwrap());

    let key = h.node_id().unwrap();
    assert!(!h.verify_signature(vec![1, 2, 4], sig.clone(), key).unwrap());
    let other = peer_key();
    assert!(!h.verify_signature(vec![1, 2, 3], sig, other).unwrap());
}

#[test]
fn listening_address_mirrors_configuration() {
    let h = built_node(Network::Bitcoin);
    assert_eq!(h.listening_address().unwrap().internal, "127.0.0.1:9735");
    let none = build_node(
        Config { listening_address: None, ..base_config(Network::Bitcoin) },
        None,
        None,
        None,
    )
    .unwrap();
    assert!(none.listening_address().is_none());
}

#[test]
fn generated_mnemonic_is_not_empty() {
    let m = ldk_facade::entropy::generate_entropy_mnemonic();
    assert!(!m.internal.is_empty());
    // Two draws almost surely differ; equal draws would hint the wrapper
    // returns a constant.
    let m2 = ldk_facade::entropy::generate_entropy_mnemonic();
    assert!(m.internal.split(' ').count() >= 12);
    assert_ne!(m.internal, m2.internal);
}

#[test]
fn invoice_prefix_follows_network() {
    for (network, prefix) in [
        (Network::Bitcoin, "lnbc"),
        (Network::Testnet, "lntb"),
        (Network::Signet, "lntbs"),
        (Network::Regtest, "lnbcrt"),
    ] {
        let mut h = running_node(network);
        let invoice = h.receive_payment(10, String::from("x"), 60).unwrap();
        assert!(invoice.internal.starts_with(prefix));
    }
}
