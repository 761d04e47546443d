use vstd::prelude::*;

use crate::errors::ConfigError;
use crate::wire::{Mnemonic, NetAddress, Network};

verus! {

// The configuration resolver merges a base configuration with zero-or-one
// selection from each of three optional pluggable-source families into a
// single build plan, and applies the plan to builder settings exactly as
// the engine's builder would.

/// The base configuration of a node.
#[derive(Clone, PartialEq, Eq, Debug)]
pub struct Config {
    pub storage_dir_path: String,
    pub network: Network,
    pub listening_address: Option<NetAddress>,
    pub default_cltv_expiry_delta: u32,
    pub onchain_wallet_sync_interval_secs: u64,
    pub wallet_sync_interval_secs: u64,
    pub fee_rate_cache_update_interval_secs: u64,
}

/// Where the node sources its wallet entropy. At most one alternative is
/// active; the sum type makes a second simultaneous choice unrepresentable.
#[derive(Clone, PartialEq, Eq, Debug)]
pub enum EntropySourceConfig {
    SeedFile(String),
    SeedBytes(Vec<u8>),
    Bip39Mnemonic { mnemonic: Mnemonic, passphrase: Option<String> },
}

/// Where the node sources chain data.
#[derive(Clone, PartialEq, Eq, Debug)]
pub enum ChainDataSourceConfig {
    Esplora(String),
}

/// Where the node sources gossip.
#[derive(Clone, PartialEq, Eq, Debug)]
pub enum GossipSourceConfig {
    P2PNetwork,
    RapidGossipSync(String),
}

/// A base configuration plus at most one variant per optional family.
/// An absent family means "use engine defaults".
#[derive(Clone, PartialEq, Eq, Debug)]
pub struct BuildPlan {
    pub config: Config,
    pub entropy_source: Option<EntropySourceConfig>,
    pub chain_data_source: Option<ChainDataSourceConfig>,
    pub gossip_source: Option<GossipSourceConfig>,
}

/// Merge a base configuration and the optional family selections into a
/// build plan. Pure and total: invalid seed bytes are rejected later, at
/// build time.
pub fn resolve(
    config: Config,
    entropy_source: Option<EntropySourceConfig>,
    chain_data_source: Option<ChainDataSourceConfig>,
    gossip_source: Option<GossipSourceConfig>,
) -> (r: BuildPlan)
    ensures
        r.config == config,
        r.entropy_source == entropy_source,
        r.chain_data_source == chain_data_source,
        r.gossip_source == gossip_source,
{
    BuildPlan { config, entropy_source, chain_data_source, gossip_source }
}

/// Whether the entropy selection of a plan is valid: seed bytes, when
/// given, are exactly 32 bytes. Every other selection is always valid.
pub open spec fn plan_entropy_valid(plan: BuildPlan) -> bool {
    match plan.entropy_source {
        Some(EntropySourceConfig::SeedBytes(b)) => b@.len() == 32,
        _ => true,
    }
}

/// The builder state after a plan has been applied: the base
/// configuration together with whatever each present family set. Absent
/// families leave every corresponding setting untouched.
#[derive(Clone, PartialEq, Eq, Debug)]
pub struct BuilderSettings {
    pub config: Config,
    pub entropy_seed_path: Option<String>,
    pub entropy_seed_bytes: Option<Vec<u8>>,
    pub entropy_mnemonic: Option<Mnemonic>,
    pub entropy_passphrase: Option<String>,
    pub esplora_server_url: Option<String>,
    pub gossip_source_p2p: bool,
    pub rgs_server_url: Option<String>,
}

/// What applying `plan` must produce: each present family sets exactly
/// its own settings, and absent families leave engine defaults untouched.
pub open spec fn settings_of_plan(plan: BuildPlan, s: BuilderSettings) -> bool {
    &&& s.config == plan.config
    &&& match plan.entropy_source {
        None => s.entropy_seed_path is None && s.entropy_seed_bytes is None
            && s.entropy_mnemonic is None && s.entropy_passphrase is None,
        Some(EntropySourceConfig::SeedFile(p)) => s.entropy_seed_path == Some(p)
            && s.entropy_seed_bytes is None && s.entropy_mnemonic is None
            && s.entropy_passphrase is None,
        Some(EntropySourceConfig::SeedBytes(b)) => s.entropy_seed_path is None
            && s.entropy_seed_bytes == Some(b) && s.entropy_mnemonic is None
            && s.entropy_passphrase is None,
        Some(EntropySourceConfig::Bip39Mnemonic { mnemonic, passphrase }) => s.entropy_seed_path
            is None && s.entropy_seed_bytes is None && s.entropy_mnemonic == Some(mnemonic)
            && s.entropy_passphrase == passphrase,
    }
    &&& match plan.chain_data_source {
        None => s.esplora_server_url is None,
        Some(ChainDataSourceConfig::Esplora(u)) => s.esplora_server_url == Some(u),
    }
    &&& match plan.gossip_source {
        None => !s.gossip_source_p2p && s.rgs_server_url is None,
        Some(GossipSourceConfig::P2PNetwork) => s.gossip_source_p2p && s.rgs_server_url is None,
        Some(GossipSourceConfig::RapidGossipSync(u)) => !s.gossip_source_p2p && s.rgs_server_url
            == Some(u),
    }
}

/// Apply a plan to fresh builder settings: start from the base
/// configuration, then apply the one present variant of each family. Seed
/// bytes of any length other than 32 are rejected with `InvalidSeedBytes`,
/// never truncated or padded.
pub fn build_builder(plan: BuildPlan) -> (r: Result<BuilderSettings, ConfigError>)
    ensures
        match r {
            Ok(s) => plan_entropy_valid(plan) && settings_of_plan(plan, s),
            Err(e) => !plan_entropy_valid(plan) && e == ConfigError::InvalidSeedBytes,
        },
{
    let BuildPlan { config, entropy_source, chain_data_source, gossip_source } = plan;
    let mut settings = BuilderSettings {
        config,
        entropy_seed_path: None,
        entropy_seed_bytes: None,
        entropy_mnemonic: None,
        entropy_passphrase: None,
        esplora_server_url: None,
        gossip_source_p2p: false,
        rgs_server_url: None,
    };
    if let Some(source) = entropy_source {
        match source {
            EntropySourceConfig::SeedFile(p) => {
                settings.entropy_seed_path = Some(p);
            },
            EntropySourceConfig::SeedBytes(b) => {
                if b.len() != 32 {
                    return Err(ConfigError::InvalidSeedBytes);
                }
                settings.entropy_seed_bytes = Some(b);
            },
            EntropySourceConfig::Bip39Mnemonic { mnemonic, passphrase } => {
                settings.entropy_mnemonic = Some(mnemonic);
                settings.entropy_passphrase = passphrase;
            },
        }
    }
    if let Some(source) = chain_data_source {
        match source {
            ChainDataSourceConfig::Esplora(u) => {
                settings.esplora_server_url = Some(u);
            },
        }
    }
    if let Some(source) = gossip_source {
        match source {
            GossipSourceConfig::P2PNetwork => {
                settings.gossip_source_p2p = true;
            },
            GossipSourceConfig::RapidGossipSync(u) => {
                settings.rgs_server_url = Some(u);
            },
        }
    }
    Ok(settings)
}

} // verus!
