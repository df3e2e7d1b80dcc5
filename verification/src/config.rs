use vstd::prelude::*;
use vstd::string::*;

verus! {

/// Logging configuration of the process.
#[derive(Debug, Clone)]
pub struct TelemetryConfig {
    pub log_level: String,
    pub json: bool,
}

impl Default for TelemetryConfig {
    fn default() -> (r: Self)
        ensures
            r.log_level@ == "info"@,
            !r.json,
    {
        TelemetryConfig { log_level: String::from_str("info"), json: false }
    }
}

/// Connectivity settings of the exchange boundary.
#[derive(Debug, Clone)]
pub struct ExchangeConfig {
    pub network: String,
    pub rate_limit_per_minute: u32,
    pub api_key: Option<String>,
    pub secret_key: Option<String>,
    pub signer_private_key: Option<String>,
    pub signer_private_key_env: Option<String>,
}

impl Default for ExchangeConfig {
    fn default() -> (r: Self)
        ensures
            r.network@ == "mainnet"@,
            r.rate_limit_per_minute == 600,
            r.api_key is None,
            r.secret_key is None,
            r.signer_private_key is None,
            r.signer_private_key_env is None,
    {
        ExchangeConfig {
            network: String::from_str("mainnet"),
            rate_limit_per_minute: 600,
            api_key: None,
            secret_key: None,
            signer_private_key: None,
            signer_private_key_env: None,
        }
    }
}

/// Where snapshots and the journal are kept, and how often a periodic
/// snapshot is taken.
#[derive(Debug, Clone)]
pub struct PersistenceConfig {
    pub snapshot_path: String,
    pub journal_path: String,
    pub snapshot_interval_secs: u64,
}

impl Default for PersistenceConfig {
    fn default() -> (r: Self)
        ensures
            r.snapshot_path@ == "data/snapshots"@,
            r.journal_path@ == "data/journal.log"@,
            r.snapshot_interval_secs == 30,
    {
        PersistenceConfig {
            snapshot_path: String::from_str("data/snapshots"),
            journal_path: String::from_str("data/journal.log"),
            snapshot_interval_secs: 30,
        }
    }
}

} // verus!
