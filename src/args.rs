//! Command-line settings of the indexer and the decisions drawn from them.

use vstd::prelude::*;
use crate::text::str_eq;

verus! {

/// Settings of an indexer run.
pub struct DubheIndexerArgs {
    /// Path to the configuration file.
    pub config_json: String,
    /// Number of workers in the pool.
    pub worker_pool_number: u32,
    /// Checkpoint to start from; 0 means the latest one.
    pub start_checkpoint: u64,
    /// Clear the indexer database first (local nodes only).
    pub force: bool,
    /// Network name: `localnet`, `testnet` or `mainnet`.
    pub network: String,
    /// Serve the GraphQL layer too.
    pub with_graphql: bool,
}

/// A network name outside `localnet`, `testnet` and `mainnet`.
#[derive(Debug, PartialEq, Eq)]
pub struct InvalidNetwork {
    pub network: String,
}

/// Remote checkpoint store of a network: none for `localnet`, which reads
/// checkpoints from a local directory.
pub open spec fn store_url_of(network: Seq<char>) -> Option<Option<Seq<char>>> {
    if network == "localnet"@ {
        Some(None)
    } else if network == "testnet"@ {
        Some(Some("https://checkpoints.testnet.sui.io"@))
    } else if network == "mainnet"@ {
        Some(Some("https://checkpoints.mainnet.sui.io"@))
    } else {
        None
    }
}

impl DubheIndexerArgs {
    /// The checkpoint to start from: the configured one, or `latest_checkpoint`
    /// when none (0) is configured.
    pub fn get_start_checkpoint(&self, latest_checkpoint: u64) -> (r: u64)
        ensures
            r == if self.start_checkpoint == 0 { latest_checkpoint } else { self.start_checkpoint },
    {
        if self.start_checkpoint == 0 {
            latest_checkpoint
        } else {
            self.start_checkpoint
        }
    }

    /// The remote checkpoint store of the configured network (`None` for
    /// `localnet`), or `InvalidNetwork` for an unknown network name.
    pub fn checkpoint_store_url(&self) -> (r: Result<Option<String>, InvalidNetwork>)
        ensures
            match r {
                Ok(url) => store_url_of(self.network@) == Some(
                    match url { Some(u) => Some(u@), None => None::<Seq<char>> },
                ),
                Err(e) => store_url_of(self.network@) is None && e.network@ == self.network@,
            },
    {
        if str_eq(self.network.as_str(), "localnet") {
            Ok(None)
        } else if str_eq(self.network.as_str(), "testnet") {
            Ok(Some(String::from_str("https://checkpoints.testnet.sui.io")))
        } else if str_eq(self.network.as_str(), "mainnet") {
            Ok(Some(String::from_str("https://checkpoints.mainnet.sui.io")))
        } else {
            Err(InvalidNetwork { network: self.network.clone() })
        }
    }
}

} // verus!
