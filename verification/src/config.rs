//! Configuration of the application: where the genesis comes from and where
//! the ledger is kept.

use crate::genesis::{
    builtin_genesis, committee_genesis, committee_view, distinct_node_keys, genesis_with_params,
    lemma_committee_genesis, params_genesis, test_genesis, Genesis, GenesisError, GenesisNode,
    GenesisView, Params,
};
use crate::state::{State, MAX_NODES};
use vstd::prelude::*;

verus! {

/// What the node runs for.
#[derive(Clone, Copy, Debug, PartialEq, Eq)]
pub enum Mode {
    Dev,
    Test,
    Prod,
}

/// Where the ledger is kept.
#[derive(Clone, Copy, Debug, PartialEq, Eq)]
pub enum StorageConfig {
    InMemory,
    RocksDb,
}

/// The configuration of the application.
#[derive(Clone, Debug, PartialEq, Eq)]
pub struct Config {
    /// The genesis; the built-in one where none is given.
    pub genesis: Option<Genesis>,
    pub mode: Mode,
    pub testnet: bool,
    pub storage: StorageConfig,
    pub db_path: Option<String>,
    pub db_options: Option<String>,
}

/// Why the application does not start.
#[derive(Clone, Copy, Debug, PartialEq, Eq)]
pub enum InitError {
    /// The genesis makes no ledger.
    Genesis(GenesisError),
    /// The ledger is to be kept on disk, which is for the runtime to set up.
    StorageNotInMemory,
}

/// The configuration of a test: the given genesis, kept in memory.
pub fn test_config(genesis: Genesis) -> (config: Config)
    ensures
        config.genesis == Some(genesis),
        config.mode == Mode::Test,
        !config.testnet,
        config.storage == StorageConfig::InMemory,
        config.db_path is None,
        config.db_options is None,
{
    Config {
        genesis: Some(genesis),
        mode: Mode::Test,
        testnet: false,
        storage: StorageConfig::InMemory,
        db_path: None,
        db_options: None,
    }
}

/// The genesis that a start goes by: that of the configuration, or the
/// built-in one where the configuration names none or there is no
/// configuration.
pub open spec fn config_genesis(config: Option<Config>) -> GenesisView {
    match config {
        Some(c) => match c.genesis {
            Some(g) => g@,
            None => builtin_genesis(),
        },
        None => builtin_genesis(),
    }
}

/// Whether a configuration asks for a ledger on disk.
pub open spec fn wants_disk(config: Option<Config>) -> bool {
    config matches Some(c) && c.storage == StorageConfig::RocksDb
}

/// What a start in memory gives: no ledger where the configuration asks for
/// one on disk, no ledger where the genesis fails, and else the first ledger
/// of the genesis.
pub open spec fn started_as(
    started: Result<State, InitError>,
    on_disk: bool,
    genesis: GenesisView,
) -> bool {
    match started {
        Ok(state) => !on_disk && genesis.failure() is None && state@ == genesis.state()
            && state@.wf(),
        Err(InitError::StorageNotInMemory) => on_disk,
        Err(InitError::Genesis(e)) => !on_disk && genesis.failure() == Some(e),
    }
}

/// Starts the application in memory: makes the first ledger from the genesis
/// of the configuration, or from the built-in genesis where the configuration
/// names none or there is no configuration.
pub fn init_app(config: Option<Config>) -> (started: Result<State, InitError>)
    ensures
        started_as(started, wants_disk(config), config_genesis(config)),
{
    let genesis = match config {
        Some(c) => {
            match c.storage {
                StorageConfig::RocksDb => {
                    return Err(InitError::StorageNotInMemory);
                },
                StorageConfig::InMemory => {},
            }
            c.genesis
        },
        None => None,
    };
    match genesis {
        Some(g) => match State::from_genesis(&g) {
            Ok(state) => Ok(state),
            Err(e) => Err(InitError::Genesis(e)),
        },
        None => {
            let g = test_genesis();
            match State::from_genesis(&g) {
                Ok(state) => Ok(state),
                Err(e) => Err(InitError::Genesis(e)),
            }
        },
    }
}

/// Starts the application of a test from the built-in genesis with the given
/// nodes in place of its own. The start succeeds exactly when there are no
/// more nodes than indices and no two of them share a key.
pub fn test_init_app(committee: Vec<GenesisNode>) -> (started: Result<State, InitError>)
    ensures
        started_as(started, false, committee_genesis(committee@)),
        started is Ok <==> committee@.len() <= MAX_NODES && distinct_node_keys(committee@),
        started matches Err(e) ==> e == InitError::Genesis(
            if committee@.len() > MAX_NODES {
                GenesisError::TooManyNodes
            } else {
                GenesisError::DuplicateNode
            },
        ),
{
    let mut genesis = test_genesis();
    genesis.node_info = committee;
    proof {
        assert(genesis@ =~= committee_genesis(committee@));
        lemma_committee_genesis(committee@);
    }
    init_app(Some(test_config(genesis)))
}

/// Starts the application of a test from the given genesis.
pub fn init_app_with_genesis(genesis: Genesis) -> (started: Result<State, InitError>)
    ensures
        started_as(started, false, genesis@),
{
    init_app(Some(test_config(genesis)))
}

/// Starts the application of a test from the built-in genesis with the given
/// parameters written over its own, the given nodes in place of its own where
/// there are any, and the first epoch starting at `now`.
pub fn init_app_with_params(params: Params, committee: Option<Vec<GenesisNode>>, now: u64) -> (started:
    Result<State, InitError>)
    ensures
        started_as(started, false, params_genesis(params, committee_view(committee), now)),
{
    let genesis = genesis_with_params(&params, committee, now);
    init_app(Some(test_config(genesis)))
}

} // verus!
