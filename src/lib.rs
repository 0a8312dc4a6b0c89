pub mod types;
pub mod outside;
pub mod power;
pub mod registry;
pub mod contract;
pub mod laws;

pub use contract::ElectionContract;

pub use types::{
    Candidate, ContractConfig, ContractError, ElectionState, ErrorKind, Event, Role, TimelockAction,
    User, VoteRecord, Voter,
};
