//! Custody rules of a vault that holds staked non-fungible tokens.
//!
//! A staker hands one unit of an asset to the vault and takes it back later;
//! the vault's authority may hand it back in the staker's stead. The crate
//! decides who may do what, and says which transfer the token ledger is to
//! make; it moves nothing itself.
//!
//! - [`pubkey`], [`state`], [`error`]: identities, the two kinds of record,
//!   and the reasons for a refusal.
//! - [`accounts`], [`instructions`]: the four operations, on the accounts they
//!   are handed.
//! - [`ledger`]: the transfers that the operations order, and what the ledger
//!   is taken to do with them.
//! - [`layout`]: how the records lie in storage.
//! - [`deployment`]: the records of one vault, and the operations on them.
//! - [`model`], [`world`], [`guarantees`]: what a deployment is, and what is
//!   proved of it.

pub mod accounts;
pub mod deployment;
pub mod error;
pub mod guarantees;
pub mod instructions;
pub mod layout;
pub mod ledger;
pub mod model;
pub mod pubkey;
pub mod state;
pub mod world;

pub use crate::accounts::{Initialize, Release, Stake, Unstake};
pub use crate::deployment::Deployment;
pub use crate::error::{Failure, NftError};
pub use crate::instructions::{initialize, release, stake, unstake};
pub use crate::layout::{
    STAKE_DISCRIMINATOR, STAKE_ENCODED_LEN, VAULT_DISCRIMINATOR, VAULT_ENCODED_LEN,
};
pub use crate::ledger::{Authorization, CustodyAccount, Owner, Transfer, VAULT_SEED};
pub use crate::model::Instruction;
pub use crate::pubkey::Pubkey;
pub use crate::state::{NftVault, StakeAddress, StakeNft, STAKE_SEED};
