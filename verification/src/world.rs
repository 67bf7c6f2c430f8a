//! A deployment together with the ledger it gives its orders to.
//!
//! An instruction takes effect as a whole or not at all: if the deployment
//! refuses it, or if the ledger refuses the transfer that it orders, records
//! and balances stay as they were. Nothing but the instructions of the
//! deployment acts on the ledger here.

use vstd::prelude::*;
use crate::ledger::{settle, CustodyAccount};
use crate::model::{DeploymentView, Instruction};
use crate::state::StakeAddress;

verus! {

/// Whether `instruction` asks for the asset of the record at `address` back.
pub open spec fn reclaims(instruction: Instruction, address: StakeAddress) -> bool {
    match instruction {
        Instruction::Unstake { stake_nft, .. } => stake_nft == address,
        Instruction::Release { stake_nft, .. } => stake_nft == address,
        _ => false,
    }
}

/// The records of a deployment, and what every custody account holds.
pub struct World {
    pub deployment: DeploymentView,
    pub ledger: Map<CustodyAccount, nat>,
}

impl World {
    /// The bump that proves the vault's authority to the ledger: the one that
    /// the vault record holds.
    pub open spec fn vault_bump(self) -> Option<u8> {
        match self.deployment.vault {
            Some(vault) => Some(vault.bump),
            None => None,
        }
    }

    /// Whether `instruction` takes effect here: the deployment accepts it, and
    /// the ledger settles the transfer that it orders, if any.
    pub open spec fn commits(self, instruction: Instruction) -> bool {
        match self.deployment.process(instruction).1 {
            Err(_) => false,
            Ok(None) => true,
            Ok(Some(order)) => settle(self.ledger, self.vault_bump(), order) is Some,
        }
    }

    /// The world after `instruction`: changed as the instruction says if it
    /// takes effect, and unchanged if not.
    pub open spec fn execute(self, instruction: Instruction) -> World {
        let (next, res) = self.deployment.process(instruction);
        match res {
            Err(_) => self,
            Ok(None) => World { deployment: next, ledger: self.ledger },
            Ok(Some(order)) => match settle(self.ledger, self.vault_bump(), order) {
                Some(ledger) => World { deployment: next, ledger },
                None => self,
            },
        }
    }

    /// The world after the instructions of `trace`, one after the other.
    pub open spec fn run(self, trace: Seq<Instruction>) -> World
        decreases trace.len(),
    {
        if trace.len() == 0 {
            self
        } else {
            self.run(trace.drop_last()).execute(trace.last())
        }
    }
}

} // verus!
