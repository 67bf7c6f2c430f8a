//! A deployment that can be run: the records of one vault, and the four
//! instructions on them.
//!
//! Each instruction finds the records it refers to, lets the controller
//! decide, and on approval creates or removes the record concerned. Where it
//! returns a transfer, the instruction stands only if the ledger settles that
//! transfer.

use vstd::prelude::*;
use crate::accounts::{Initialize, Release, Stake, Unstake};
use crate::error::Failure;
use crate::instructions::{initialize, release, stake, unstake};
use crate::ledger::Transfer;
use crate::model::{DeploymentView, Instruction};
use crate::pubkey::Pubkey;
use crate::state::{NftVault, StakeAddress, StakeNft};

verus! {

/// Whether one of `stakes` is kept at `address`.
spec fn holds(stakes: Seq<StakeNft>, address: StakeAddress) -> bool {
    exists|i: int| 0 <= i < stakes.len() && #[trigger] stakes[i].address() == address
}

/// The place in `stakes` of the record kept at `address`.
spec fn position(stakes: Seq<StakeNft>, address: StakeAddress) -> int {
    choose|i: int| 0 <= i < stakes.len() && #[trigger] stakes[i].address() == address
}

/// Whether no two of `stakes` are kept at one address.
spec fn distinct(stakes: Seq<StakeNft>) -> bool {
    forall|i: int, j: int|
        0 <= i < j < stakes.len() ==> #[trigger] stakes[i].address()
            != #[trigger] stakes[j].address()
}

/// `stakes`, each at its address.
spec fn by_address(stakes: Seq<StakeNft>) -> Map<StakeAddress, StakeNft> {
    Map::new(|a: StakeAddress| holds(stakes, a), |a: StakeAddress| stakes[position(stakes, a)])
}

/// Where no two records share an address, the record found at an address is
/// the one that was put there.
proof fn lemma_lookup(stakes: Seq<StakeNft>, i: int)
    requires
        distinct(stakes),
        0 <= i < stakes.len(),
    ensures
        holds(stakes, stakes[i].address()),
        position(stakes, stakes[i].address()) == i,
        by_address(stakes)[stakes[i].address()] == stakes[i],
{
}

proof fn lemma_finite(stakes: Seq<StakeNft>)
    ensures
        by_address(stakes).dom().finite(),
        stakes.len() == 0 ==> by_address(stakes).dom().is_empty(),
    decreases stakes.len(),
{
    if stakes.len() == 0 {
        assert(by_address(stakes).dom() =~= Set::empty());
    } else {
        let front = stakes.drop_last();
        let last = stakes.last();
        lemma_finite(front);
        assert forall|a: StakeAddress| holds(stakes, a) implies holds(front, a) || a
            == last.address() by {
            let i = position(stakes, a);
            if i < front.len() {
                assert(front[i].address() == a);
            }
        }
        assert(by_address(stakes).dom() =~= by_address(front).dom().insert(last.address()));
    }
}

proof fn lemma_push(stakes: Seq<StakeNft>, record: StakeNft)
    requires
        distinct(stakes),
        !holds(stakes, record.address()),
    ensures
        distinct(stakes.push(record)),
        by_address(stakes.push(record)) == by_address(stakes).insert(record.address(), record),
{
    let more = stakes.push(record);
    assert(distinct(more));
    assert forall|a: StakeAddress|
        by_address(more).contains_key(a) <==> by_address(stakes).contains_key(a) || a
            == record.address() by {
        if holds(stakes, a) {
            assert(more[position(stakes, a)].address() == a);
        }
        if a == record.address() {
            assert(more[more.len() - 1].address() == a);
        }
    }
    assert forall|a: StakeAddress| by_address(more).contains_key(a) implies by_address(more)[a]
        == by_address(stakes).insert(record.address(), record)[a] by {
        let i = position(more, a);
        lemma_lookup(more, i);
        if i < stakes.len() {
            lemma_lookup(stakes, i);
        }
    }
}

proof fn lemma_remove(stakes: Seq<StakeNft>, at: int)
    requires
        distinct(stakes),
        0 <= at < stakes.len(),
    ensures
        distinct(stakes.remove(at)),
        by_address(stakes.remove(at)) == by_address(stakes).remove(stakes[at].address()),
{
    let fewer = stakes.remove(at);
    let gone = stakes[at].address();
    assert forall|i: int| 0 <= i < fewer.len() implies #[trigger] fewer[i] == stakes[if i < at {
        i
    } else {
        i + 1
    }] by {}
    assert(distinct(fewer));
    assert forall|a: StakeAddress|
        by_address(fewer).contains_key(a) <==> by_address(stakes).contains_key(a) && a
            != gone by {
        if holds(stakes, a) && a != gone {
            let i = position(stakes, a);
            assert(fewer[if i < at { i } else { i - 1 }].address() == a);
        }
    }
    assert forall|a: StakeAddress| by_address(fewer).contains_key(a) implies by_address(fewer)[a]
        == by_address(stakes).remove(gone)[a] by {
        let i = position(fewer, a);
        lemma_lookup(fewer, i);
        lemma_lookup(stakes, if i < at { i } else { i + 1 });
    }
}

proof fn lemma_wf(vault: Option<NftVault>, stakes: Seq<StakeNft>)
    requires
        vault is None ==> stakes.len() == 0,
    ensures
        (DeploymentView { vault, stakes: by_address(stakes) }).wf(),
{
    lemma_finite(stakes);
}

/// The records of one vault.
#[derive(Debug)]
pub struct Deployment {
    vault: Option<NftVault>,
    stakes: Vec<StakeNft>,
}

impl View for Deployment {
    type V = DeploymentView;

    closed spec fn view(&self) -> DeploymentView {
        DeploymentView { vault: self.vault, stakes: by_address(self.stakes@) }
    }
}

impl Clone for Deployment {
    /// A copy with the same records, to go back to when an instruction has to
    /// be undone.
    fn clone(&self) -> (copy: Deployment)
        ensures
            copy@ == self@,
    {
        proof {
            use_type_invariant(self);
        }
        let mut stakes: Vec<StakeNft> = Vec::new();
        let mut i: usize = 0;
        while i < self.stakes.len()
            invariant
                i <= self.stakes@.len(),
                stakes@ == self.stakes@.subrange(0, i as int),
            decreases self.stakes@.len() - i,
        {
            stakes.push(self.stakes[i]);
            i += 1;
        }
        assert(stakes@ =~= self.stakes@);
        Deployment { vault: self.vault, stakes }
    }
}

impl Deployment {
    #[verifier::type_invariant]
    spec fn inv(self) -> bool {
        &&& distinct(self.stakes@)
        &&& self.vault is None ==> self.stakes@.len() == 0
    }

    /// A deployment in which nothing has happened yet.
    pub fn new() -> (deployment: Deployment)
        ensures
            deployment@ == DeploymentView::empty(),
            deployment@.wf(),
    {
        let deployment = Deployment { vault: None, stakes: Vec::new() };
        proof {
            assert(by_address(deployment.stakes@) =~= Map::empty());
            lemma_wf(deployment.vault, deployment.stakes@);
        }
        deployment
    }

    /// Where in `stakes` the record at `address` is, if there is one.
    fn find(&self, address: &StakeAddress) -> (found: Option<usize>)
        ensures
            match found {
                Some(i) => i < self.stakes@.len() && self.stakes@[i as int].address() == *address,
                None => !holds(self.stakes@, *address),
            },
    {
        let mut i: usize = 0;
        while i < self.stakes.len()
            invariant
                i <= self.stakes@.len(),
                forall|j: int| 0 <= j < i ==> #[trigger] self.stakes@[j].address() != *address,
            decreases self.stakes@.len() - i,
        {
            if self.stakes[i].mint == address.mint && self.stakes[i].staker == address.staker {
                return Some(i);
            }
            i += 1;
        }
        None
    }

    /// Adds a record at an address that has none.
    fn open_record(&mut self, record: StakeNft)
        requires
            old(self).vault is Some,
            !holds(old(self).stakes@, record.address()),
        ensures
            final(self).vault == old(self).vault,
            final(self).stakes@ == old(self).stakes@.push(record),
    {
        proof {
            use_type_invariant(&*self);
            lemma_push(self.stakes@, record);
        }
        let mut stakes: Vec<StakeNft> = Vec::new();
        std::mem::swap(&mut self.stakes, &mut stakes);
        stakes.push(record);
        std::mem::swap(&mut self.stakes, &mut stakes);
    }

    /// Removes the record at place `at`.
    fn close_record(&mut self, at: usize)
        requires
            at < old(self).stakes@.len(),
        ensures
            final(self).vault == old(self).vault,
            final(self).stakes@ == old(self).stakes@.remove(at as int),
    {
        proof {
            use_type_invariant(&*self);
            lemma_remove(self.stakes@, at as int);
        }
        let mut stakes: Vec<StakeNft> = Vec::new();
        std::mem::swap(&mut self.stakes, &mut stakes);
        stakes.remove(at);
        std::mem::swap(&mut self.stakes, &mut stakes);
    }

    /// The vault record, once the vault is set up.
    pub fn vault(&self) -> (record: Option<NftVault>)
        ensures
            record == self@.vault,
            self@.wf(),
    {
        proof {
            use_type_invariant(self);
            lemma_wf(self.vault, self.stakes@);
        }
        self.vault
    }

    /// The stake record at `address`, if an asset is under custody there.
    pub fn stake_record(&self, address: &StakeAddress) -> (record: Option<StakeNft>)
        ensures
            record == if self@.stakes.contains_key(*address) {
                Some(self@.stakes[*address])
            } else {
                None
            },
            self@.wf(),
    {
        proof {
            use_type_invariant(self);
            lemma_wf(self.vault, self.stakes@);
        }
        match self.find(address) {
            Some(i) => {
                proof {
                    lemma_lookup(self.stakes@, i as int);
                }
                Some(self.stakes[i])
            },
            None => None,
        }
    }

    /// Sets the vault up: `authority` becomes its authority, and `bump` is
    /// kept. Fails with `AccountInUse`, changing nothing, if the vault is set
    /// up already.
    pub fn initialize(&mut self, authority: Pubkey, bump: u8) -> (res: Result<(), Failure>)
        ensures
            (final(self)@, res) == old(self)@.initialize(authority, bump),
            final(self)@.wf(),
    {
        proof {
            use_type_invariant(&*self);
            lemma_wf(self.vault, self.stakes@);
        }
        if self.vault.is_some() {
            return Err(Failure::AccountInUse);
        }
        let blank = NftVault { authority: Pubkey::default(), bump: 0, total_nft_stakes: 0 };
        let mut ctx = Initialize { authority, nft_vault: blank, bump };
        match initialize(&mut ctx) {
            Ok(_) => {
                self.vault = Some(ctx.nft_vault);
                proof {
                    lemma_wf(self.vault, self.stakes@);
                }
                Ok(())
            },
            Err(e) => Err(Failure::Program(e)),
        }
    }

    /// Puts one unit of `token_mint` of `staker` under custody: creates the
    /// record of the pair and returns the transfer into the vault. Fails,
    /// changing nothing, with `AccountInUse` if the pair has a record already,
    /// else with `AccountNotInitialized` if the vault is not set up.
    pub fn stake(&mut self, staker: Pubkey, token_mint: Pubkey, bump: u8) -> (res: Result<
        Transfer,
        Failure,
    >)
        ensures
            (final(self)@, res) == old(self)@.stake(staker, token_mint, bump),
            final(self)@.wf(),
    {
        proof {
            use_type_invariant(&*self);
            lemma_wf(self.vault, self.stakes@);
        }
        let address = StakeAddress { mint: token_mint, staker };
        if self.find(&address).is_some() {
            return Err(Failure::AccountInUse);
        }
        let vault = match self.vault {
            Some(vault) => vault,
            None => {
                return Err(Failure::AccountNotInitialized);
            },
        };
        let blank = StakeNft { bump: 0, staker: Pubkey::default(), mint: Pubkey::default() };
        let mut ctx = Stake { staker, stake_nft: blank, nft_vault: vault, token_mint, bump };
        match stake(&mut ctx) {
            Ok(order) => {
                proof {
                    lemma_push(self.stakes@, ctx.stake_nft);
                }
                self.open_record(ctx.stake_nft);
                proof {
                    lemma_wf(self.vault, self.stakes@);
                }
                Ok(order)
            },
            Err(e) => Err(Failure::Program(e)),
        }
    }

    /// Lets `staker`, the caller, reclaim the asset of the record at
    /// `stake_nft`: removes the record and returns the transfer out of the
    /// vault. Fails, changing nothing, with `AccountNotInitialized` if the
    /// vault or the record does not exist, else with `MintMismatch` if
    /// `token_mint` is not the record's asset, else with `KeyMismatch` if the
    /// caller is not the record's staker.
    pub fn unstake(&mut self, staker: Pubkey, stake_nft: StakeAddress, token_mint: Pubkey) -> (res:
        Result<Transfer, Failure>)
        ensures
            (final(self)@, res) == old(self)@.unstake(staker, stake_nft, token_mint),
            final(self)@.wf(),
    {
        proof {
            use_type_invariant(&*self);
            lemma_wf(self.vault, self.stakes@);
        }
        let vault = match self.vault {
            Some(vault) => vault,
            None => {
                return Err(Failure::AccountNotInitialized);
            },
        };
        let at = match self.find(&stake_nft) {
            Some(at) => at,
            None => {
                return Err(Failure::AccountNotInitialized);
            },
        };
        proof {
            lemma_lookup(self.stakes@, at as int);
        }
        let ctx = Unstake { staker, stake_nft: self.stakes[at], nft_vault: vault, token_mint };
        match unstake(&ctx) {
            Ok(order) => {
                proof {
                    lemma_remove(self.stakes@, at as int);
                }
                self.close_record(at);
                proof {
                    lemma_wf(self.vault, self.stakes@);
                }
                Ok(order)
            },
            Err(e) => Err(Failure::Program(e)),
        }
    }

    /// Lets `authority`, the caller, hand the asset of the record at
    /// `stake_nft` back to `staker`: removes the record and returns the
    /// transfer out of the vault. Fails, changing nothing, with
    /// `AccountNotInitialized` if the vault or the record does not exist, else
    /// with `Unauthorized` if the caller is not the vault's authority, else
    /// with `MintMismatch` if `token_mint` is not the record's asset, else with
    /// `KeyMismatch` if `staker` is not the record's staker.
    pub fn release(
        &mut self,
        authority: Pubkey,
        staker: Pubkey,
        stake_nft: StakeAddress,
        token_mint: Pubkey,
    ) -> (res: Result<Transfer, Failure>)
        ensures
            (final(self)@, res) == old(self)@.release(authority, staker, stake_nft, token_mint),
            final(self)@.wf(),
    {
        proof {
            use_type_invariant(&*self);
            lemma_wf(self.vault, self.stakes@);
        }
        let vault = match self.vault {
            Some(vault) => vault,
            None => {
                return Err(Failure::AccountNotInitialized);
            },
        };
        let at = match self.find(&stake_nft) {
            Some(at) => at,
            None => {
                return Err(Failure::AccountNotInitialized);
            },
        };
        proof {
            lemma_lookup(self.stakes@, at as int);
        }
        let ctx = Release {
            authority,
            nft_vault: vault,
            stake_nft: self.stakes[at],
            staker,
            token_mint,
        };
        match release(&ctx) {
            Ok(order) => {
                proof {
                    lemma_remove(self.stakes@, at as int);
                }
                self.close_record(at);
                proof {
                    lemma_wf(self.vault, self.stakes@);
                }
                Ok(order)
            },
            Err(e) => Err(Failure::Program(e)),
        }
    }

    /// Carries out one instruction, whichever it is, and returns the transfer
    /// to settle if it orders one.
    pub fn process(&mut self, instruction: &Instruction) -> (res: Result<Option<Transfer>, Failure>)
        ensures
            (final(self)@, res) == old(self)@.process(*instruction),
            final(self)@.wf(),
    {
        match *instruction {
            Instruction::Initialize { authority, bump } => {
                match self.initialize(authority, bump) {
                    Ok(_) => Ok(None),
                    Err(e) => Err(e),
                }
            },
            Instruction::Stake { staker, token_mint, bump } => {
                match self.stake(staker, token_mint, bump) {
                    Ok(order) => Ok(Some(order)),
                    Err(e) => Err(e),
                }
            },
            Instruction::Unstake { staker, stake_nft, token_mint } => {
                match self.unstake(staker, stake_nft, token_mint) {
                    Ok(order) => Ok(Some(order)),
                    Err(e) => Err(e),
                }
            },
            Instruction::Release { authority, staker, stake_nft, token_mint } => {
                match self.release(authority, staker, stake_nft, token_mint) {
                    Ok(order) => Ok(Some(order)),
                    Err(e) => Err(e),
                }
            },
        }
    }
}

} // verus!
