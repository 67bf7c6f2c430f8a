//! What holds of every deployment, proved from the model.

use vstd::prelude::*;
use crate::error::{Failure, NftError};
use crate::ledger::{authorizes, balance, CustodyAccount, Transfer};
use crate::model::{is_of, DeploymentView, Instruction};
use crate::pubkey::Pubkey;
use crate::state::StakeAddress;
use crate::world::{reclaims, World};

verus! {

/// A deployment in which nothing has happened yet is well formed.
pub proof fn empty_is_wf()
    ensures
        DeploymentView::empty().wf(),
{
}

/// No instruction breaks the well-formedness of the records.
pub proof fn process_keeps_wf(d: DeploymentView, instruction: Instruction)
    requires
        d.wf(),
    ensures
        d.process(instruction).0.wf(),
{
}

/// Whatever the instructions and whatever the ledger makes of their orders,
/// the records stay well formed.
pub proof fn run_keeps_wf(w: World, trace: Seq<Instruction>)
    requires
        w.deployment.wf(),
    ensures
        w.run(trace).deployment.wf(),
    decreases trace.len(),
{
    if trace.len() > 0 {
        run_keeps_wf(w, trace.drop_last());
        process_keeps_wf(w.run(trace.drop_last()).deployment, trace.last());
    }
}

/// A pair of asset and staker has at most one stake record at a time: two
/// records of one asset and one staker are one record.
pub proof fn one_record_per_pair(d: DeploymentView, a: StakeAddress, b: StakeAddress)
    requires
        d.wf(),
        d.stakes.contains_key(a),
        d.stakes.contains_key(b),
        d.stakes[a].mint == d.stakes[b].mint,
        d.stakes[a].staker == d.stakes[b].staker,
    ensures
        a == b,
{
}

/// A stake that succeeds leaves the pair with a record, which holds the staker,
/// the asset and the bump.
pub proof fn stake_creates_the_record(d: DeploymentView, staker: Pubkey, mint: Pubkey, bump: u8)
    requires
        d.stake(staker, mint, bump).1 is Ok,
    ensures
        !d.staked(mint, staker),
        d.stake(staker, mint, bump).0.staked(mint, staker),
        d.stake(staker, mint, bump).0.stakes[StakeAddress { mint, staker }].staker == staker,
        d.stake(staker, mint, bump).0.stakes[StakeAddress { mint, staker }].mint == mint,
        d.stake(staker, mint, bump).0.stakes[StakeAddress { mint, staker }].bump == bump,
{
}

/// While a pair has a stake record, a further stake of the pair fails and
/// changes nothing.
pub proof fn staked_pair_cannot_stake_again(
    d: DeploymentView,
    staker: Pubkey,
    mint: Pubkey,
    bump: u8,
)
    requires
        d.staked(mint, staker),
    ensures
        d.stake(staker, mint, bump) == (d, Err::<Transfer, Failure>(Failure::AccountInUse)),
{
}

/// The record of a pair stays until a reclaim of that very record takes
/// effect: an instruction after which the record is gone is an `unstake` or a
/// `release` that names the record's address and commits.
pub proof fn record_stays_until_reclaimed(
    w: World,
    instruction: Instruction,
    mint: Pubkey,
    staker: Pubkey,
)
    requires
        w.deployment.staked(mint, staker),
        !w.execute(instruction).deployment.staked(mint, staker),
    ensures
        w.commits(instruction),
        reclaims(instruction, StakeAddress { mint, staker }),
{
}

/// The record of a pair is there after any instructions among which no
/// reclaim of that record took effect.
pub proof fn record_stays_while_not_reclaimed(
    w: World,
    trace: Seq<Instruction>,
    mint: Pubkey,
    staker: Pubkey,
)
    requires
        w.deployment.staked(mint, staker),
        forall|i: int|
            0 <= i < trace.len() ==> !(reclaims(#[trigger] trace[i], StakeAddress { mint, staker })
                && w.run(trace.subrange(0, i)).commits(trace[i])),
    ensures
        w.run(trace).deployment.staked(mint, staker),
    decreases trace.len(),
{
    if trace.len() > 0 {
        let front = trace.drop_last();
        assert forall|i: int| 0 <= i < front.len() implies !(reclaims(
            #[trigger] front[i],
            StakeAddress { mint, staker },
        ) && w.run(front.subrange(0, i)).commits(front[i])) by {
            assert(front[i] == trace[i]);
            assert(front.subrange(0, i) =~= trace.subrange(0, i));
        }
        record_stays_while_not_reclaimed(w, front, mint, staker);
        assert(trace.subrange(0, trace.len() - 1) =~= front);
        if !w.run(trace).deployment.staked(mint, staker) {
            record_stays_until_reclaimed(w.run(front), trace.last(), mint, staker);
        }
    }
}

/// A second stake of a pair fails before the first is reclaimed: after any
/// instructions among which no reclaim of the pair's record took effect, a
/// stake of the pair fails with `AccountInUse` and changes nothing.
pub proof fn second_stake_fails_before_reclaim(
    w: World,
    trace: Seq<Instruction>,
    mint: Pubkey,
    staker: Pubkey,
    bump: u8,
)
    requires
        w.deployment.staked(mint, staker),
        forall|i: int|
            0 <= i < trace.len() ==> !(reclaims(#[trigger] trace[i], StakeAddress { mint, staker })
                && w.run(trace.subrange(0, i)).commits(trace[i])),
    ensures
        w.run(trace).deployment.stake(staker, mint, bump) == (
            w.run(trace).deployment,
            Err::<Transfer, Failure>(Failure::AccountInUse),
        ),
        !w.run(trace).commits(Instruction::Stake { staker, token_mint: mint, bump }),
{
    record_stays_while_not_reclaimed(w, trace, mint, staker);
}

/// The vault is set up once: `initialize` on a vault that is set up fails and
/// changes nothing.
pub proof fn initialize_happens_once(d: DeploymentView, authority: Pubkey, bump: u8)
    requires
        d.vault is Some,
    ensures
        d.initialize(authority, bump) == (d, Err::<(), Failure>(Failure::AccountInUse)),
{
}

/// An `initialize` that succeeds sets the vault up with the caller as its
/// authority, so that a second one fails, whoever calls it.
pub proof fn second_initialize_fails(
    d: DeploymentView,
    authority: Pubkey,
    bump: u8,
    other_authority: Pubkey,
    other_bump: u8,
)
    requires
        d.initialize(authority, bump).1 is Ok,
    ensures
        d.initialize(authority, bump).0.vault is Some,
        d.initialize(authority, bump).0.vault->Some_0.authority == authority,
        d.initialize(authority, bump).0.vault->Some_0.bump == bump,
        d.initialize(authority, bump).0.initialize(other_authority, other_bump).1 == Err::<
            (),
            Failure,
        >(Failure::AccountInUse),
{
}

/// Once the vault is set up, no instruction changes its record.
pub proof fn vault_record_never_changes(d: DeploymentView, instruction: Instruction)
    requires
        d.vault is Some,
    ensures
        d.process(instruction).0.vault == d.vault,
{
}

/// Once the vault is set up, its record is the same after any instructions,
/// whatever the ledger makes of their orders.
pub proof fn vault_record_never_changes_over_run(w: World, trace: Seq<Instruction>)
    requires
        w.deployment.vault is Some,
    ensures
        w.run(trace).deployment.vault == w.deployment.vault,
    decreases trace.len(),
{
    if trace.len() > 0 {
        vault_record_never_changes_over_run(w, trace.drop_last());
        vault_record_never_changes(w.run(trace.drop_last()).deployment, trace.last());
    }
}

/// Once the vault is set up, `initialize` fails ever after, whoever calls it
/// and whatever happened in between.
pub proof fn initialize_fails_ever_after(
    w: World,
    trace: Seq<Instruction>,
    authority: Pubkey,
    bump: u8,
)
    requires
        w.deployment.vault is Some,
    ensures
        w.run(trace).deployment.initialize(authority, bump) == (
            w.run(trace).deployment,
            Err::<(), Failure>(Failure::AccountInUse),
        ),
        !w.run(trace).commits(Instruction::Initialize { authority, bump }),
{
    vault_record_never_changes_over_run(w, trace);
}

/// Only the vault's authority releases: where the vault and the record exist
/// and the caller is anyone else, `release` fails with `Unauthorized` and
/// changes nothing.
pub proof fn only_the_authority_releases(
    d: DeploymentView,
    caller: Pubkey,
    staker: Pubkey,
    stake_nft: StakeAddress,
    mint: Pubkey,
)
    requires
        d.vault is Some,
        d.stakes.contains_key(stake_nft),
        caller != d.vault->Some_0.authority,
    ensures
        d.release(caller, staker, stake_nft, mint) == (
            d,
            Err::<Transfer, Failure>(Failure::Program(NftError::Unauthorized)),
        ),
{
}

/// Only the staker unstakes: where the vault and the record exist and the
/// asset named is the record's, `unstake` by anyone but the record's staker
/// fails with `KeyMismatch` and changes nothing.
pub proof fn only_the_staker_unstakes(
    d: DeploymentView,
    caller: Pubkey,
    stake_nft: StakeAddress,
    mint: Pubkey,
)
    requires
        d.vault is Some,
        d.stakes.contains_key(stake_nft),
        mint == d.stakes[stake_nft].mint,
        caller != d.stakes[stake_nft].staker,
    ensures
        d.unstake(caller, stake_nft, mint) == (
            d,
            Err::<Transfer, Failure>(Failure::Program(NftError::KeyMismatch)),
        ),
{
}

/// A record is bound to its asset: where the vault and the record exist,
/// `unstake` that names another asset fails with `MintMismatch` and changes
/// nothing, whoever calls it.
pub proof fn unstake_is_bound_to_the_asset(
    d: DeploymentView,
    caller: Pubkey,
    stake_nft: StakeAddress,
    mint: Pubkey,
)
    requires
        d.vault is Some,
        d.stakes.contains_key(stake_nft),
        mint != d.stakes[stake_nft].mint,
    ensures
        d.unstake(caller, stake_nft, mint) == (
            d,
            Err::<Transfer, Failure>(Failure::Program(NftError::MintMismatch)),
        ),
{
}

/// A record is bound to its asset: where the vault and the record exist,
/// `release` by the authority that names another asset fails with
/// `MintMismatch` and changes nothing, whichever staker it names.
pub proof fn release_is_bound_to_the_asset(
    d: DeploymentView,
    staker: Pubkey,
    stake_nft: StakeAddress,
    mint: Pubkey,
)
    requires
        d.vault is Some,
        d.stakes.contains_key(stake_nft),
        mint != d.stakes[stake_nft].mint,
    ensures
        d.release(d.vault->Some_0.authority, staker, stake_nft, mint) == (
            d,
            Err::<Transfer, Failure>(Failure::Program(NftError::MintMismatch)),
        ),
{
}

/// The controller refuses with three of its four errors only: no instruction
/// fails with `AccountMismatch`, and none but `release` with `Unauthorized`.
pub proof fn errors_that_instructions_raise(d: DeploymentView, instruction: Instruction)
    ensures
        d.process(instruction).1 != Err::<Option<Transfer>, Failure>(
            Failure::Program(NftError::AccountMismatch),
        ),
        d.process(instruction).1 == Err::<Option<Transfer>, Failure>(
            Failure::Program(NftError::Unauthorized),
        ) ==> instruction is Release,
        instruction is Initialize || instruction is Stake ==> !(d.process(instruction).1 matches Err(
            Failure::Program(_),
        )),
{
}

/// An instruction that fails changes no record.
pub proof fn failed_instruction_changes_no_record(d: DeploymentView, instruction: Instruction)
    requires
        d.process(instruction).1 is Err,
    ensures
        d.process(instruction).0 == d,
{
}

/// Every order of the deployment is one that the ledger has no reason to
/// refuse but want of balance: it moves one unit between two accounts of one
/// asset, on an authority that may take from the source.
pub proof fn orders_are_authorized(w: World, instruction: Instruction)
    requires
        w.deployment.process(instruction).1 is Ok,
        w.deployment.process(instruction).1->Ok_0 is Some,
    ensures
        ({
            let order = w.deployment.process(instruction).1->Ok_0->Some_0;
            &&& order.amount == 1
            &&& order.from.mint == order.to.mint
            &&& authorizes(order.authority, order.from.owner, w.vault_bump())
            &&& w.commits(instruction) <==> balance(w.ledger, order.from) >= 1
        }),
{
}

/// An instruction takes effect as a whole or not at all: one that the
/// deployment or the ledger refuses leaves records and balances as they were.
pub proof fn refused_instruction_changes_nothing(w: World, instruction: Instruction)
    requires
        !w.commits(instruction),
    ensures
        w.execute(instruction) == w,
{
}

/// A stake that takes effect creates the record of the pair and moves exactly
/// one unit of the asset from the staker's account into the vault's. No other
/// account changes.
pub proof fn committed_stake_moves_one_unit(w: World, staker: Pubkey, mint: Pubkey, bump: u8)
    requires
        w.commits(Instruction::Stake { staker, token_mint: mint, bump }),
    ensures
        ({
            let next = w.execute(Instruction::Stake { staker, token_mint: mint, bump });
            let wallet = CustodyAccount::of_wallet(mint, staker);
            let vault = CustodyAccount::of_vault(mint);
            &&& !w.deployment.staked(mint, staker)
            &&& next.deployment.staked(mint, staker)
            &&& balance(w.ledger, wallet) >= 1
            &&& balance(next.ledger, wallet) == balance(w.ledger, wallet) - 1
            &&& balance(next.ledger, vault) == balance(w.ledger, vault) + 1
            &&& forall|other: CustodyAccount|
                other != wallet && other != vault ==> balance(next.ledger, other) == balance(
                    w.ledger,
                    other,
                )
        }),
{
}

/// A reclaim that takes effect, by the staker or by the authority, removes
/// the record and moves exactly one unit of the record's asset from the
/// vault's account into the account of the record's staker. No other account
/// changes.
pub proof fn committed_reclaim_moves_one_unit(
    w: World,
    instruction: Instruction,
    stake_nft: StakeAddress,
)
    requires
        w.deployment.wf(),
        reclaims(instruction, stake_nft),
        w.commits(instruction),
    ensures
        ({
            let next = w.execute(instruction);
            let wallet = CustodyAccount::of_wallet(stake_nft.mint, stake_nft.staker);
            let vault = CustodyAccount::of_vault(stake_nft.mint);
            &&& w.deployment.staked(stake_nft.mint, stake_nft.staker)
            &&& !next.deployment.staked(stake_nft.mint, stake_nft.staker)
            &&& balance(w.ledger, vault) >= 1
            &&& balance(next.ledger, vault) == balance(w.ledger, vault) - 1
            &&& balance(next.ledger, wallet) == balance(w.ledger, wallet) + 1
            &&& forall|other: CustodyAccount|
                other != wallet && other != vault ==> balance(next.ledger, other) == balance(
                    w.ledger,
                    other,
                )
        }),
{
}

/// What a staker holds of an asset, in the wallet and in the vault together,
/// is the same before and after any instruction.
pub proof fn wallet_and_custody_are_conserved(
    w: World,
    instruction: Instruction,
    mint: Pubkey,
    staker: Pubkey,
)
    requires
        w.deployment.wf(),
    ensures
        balance(w.execute(instruction).ledger, CustodyAccount::of_wallet(mint, staker))
            + w.execute(instruction).deployment.held_for(mint, staker) == balance(
            w.ledger,
            CustodyAccount::of_wallet(mint, staker),
        ) + w.deployment.held_for(mint, staker),
{
}

/// What a staker holds of an asset, in the wallet and in the vault together,
/// is the same before and after any instructions.
pub proof fn wallet_and_custody_are_conserved_over_run(
    w: World,
    trace: Seq<Instruction>,
    mint: Pubkey,
    staker: Pubkey,
)
    requires
        w.deployment.wf(),
    ensures
        balance(w.run(trace).ledger, CustodyAccount::of_wallet(mint, staker)) + w.run(
            trace,
        ).deployment.held_for(mint, staker) == balance(w.ledger, CustodyAccount::of_wallet(mint, staker))
            + w.deployment.held_for(mint, staker),
    decreases trace.len(),
{
    if trace.len() > 0 {
        wallet_and_custody_are_conserved_over_run(w, trace.drop_last(), mint, staker);
        run_keeps_wf(w, trace.drop_last());
        wallet_and_custody_are_conserved(w.run(trace.drop_last()), trace.last(), mint, staker);
    }
}

/// A stake that is reclaimed gives the staker back what the staker had: if a
/// pair has no record before some instructions and none after them, the
/// staker's account of the asset holds after them what it held before,
/// however often the pair staked and reclaimed in between and whatever else
/// happened.
pub proof fn reclaim_restores_the_wallet(
    w: World,
    trace: Seq<Instruction>,
    mint: Pubkey,
    staker: Pubkey,
)
    requires
        w.deployment.wf(),
        !w.deployment.staked(mint, staker),
        !w.run(trace).deployment.staked(mint, staker),
    ensures
        balance(w.run(trace).ledger, CustodyAccount::of_wallet(mint, staker)) == balance(
            w.ledger,
            CustodyAccount::of_wallet(mint, staker),
        ),
{
    wallet_and_custody_are_conserved_over_run(w, trace, mint, staker);
}

/// The vault holds one unit of an asset for each stake record of that asset:
/// what its account holds beyond the number of those records is the same
/// before and after any instruction.
pub proof fn vault_holds_one_unit_per_record(w: World, instruction: Instruction, mint: Pubkey)
    requires
        w.deployment.wf(),
    ensures
        w.deployment.stakes_of(mint).finite(),
        w.execute(instruction).deployment.stakes_of(mint).finite(),
        balance(w.execute(instruction).ledger, CustodyAccount::of_vault(mint)) - w.execute(
            instruction,
        ).deployment.held(mint) == balance(w.ledger, CustodyAccount::of_vault(mint)) - w.deployment.held(mint),
{
    let next = w.execute(instruction);
    process_keeps_wf(w.deployment, instruction);
    w.deployment.stakes.dom().lemma_len_filter(is_of(mint));
    next.deployment.stakes.dom().lemma_len_filter(is_of(mint));
    if w.commits(instruction) {
        match instruction {
            Instruction::Initialize { .. } => {},
            Instruction::Stake { staker, token_mint, bump } => {
                let address = StakeAddress { mint: token_mint, staker };
                if token_mint == mint {
                    assert(next.deployment.stakes_of(mint) =~= w.deployment.stakes_of(mint).insert(address));
                } else {
                    assert(next.deployment.stakes_of(mint) =~= w.deployment.stakes_of(mint));
                }
            },
            Instruction::Unstake { stake_nft, token_mint, .. } => {
                if token_mint == mint {
                    assert(next.deployment.stakes_of(mint) =~= w.deployment.stakes_of(mint).remove(stake_nft));
                } else {
                    assert(next.deployment.stakes_of(mint) =~= w.deployment.stakes_of(mint));
                }
            },
            Instruction::Release { stake_nft, token_mint, .. } => {
                if token_mint == mint {
                    assert(next.deployment.stakes_of(mint) =~= w.deployment.stakes_of(mint).remove(stake_nft));
                } else {
                    assert(next.deployment.stakes_of(mint) =~= w.deployment.stakes_of(mint));
                }
            },
        }
    }
}

/// The vault holds one unit of an asset for each stake record of that asset:
/// what its account holds beyond the number of those records is the same
/// before and after any instructions.
pub proof fn vault_holds_one_unit_per_record_over_run(
    w: World,
    trace: Seq<Instruction>,
    mint: Pubkey,
)
    requires
        w.deployment.wf(),
    ensures
        balance(w.run(trace).ledger, CustodyAccount::of_vault(mint)) - w.run(trace).deployment.held(mint)
            == balance(w.ledger, CustodyAccount::of_vault(mint)) - w.deployment.held(mint),
    decreases trace.len(),
{
    if trace.len() > 0 {
        vault_holds_one_unit_per_record_over_run(w, trace.drop_last(), mint);
        run_keeps_wf(w, trace.drop_last());
        vault_holds_one_unit_per_record(w.run(trace.drop_last()), trace.last(), mint);
    }
}

/// A stake that is reclaimed leaves the vault with what it had: if as many
/// records of an asset exist after some instructions as before them, the
/// vault's account of the asset holds after them what it held before. Where
/// the vault held nothing of the asset and no record of it existed, the
/// vault's account is back at zero once the asset is reclaimed.
pub proof fn reclaim_restores_the_vault(w: World, trace: Seq<Instruction>, mint: Pubkey)
    requires
        w.deployment.wf(),
        w.run(trace).deployment.held(mint) == w.deployment.held(mint),
    ensures
        balance(w.run(trace).ledger, CustodyAccount::of_vault(mint)) == balance(
            w.ledger,
            CustodyAccount::of_vault(mint),
        ),
{
    vault_holds_one_unit_per_record_over_run(w, trace, mint);
}

} // verus!
