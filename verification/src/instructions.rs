//! The four operations of the custody controller.
//!
//! Each one checks the request against the records it was handed and decides
//! what is to happen. None of them moves an asset: `stake`, `unstake` and
//! `release` return the transfer that the ledger is to settle, and the host
//! lets the operation take effect only if the ledger settles it.

use vstd::prelude::*;
use crate::accounts::{Initialize, Release, Stake, Unstake};
use crate::error::NftError;
use crate::ledger::{Authorization, CustodyAccount, Owner, Transfer};
use crate::state::{NftVault, StakeNft};

verus! {

/// Writes the vault record: the caller becomes the authority, and the bump of
/// the record's address is kept. The counter is left as it was found.
pub fn initialize(ctx: &mut Initialize) -> (res: Result<(), NftError>)
    ensures
        res is Ok,
        *final(ctx) == (Initialize {
            nft_vault: NftVault {
                authority: old(ctx).authority,
                bump: old(ctx).bump,
                total_nft_stakes: old(ctx).nft_vault.total_nft_stakes,
            },
            ..*old(ctx)
        }),
{
    ctx.nft_vault.authority = ctx.authority;
    ctx.nft_vault.bump = ctx.bump;
    Ok(())
}

/// Writes the stake record for the caller and the asset, and orders one unit
/// of the asset from the caller's account into the vault's.
pub fn stake(ctx: &mut Stake) -> (res: Result<Transfer, NftError>)
    ensures
        res == Ok::<Transfer, NftError>(Transfer::deposit(old(ctx).token_mint, old(ctx).staker)),
        *final(ctx) == (Stake {
            stake_nft: StakeNft {
                bump: old(ctx).bump,
                staker: old(ctx).staker,
                mint: old(ctx).token_mint,
            },
            ..*old(ctx)
        }),
{
    ctx.stake_nft.bump = ctx.bump;
    ctx.stake_nft.staker = ctx.staker;
    ctx.stake_nft.mint = ctx.token_mint;
    Ok(
        Transfer {
            from: CustodyAccount { mint: ctx.token_mint, owner: Owner::Wallet(ctx.staker) },
            to: CustodyAccount { mint: ctx.token_mint, owner: Owner::Vault },
            authority: Authorization::Signer(ctx.staker),
            amount: 1,
        },
    )
}

/// Lets the staker take the asset back.
///
/// The asset named must be the record's, else `MintMismatch`; then the caller
/// must be the record's staker, else `KeyMismatch`. If both hold, one unit of
/// the asset is ordered from the vault's account into the caller's, on the
/// vault's own authority.
pub fn unstake(ctx: &Unstake) -> (res: Result<Transfer, NftError>)
    ensures
        res == Err::<Transfer, NftError>(NftError::MintMismatch) <==> ctx.token_mint
            != ctx.stake_nft.mint,
        res == Err::<Transfer, NftError>(NftError::KeyMismatch) <==> ctx.token_mint
            == ctx.stake_nft.mint && ctx.stake_nft.staker != ctx.staker,
        res is Ok <==> ctx.token_mint == ctx.stake_nft.mint && ctx.stake_nft.staker == ctx.staker,
        res is Ok ==> res->Ok_0 == Transfer::withdrawal(
            ctx.token_mint,
            ctx.staker,
            ctx.nft_vault.bump,
        ),
{
    if ctx.token_mint != ctx.stake_nft.mint {
        return Err(NftError::MintMismatch);
    }
    if ctx.stake_nft.staker != ctx.staker {
        return Err(NftError::KeyMismatch);
    }
    Ok(
        Transfer {
            from: CustodyAccount { mint: ctx.token_mint, owner: Owner::Vault },
            to: CustodyAccount { mint: ctx.token_mint, owner: Owner::Wallet(ctx.staker) },
            authority: Authorization::VaultSeeds { bump: ctx.nft_vault.bump },
            amount: 1,
        },
    )
}

/// Lets the vault's authority hand the asset back to the staker.
///
/// The caller must be the vault's authority, else `Unauthorized`; then the
/// asset named must be the record's, else `MintMismatch`; then the staker named
/// must be the record's, else `KeyMismatch`. If all hold, one unit of the asset
/// is ordered from the vault's account into the staker's, on the vault's own
/// authority.
pub fn release(ctx: &Release) -> (res: Result<Transfer, NftError>)
    ensures
        res == Err::<Transfer, NftError>(NftError::Unauthorized) <==> ctx.nft_vault.authority
            != ctx.authority,
        res == Err::<Transfer, NftError>(NftError::MintMismatch) <==> ctx.nft_vault.authority
            == ctx.authority && ctx.token_mint != ctx.stake_nft.mint,
        res == Err::<Transfer, NftError>(NftError::KeyMismatch) <==> ctx.nft_vault.authority
            == ctx.authority && ctx.token_mint == ctx.stake_nft.mint && ctx.stake_nft.staker
            != ctx.staker,
        res is Ok <==> ctx.nft_vault.authority == ctx.authority && ctx.token_mint
            == ctx.stake_nft.mint && ctx.stake_nft.staker == ctx.staker,
        res is Ok ==> res->Ok_0 == Transfer::withdrawal(
            ctx.token_mint,
            ctx.staker,
            ctx.nft_vault.bump,
        ),
{
    if ctx.nft_vault.authority != ctx.authority {
        return Err(NftError::Unauthorized);
    }
    if ctx.token_mint != ctx.stake_nft.mint {
        return Err(NftError::MintMismatch);
    }
    if ctx.stake_nft.staker != ctx.staker {
        return Err(NftError::KeyMismatch);
    }
    Ok(
        Transfer {
            from: CustodyAccount { mint: ctx.token_mint, owner: Owner::Vault },
            to: CustodyAccount { mint: ctx.token_mint, owner: Owner::Wallet(ctx.staker) },
            authority: Authorization::VaultSeeds { bump: ctx.nft_vault.bump },
            amount: 1,
        },
    )
}

} // verus!
