//! The records that the controller keeps.

use vstd::prelude::*;
use crate::pubkey::Pubkey;

verus! {

/// First seed of a stake record's address: the text `user-stake`.
pub const STAKE_SEED: [u8; 10] = [117, 115, 101, 114, 45, 115, 116, 97, 107, 101];

/// The vault record: one per deployment, written once by `initialize`.
#[derive(Clone, Copy, Debug, PartialEq, Eq, Hash)]
pub struct NftVault {
    /// The identity that may release staked assets without the staker.
    pub authority: Pubkey,
    /// The bump with which the vault's own address is derived.
    pub bump: u8,
    /// A counter of stakes that no operation changes.
    pub total_nft_stakes: u64,
}

impl NftVault {
    /// Bytes that the record's fields take in storage, after the 8-byte
    /// discriminator: the authority, the bump, and 16 bytes set aside for the
    /// counter, of which it fills 8.
    pub const LEN: usize = 1 + 32 + 16;
}

/// A stake record: one for each asset that a staker has in the vault.
#[derive(Clone, Copy, Debug, PartialEq, Eq, Hash)]
pub struct StakeNft {
    /// The bump with which the record's address is derived from the asset and
    /// the staker.
    pub bump: u8,
    /// The identity that deposited the asset and may reclaim it.
    pub staker: Pubkey,
    /// The asset under custody.
    pub mint: Pubkey,
}

impl StakeNft {
    /// Bytes that the record's fields take in storage, after the 8-byte
    /// discriminator: the bump, the staker and the asset.
    pub const LEN: usize = 1 + 32 + 32;

    /// Where the record is kept.
    pub open spec fn address(self) -> StakeAddress {
        StakeAddress { mint: self.mint, staker: self.staker }
    }
}

/// Where a stake record is kept: the place that belongs to one asset and one
/// staker. There is one such place for each pair, so no pair can have two
/// records at a time.
#[derive(Clone, Copy, Debug, PartialEq, Eq, Hash)]
pub struct StakeAddress {
    pub mint: Pubkey,
    pub staker: Pubkey,
}

impl StakeAddress {
    /// The seeds from which the host derives the place: `STAKE_SEED`, then the
    /// asset, then the staker.
    pub open spec fn seeds(self) -> Seq<Seq<u8>> {
        seq![STAKE_SEED@, self.mint.bytes@, self.staker.bytes@]
    }

    /// Builds the seeds of the place.
    pub fn to_seeds(&self) -> (seeds: Vec<Vec<u8>>)
        ensures
            seeds.deep_view() == self.seeds(),
    {
        let mut tag: Vec<u8> = Vec::new();
        let mut i: usize = 0;
        while i < 10
            invariant
                i <= 10,
                tag@ == STAKE_SEED@.subrange(0, i as int),
            decreases 10 - i,
        {
            tag.push(STAKE_SEED[i]);
            i += 1;
        }
        let mint = bytes_of(&self.mint);
        let staker = bytes_of(&self.staker);
        assert(tag@ =~= STAKE_SEED@);
        let mut seeds: Vec<Vec<u8>> = Vec::new();
        seeds.push(tag);
        seeds.push(mint);
        seeds.push(staker);
        assert(seeds@[0].deep_view() =~= STAKE_SEED@);
        assert(seeds@[1].deep_view() =~= self.mint.bytes@);
        assert(seeds@[2].deep_view() =~= self.staker.bytes@);
        assert(seeds.deep_view() =~= self.seeds());
        seeds
    }

    /// Two places with the same seeds are one place.
    pub proof fn seeds_tell_places_apart(self, other: StakeAddress)
        requires
            self.seeds() == other.seeds(),
        ensures
            self == other,
    {
        assert(self.seeds()[1] == other.seeds()[1]);
        assert(self.seeds()[2] == other.seeds()[2]);
        assert(self.mint.bytes =~= other.mint.bytes);
        assert(self.staker.bytes =~= other.staker.bytes);
    }
}

/// The bytes of `key` in a vector.
fn bytes_of(key: &Pubkey) -> (bytes: Vec<u8>)
    ensures
        bytes@ == key.bytes@,
{
    let mut bytes: Vec<u8> = Vec::new();
    let mut i: usize = 0;
    while i < 32
        invariant
            i <= 32,
            bytes@ == key.bytes@.subrange(0, i as int),
        decreases 32 - i,
    {
        bytes.push(key.bytes[i]);
        i += 1;
    }
    assert(bytes@ =~= key.bytes@);
    bytes
}

} // verus!
