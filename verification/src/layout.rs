//! How the records lie in storage.
//!
//! A record starts with the eight bytes that tell its kind. Its fields follow
//! in the order in which they are declared: an identity as its 32 bytes, a bump
//! as one byte, the counter as eight bytes, lowest first. Storage may be longer
//! than the record; what follows the record is not read.

use vstd::bytes::{
    lemma_auto_spec_u64_to_from_le_bytes, spec_u64_to_le_bytes, u64_from_le_bytes,
    u64_to_le_bytes,
};
use vstd::prelude::*;
use crate::pubkey::Pubkey;
use crate::state::{NftVault, StakeNft};

verus! {

/// The eight bytes at the start of a vault record.
pub const VAULT_DISCRIMINATOR: [u8; 8] = [226, 169, 158, 221, 65, 216, 45, 158];

/// The eight bytes at the start of a stake record.
pub const STAKE_DISCRIMINATOR: [u8; 8] = [50, 255, 165, 22, 79, 214, 73, 67];

/// Bytes that a stored vault record fills.
pub const VAULT_ENCODED_LEN: usize = 49;

/// Bytes that a stored stake record fills.
pub const STAKE_ENCODED_LEN: usize = 73;

impl NftVault {
    /// The record as it lies in storage: the discriminator, the authority,
    /// the bump, the counter.
    pub open spec fn encoding(self) -> Seq<u8> {
        VAULT_DISCRIMINATOR@ + self.authority.bytes@ + seq![self.bump] + spec_u64_to_le_bytes(
            self.total_nft_stakes,
        )
    }

    /// Whether `data` starts with this record.
    pub open spec fn is_stored_in(self, data: Seq<u8>) -> bool {
        data.len() >= VAULT_ENCODED_LEN && data.subrange(0, VAULT_ENCODED_LEN as int)
            == self.encoding()
    }

    /// Writes the record as it lies in storage.
    pub fn pack(&self) -> (data: Vec<u8>)
        ensures
            data@ == self.encoding(),
            data@.len() == VAULT_ENCODED_LEN,
    {
        let mut data: Vec<u8> = Vec::new();
        append(&mut data, &VAULT_DISCRIMINATOR);
        append(&mut data, &self.authority.bytes);
        data.push(self.bump);
        let counter = u64_to_le_bytes(self.total_nft_stakes);
        append(&mut data, counter.as_slice());
        proof {
            lemma_auto_spec_u64_to_from_le_bytes();
            assert(data@ =~= self.encoding());
        }
        data
    }

    /// Reads the vault record that `data` starts with. There is none if `data`
    /// is too short for one or starts with other bytes than a vault record's.
    pub fn unpack(data: &[u8]) -> (record: Option<NftVault>)
        ensures
            match record {
                Some(vault) => vault.is_stored_in(data@),
                None => forall|vault: NftVault| !vault.is_stored_in(data@),
            },
    {
        if data.len() < VAULT_ENCODED_LEN || !starts_with(data, &VAULT_DISCRIMINATOR) {
            proof {
                assert forall|vault: NftVault| !vault.is_stored_in(data@) by {
                    lemma_auto_spec_u64_to_from_le_bytes();
                    if vault.is_stored_in(data@) {
                        assert(data@.subrange(0, 8) =~= vault.encoding().subrange(0, 8));
                        assert(vault.encoding().subrange(0, 8) =~= VAULT_DISCRIMINATOR@);
                    }
                }
            }
            return None;
        }
        let authority = key_at(data, 8);
        let bump = data[40];
        let counter = copy_of(data, 41, 8);
        let total_nft_stakes = u64_from_le_bytes(counter.as_slice());
        let vault = NftVault { authority, bump, total_nft_stakes };
        proof {
            lemma_auto_spec_u64_to_from_le_bytes();
            assert(data@.subrange(0, VAULT_ENCODED_LEN as int) =~= vault.encoding());
        }
        Some(vault)
    }

    /// Two vault records that lie in storage alike are one record, so `unpack`
    /// gives back what `pack` wrote.
    pub proof fn encoding_is_faithful(self, other: NftVault, data: Seq<u8>)
        ensures
            self.is_stored_in(self.encoding()),
            self.is_stored_in(data) && other.is_stored_in(data) ==> self == other,
    {
        lemma_auto_spec_u64_to_from_le_bytes();
        assert(self.encoding().subrange(0, VAULT_ENCODED_LEN as int) =~= self.encoding());
        if self.is_stored_in(data) && other.is_stored_in(data) {
            let a = self.encoding();
            let b = other.encoding();
            assert(self.authority.bytes@ =~= a.subrange(8, 40));
            assert(other.authority.bytes@ =~= b.subrange(8, 40));
            assert(self.authority.bytes =~= other.authority.bytes);
            assert(self.bump == a[40]);
            assert(other.bump == b[40]);
            assert(spec_u64_to_le_bytes(self.total_nft_stakes) =~= a.subrange(41, 49));
            assert(spec_u64_to_le_bytes(other.total_nft_stakes) =~= b.subrange(41, 49));
        }
    }
}

impl StakeNft {
    /// The record as it lies in storage: the discriminator, the bump, the
    /// staker, the asset.
    pub open spec fn encoding(self) -> Seq<u8> {
        STAKE_DISCRIMINATOR@ + seq![self.bump] + self.staker.bytes@ + self.mint.bytes@
    }

    /// Whether `data` starts with this record.
    pub open spec fn is_stored_in(self, data: Seq<u8>) -> bool {
        data.len() >= STAKE_ENCODED_LEN && data.subrange(0, STAKE_ENCODED_LEN as int)
            == self.encoding()
    }

    /// Writes the record as it lies in storage.
    pub fn pack(&self) -> (data: Vec<u8>)
        ensures
            data@ == self.encoding(),
            data@.len() == STAKE_ENCODED_LEN,
    {
        let mut data: Vec<u8> = Vec::new();
        append(&mut data, &STAKE_DISCRIMINATOR);
        data.push(self.bump);
        append(&mut data, &self.staker.bytes);
        append(&mut data, &self.mint.bytes);
        proof {
            assert(data@ =~= self.encoding());
        }
        data
    }

    /// Reads the stake record that `data` starts with. There is none if `data`
    /// is too short for one or starts with other bytes than a stake record's.
    pub fn unpack(data: &[u8]) -> (record: Option<StakeNft>)
        ensures
            match record {
                Some(stake) => stake.is_stored_in(data@),
                None => forall|stake: StakeNft| !stake.is_stored_in(data@),
            },
    {
        if data.len() < STAKE_ENCODED_LEN || !starts_with(data, &STAKE_DISCRIMINATOR) {
            proof {
                assert forall|stake: StakeNft| !stake.is_stored_in(data@) by {
                    if stake.is_stored_in(data@) {
                        assert(data@.subrange(0, 8) =~= stake.encoding().subrange(0, 8));
                        assert(stake.encoding().subrange(0, 8) =~= STAKE_DISCRIMINATOR@);
                    }
                }
            }
            return None;
        }
        let bump = data[8];
        let staker = key_at(data, 9);
        let mint = key_at(data, 41);
        let stake = StakeNft { bump, staker, mint };
        proof {
            assert(data@.subrange(0, STAKE_ENCODED_LEN as int) =~= stake.encoding());
        }
        Some(stake)
    }

    /// Two stake records that lie in storage alike are one record, so `unpack`
    /// gives back what `pack` wrote.
    pub proof fn encoding_is_faithful(self, other: StakeNft, data: Seq<u8>)
        ensures
            self.is_stored_in(self.encoding()),
            self.is_stored_in(data) && other.is_stored_in(data) ==> self == other,
    {
        assert(self.encoding().subrange(0, STAKE_ENCODED_LEN as int) =~= self.encoding());
        if self.is_stored_in(data) && other.is_stored_in(data) {
            let a = self.encoding();
            let b = other.encoding();
            assert(self.bump == a[8]);
            assert(other.bump == b[8]);
            assert(self.staker.bytes@ =~= a.subrange(9, 41));
            assert(other.staker.bytes@ =~= b.subrange(9, 41));
            assert(self.staker.bytes =~= other.staker.bytes);
            assert(self.mint.bytes@ =~= a.subrange(41, 73));
            assert(other.mint.bytes@ =~= b.subrange(41, 73));
            assert(self.mint.bytes =~= other.mint.bytes);
        }
    }
}

/// Adds `bytes` to the end of `out`.
fn append(out: &mut Vec<u8>, bytes: &[u8])
    ensures
        final(out)@ == old(out)@ + bytes@,
{
    let mut i: usize = 0;
    while i < bytes.len()
        invariant
            i <= bytes@.len(),
            out@ == old(out)@ + bytes@.subrange(0, i as int),
        decreases bytes@.len() - i,
    {
        out.push(bytes[i]);
        i += 1;
        assert(out@ =~= old(out)@ + bytes@.subrange(0, i as int));
    }
    assert(bytes@.subrange(0, bytes@.len() as int) =~= bytes@);
}

/// Whether `data` starts with the eight bytes of `tag`.
fn starts_with(data: &[u8], tag: &[u8; 8]) -> (yes: bool)
    requires
        data@.len() >= 8,
    ensures
        yes == (data@.subrange(0, 8) == tag@),
{
    let mut i: usize = 0;
    while i < 8
        invariant
            i <= 8,
            data@.len() >= 8,
            forall|j: int| 0 <= j < i ==> data@[j] == tag@[j],
        decreases 8 - i,
    {
        if data[i] != tag[i] {
            assert(data@.subrange(0, 8)[i as int] != tag@[i as int]);
            return false;
        }
        i += 1;
    }
    assert(data@.subrange(0, 8) =~= tag@);
    true
}

/// The `len` bytes of `data` from `start` on.
fn copy_of(data: &[u8], start: usize, len: usize) -> (bytes: Vec<u8>)
    requires
        start + len <= data@.len(),
    ensures
        bytes@ == data@.subrange(start as int, start + len),
{
    let end: usize = data.len();
    let mut bytes: Vec<u8> = Vec::new();
    let mut i: usize = 0;
    while i < len
        invariant
            i <= len,
            start + len <= data@.len() == end,
            bytes@ == data@.subrange(start as int, start + i),
        decreases len - i,
    {
        bytes.push(data[start + i]);
        i += 1;
        assert(bytes@ =~= data@.subrange(start as int, start + i));
    }
    bytes
}

/// The identity whose bytes are the 32 bytes of `data` from `start` on.
fn key_at(data: &[u8], start: usize) -> (key: Pubkey)
    requires
        start + 32 <= data@.len(),
    ensures
        key.bytes@ == data@.subrange(start as int, start + 32),
{
    let end: usize = data.len();
    let mut bytes = [0u8; 32];
    let mut i: usize = 0;
    while i < 32
        invariant
            i <= 32,
            start + 32 <= data@.len() == end,
            forall|j: int| 0 <= j < i ==> bytes@[j] == data@[start + j],
        decreases 32 - i,
    {
        bytes[i] = data[start + i];
        i += 1;
    }
    assert(bytes@ =~= data@.subrange(start as int, start + 32));
    Pubkey { bytes }
}

} // verus!
