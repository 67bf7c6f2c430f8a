use nft_vault::{
    Authorization, CustodyAccount, Deployment, Failure, Instruction, NftError, NftVault, Owner,
    Pubkey, StakeAddress, StakeNft, Transfer,
};
use std::collections::HashMap;

fn key(n: u8) -> Pubkey {
    Pubkey::new([n; 32])
}

const AUTHORITY: u8 = 1;
const ALICE: u8 = 2;
const BOB: u8 = 3;
const MINT: u8 = 10;
const OTHER_MINT: u8 = 11;
const VAULT_BUMP: u8 = 253;

fn address(mint: u8, staker: u8) -> StakeAddress {
    StakeAddress { mint: key(mint), staker: key(staker) }
}

fn wallet(mint: u8, holder: u8) -> CustodyAccount {
    CustodyAccount { mint: key(mint), owner: Owner::Wallet(key(holder)) }
}

fn vault_account(mint: u8) -> CustodyAccount {
    CustodyAccount { mint: key(mint), owner: Owner::Vault }
}

fn set_up() -> Deployment {
    let mut deployment = Deployment::new();
    assert_eq!(deployment.initialize(key(AUTHORITY), VAULT_BUMP), Ok(()));
    deployment
}

fn balance(ledger: &HashMap<CustodyAccount, u64>, account: CustodyAccount) -> u64 {
    ledger.get(&account).copied().unwrap_or(0)
}

/// A ledger for the tests: moves the amount if the authority may take from
/// the source, both accounts hold one asset and the source holds enough.
fn settle(
    ledger: &mut HashMap<CustodyAccount, u64>,
    vault_bump: Option<u8>,
    order: &Transfer,
) -> bool {
    let authorized = match order.from.owner {
        Owner::Wallet(holder) => order.authority == Authorization::Signer(holder),
        Owner::Vault => match vault_bump {
            Some(bump) => order.authority == Authorization::VaultSeeds { bump },
            None => false,
        },
    };
    if !authorized || order.from.mint != order.to.mint {
        return false;
    }
    let held = balance(ledger, order.from);
    if held < order.amount {
        return false;
    }
    ledger.insert(order.from, held - order.amount);
    let there = balance(ledger, order.to);
    ledger.insert(order.to, there + order.amount);
    true
}

/// One instruction as the host runs it: it stands only if the ledger settles
/// its order.
fn execute(
    deployment: &mut Deployment,
    ledger: &mut HashMap<CustodyAccount, u64>,
    instruction: &Instruction,
) -> bool {
    let before = deployment.clone();
    let bump = deployment.vault().map(|vault| vault.bump);
    match deployment.process(instruction) {
        Err(_) => false,
        Ok(None) => true,
        Ok(Some(order)) => {
            if settle(ledger, bump, &order) {
                true
            } else {
                *deployment = before;
                false
            }
        }
    }
}

#[test]
fn a_new_deployment_has_no_records() {
    let deployment = Deployment::new();
    assert_eq!(deployment.vault(), None);
    assert_eq!(deployment.stake_record(&address(MINT, ALICE)), None);
}

#[test]
fn initialize_sets_the_vault_up() {
    let deployment = set_up();
    assert_eq!(
        deployment.vault(),
        Some(NftVault { authority: key(AUTHORITY), bump: VAULT_BUMP, total_nft_stakes: 0 })
    );
}

#[test]
fn second_initialize_fails() {
    let mut deployment = set_up();
    assert_eq!(deployment.initialize(key(AUTHORITY), VAULT_BUMP), Err(Failure::AccountInUse));
    assert_eq!(deployment.initialize(key(BOB), 1), Err(Failure::AccountInUse));
    assert_eq!(
        deployment.vault(),
        Some(NftVault { authority: key(AUTHORITY), bump: VAULT_BUMP, total_nft_stakes: 0 })
    );
}

#[test]
fn stake_needs_the_vault() {
    let mut deployment = Deployment::new();
    assert_eq!(deployment.stake(key(ALICE), key(MINT), 250), Err(Failure::AccountNotInitialized));
    assert_eq!(deployment.stake_record(&address(MINT, ALICE)), None);
}

#[test]
fn stake_creates_the_record() {
    let mut deployment = set_up();
    let order = deployment.stake(key(ALICE), key(MINT), 250);
    assert_eq!(
        order,
        Ok(Transfer {
            from: wallet(MINT, ALICE),
            to: vault_account(MINT),
            authority: Authorization::Signer(key(ALICE)),
            amount: 1,
        })
    );
    assert_eq!(
        deployment.stake_record(&address(MINT, ALICE)),
        Some(StakeNft { bump: 250, staker: key(ALICE), mint: key(MINT) })
    );
    assert_eq!(deployment.stake_record(&address(MINT, BOB)), None);
    assert_eq!(deployment.stake_record(&address(OTHER_MINT, ALICE)), None);
}

#[test]
fn second_stake_of_a_pair_fails() {
    let mut deployment = set_up();
    assert!(deployment.stake(key(ALICE), key(MINT), 250).is_ok());
    assert_eq!(deployment.stake(key(ALICE), key(MINT), 250), Err(Failure::AccountInUse));
    assert_eq!(deployment.stake(key(ALICE), key(MINT), 9), Err(Failure::AccountInUse));
    assert_eq!(
        deployment.stake_record(&address(MINT, ALICE)),
        Some(StakeNft { bump: 250, staker: key(ALICE), mint: key(MINT) })
    );
}

#[test]
fn other_pairs_stake_independently() {
    let mut deployment = set_up();
    assert!(deployment.stake(key(ALICE), key(MINT), 250).is_ok());
    assert!(deployment.stake(key(BOB), key(MINT), 251).is_ok());
    assert!(deployment.stake(key(ALICE), key(OTHER_MINT), 252).is_ok());
    assert_eq!(
        deployment.stake_record(&address(MINT, BOB)),
        Some(StakeNft { bump: 251, staker: key(BOB), mint: key(MINT) })
    );
    assert_eq!(
        deployment.stake_record(&address(OTHER_MINT, ALICE)),
        Some(StakeNft { bump: 252, staker: key(ALICE), mint: key(OTHER_MINT) })
    );
    assert!(deployment.unstake(key(BOB), address(MINT, BOB), key(MINT)).is_ok());
    assert_eq!(deployment.stake_record(&address(MINT, BOB)), None);
    assert_eq!(
        deployment.stake_record(&address(MINT, ALICE)),
        Some(StakeNft { bump: 250, staker: key(ALICE), mint: key(MINT) })
    );
    assert_eq!(
        deployment.stake_record(&address(OTHER_MINT, ALICE)),
        Some(StakeNft { bump: 252, staker: key(ALICE), mint: key(OTHER_MINT) })
    );
}

#[test]
fn stake_again_after_reclaim() {
    let mut deployment = set_up();
    assert!(deployment.stake(key(ALICE), key(MINT), 250).is_ok());
    assert!(deployment.unstake(key(ALICE), address(MINT, ALICE), key(MINT)).is_ok());
    assert!(deployment.stake(key(ALICE), key(MINT), 250).is_ok());
    assert_eq!(deployment.stake(key(ALICE), key(MINT), 250), Err(Failure::AccountInUse));
}

#[test]
fn unstake_removes_the_record() {
    let mut deployment = set_up();
    assert!(deployment.stake(key(ALICE), key(MINT), 250).is_ok());
    let order = deployment.unstake(key(ALICE), address(MINT, ALICE), key(MINT));
    assert_eq!(
        order,
        Ok(Transfer {
            from: vault_account(MINT),
            to: wallet(MINT, ALICE),
            authority: Authorization::VaultSeeds { bump: VAULT_BUMP },
            amount: 1,
        })
    );
    assert_eq!(deployment.stake_record(&address(MINT, ALICE)), None);
}

#[test]
fn unstake_of_a_missing_record_fails() {
    let mut deployment = set_up();
    assert_eq!(
        deployment.unstake(key(ALICE), address(MINT, ALICE), key(MINT)),
        Err(Failure::AccountNotInitialized)
    );
    let mut fresh = Deployment::new();
    assert_eq!(
        fresh.unstake(key(ALICE), address(MINT, ALICE), key(MINT)),
        Err(Failure::AccountNotInitialized)
    );
}

#[test]
fn unstake_by_another_caller_is_refused() {
    let mut deployment = set_up();
    assert!(deployment.stake(key(ALICE), key(MINT), 250).is_ok());
    assert_eq!(
        deployment.unstake(key(BOB), address(MINT, ALICE), key(MINT)),
        Err(Failure::Program(NftError::KeyMismatch))
    );
    assert_eq!(
        deployment.unstake(key(AUTHORITY), address(MINT, ALICE), key(MINT)),
        Err(Failure::Program(NftError::KeyMismatch))
    );
    assert_eq!(
        deployment.stake_record(&address(MINT, ALICE)),
        Some(StakeNft { bump: 250, staker: key(ALICE), mint: key(MINT) })
    );
}

#[test]
fn unstake_with_another_asset_is_refused() {
    let mut deployment = set_up();
    assert!(deployment.stake(key(ALICE), key(MINT), 250).is_ok());
    assert_eq!(
        deployment.unstake(key(ALICE), address(MINT, ALICE), key(OTHER_MINT)),
        Err(Failure::Program(NftError::MintMismatch))
    );
    assert_eq!(
        deployment.unstake(key(BOB), address(MINT, ALICE), key(OTHER_MINT)),
        Err(Failure::Program(NftError::MintMismatch))
    );
    assert_eq!(
        deployment.stake_record(&address(MINT, ALICE)),
        Some(StakeNft { bump: 250, staker: key(ALICE), mint: key(MINT) })
    );
}

#[test]
fn release_removes_the_record() {
    let mut deployment = set_up();
    assert!(deployment.stake(key(ALICE), key(MINT), 250).is_ok());
    let order =
        deployment.release(key(AUTHORITY), key(ALICE), address(MINT, ALICE), key(MINT));
    assert_eq!(
        order,
        Ok(Transfer {
            from: vault_account(MINT),
            to: wallet(MINT, ALICE),
            authority: Authorization::VaultSeeds { bump: VAULT_BUMP },
            amount: 1,
        })
    );
    assert_eq!(deployment.stake_record(&address(MINT, ALICE)), None);
    assert_eq!(
        deployment.unstake(key(ALICE), address(MINT, ALICE), key(MINT)),
        Err(Failure::AccountNotInitialized)
    );
}

#[test]
fn release_of_a_pair_never_staked_fails() {
    let mut deployment = set_up();
    assert_eq!(
        deployment.release(key(AUTHORITY), key(ALICE), address(MINT, ALICE), key(MINT)),
        Err(Failure::AccountNotInitialized)
    );
}

#[test]
fn release_by_another_caller_is_refused() {
    let mut deployment = set_up();
    assert!(deployment.stake(key(ALICE), key(MINT), 250).is_ok());
    assert_eq!(
        deployment.release(key(BOB), key(ALICE), address(MINT, ALICE), key(MINT)),
        Err(Failure::Program(NftError::Unauthorized))
    );
    assert_eq!(
        deployment.release(key(ALICE), key(ALICE), address(MINT, ALICE), key(MINT)),
        Err(Failure::Program(NftError::Unauthorized))
    );
    assert_eq!(
        deployment.stake_record(&address(MINT, ALICE)),
        Some(StakeNft { bump: 250, staker: key(ALICE), mint: key(MINT) })
    );
}

#[test]
fn release_with_another_asset_is_refused() {
    let mut deployment = set_up();
    assert!(deployment.stake(key(ALICE), key(MINT), 250).is_ok());
    assert_eq!(
        deployment.release(key(AUTHORITY), key(ALICE), address(MINT, ALICE), key(OTHER_MINT)),
        Err(Failure::Program(NftError::MintMismatch))
    );
    assert!(deployment.stake_record(&address(MINT, ALICE)).is_some());
}

#[test]
fn release_to_another_staker_is_refused() {
    let mut deployment = set_up();
    assert!(deployment.stake(key(ALICE), key(MINT), 250).is_ok());
    assert_eq!(
        deployment.release(key(AUTHORITY), key(BOB), address(MINT, ALICE), key(MINT)),
        Err(Failure::Program(NftError::KeyMismatch))
    );
    assert!(deployment.stake_record(&address(MINT, ALICE)).is_some());
}

#[test]
fn vault_record_stays_as_written() {
    let mut deployment = set_up();
    let written = deployment.vault();
    assert!(deployment.stake(key(ALICE), key(MINT), 250).is_ok());
    assert_eq!(deployment.vault(), written);
    assert!(deployment.stake(key(BOB), key(OTHER_MINT), 251).is_ok());
    assert!(deployment.unstake(key(ALICE), address(MINT, ALICE), key(MINT)).is_ok());
    assert_eq!(deployment.vault(), written);
    assert!(deployment
        .release(key(AUTHORITY), key(BOB), address(OTHER_MINT, BOB), key(OTHER_MINT))
        .is_ok());
    assert_eq!(deployment.vault(), written);
    assert!(deployment.initialize(key(BOB), 0).is_err());
    assert_eq!(deployment.vault(), written);
}

#[test]
fn process_does_what_the_instruction_says() {
    let mut by_process = Deployment::new();
    let mut by_call = Deployment::new();
    assert_eq!(
        by_process.process(&Instruction::Initialize { authority: key(AUTHORITY), bump: 253 }),
        Ok(None)
    );
    assert_eq!(by_call.initialize(key(AUTHORITY), 253), Ok(()));
    assert_eq!(by_process.vault(), by_call.vault());
    assert_eq!(
        by_process.process(&Instruction::Initialize { authority: key(AUTHORITY), bump: 253 }),
        Err(Failure::AccountInUse)
    );
    assert_eq!(
        by_process.process(&Instruction::Stake {
            staker: key(ALICE),
            token_mint: key(MINT),
            bump: 250
        }),
        by_call.stake(key(ALICE), key(MINT), 250).map(Some)
    );
    assert_eq!(
        by_process.stake_record(&address(MINT, ALICE)),
        by_call.stake_record(&address(MINT, ALICE))
    );
    assert_eq!(
        by_process.process(&Instruction::Unstake {
            staker: key(BOB),
            stake_nft: address(MINT, ALICE),
            token_mint: key(MINT)
        }),
        Err(Failure::Program(NftError::KeyMismatch))
    );
    assert_eq!(
        by_process.process(&Instruction::Release {
            authority: key(AUTHORITY),
            staker: key(ALICE),
            stake_nft: address(MINT, ALICE),
            token_mint: key(MINT)
        }),
        by_call
            .release(key(AUTHORITY), key(ALICE), address(MINT, ALICE), key(MINT))
            .map(Some)
    );
    assert_eq!(by_process.stake_record(&address(MINT, ALICE)), None);
    assert_eq!(
        by_process.process(&Instruction::Unstake {
            staker: key(ALICE),
            stake_nft: address(MINT, ALICE),
            token_mint: key(MINT)
        }),
        Err(Failure::AccountNotInitialized)
    );
}

#[test]
fn a_copy_has_the_same_records() {
    let mut deployment = set_up();
    assert!(deployment.stake(key(ALICE), key(MINT), 250).is_ok());
    let copy = deployment.clone();
    assert!(deployment.unstake(key(ALICE), address(MINT, ALICE), key(MINT)).is_ok());
    assert_eq!(copy.vault(), deployment.vault());
    assert_eq!(
        copy.stake_record(&address(MINT, ALICE)),
        Some(StakeNft { bump: 250, staker: key(ALICE), mint: key(MINT) })
    );
    assert_eq!(deployment.stake_record(&address(MINT, ALICE)), None);
}

#[test]
fn alice_stakes_and_unstakes() {
    let mut deployment = set_up();
    let mut ledger = HashMap::new();
    ledger.insert(wallet(MINT, ALICE), 1u64);

    let stake = Instruction::Stake { staker: key(ALICE), token_mint: key(MINT), bump: 250 };
    assert!(execute(&mut deployment, &mut ledger, &stake));
    assert_eq!(balance(&ledger, wallet(MINT, ALICE)), 0);
    assert_eq!(balance(&ledger, vault_account(MINT)), 1);
    assert!(deployment.stake_record(&address(MINT, ALICE)).is_some());

    let by_bob = Instruction::Unstake {
        staker: key(BOB),
        stake_nft: address(MINT, ALICE),
        token_mint: key(MINT),
    };
    assert_eq!(
        deployment.clone().process(&by_bob),
        Err(Failure::Program(NftError::KeyMismatch))
    );
    assert!(!execute(&mut deployment, &mut ledger, &by_bob));
    assert_eq!(balance(&ledger, wallet(MINT, ALICE)), 0);
    assert_eq!(balance(&ledger, wallet(MINT, BOB)), 0);
    assert_eq!(balance(&ledger, vault_account(MINT)), 1);

    let unstake = Instruction::Unstake {
        staker: key(ALICE),
        stake_nft: address(MINT, ALICE),
        token_mint: key(MINT),
    };
    assert!(execute(&mut deployment, &mut ledger, &unstake));
    assert_eq!(balance(&ledger, wallet(MINT, ALICE)), 1);
    assert_eq!(balance(&ledger, vault_account(MINT)), 0);
    assert_eq!(deployment.stake_record(&address(MINT, ALICE)), None);

    let release = Instruction::Release {
        authority: key(AUTHORITY),
        staker: key(BOB),
        stake_nft: address(OTHER_MINT, BOB),
        token_mint: key(OTHER_MINT),
    };
    assert_eq!(deployment.clone().process(&release), Err(Failure::AccountNotInitialized));
    assert!(!execute(&mut deployment, &mut ledger, &release));
}

#[test]
fn release_gives_the_asset_back_to_the_staker() {
    let mut deployment = set_up();
    let mut ledger = HashMap::new();
    ledger.insert(wallet(MINT, ALICE), 1u64);
    ledger.insert(wallet(MINT, BOB), 4u64);
    ledger.insert(vault_account(MINT), 2u64);

    let stake = Instruction::Stake { staker: key(ALICE), token_mint: key(MINT), bump: 250 };
    assert!(execute(&mut deployment, &mut ledger, &stake));
    let other = Instruction::Stake { staker: key(BOB), token_mint: key(MINT), bump: 251 };
    assert!(execute(&mut deployment, &mut ledger, &other));
    assert_eq!(balance(&ledger, wallet(MINT, ALICE)), 0);
    assert_eq!(balance(&ledger, wallet(MINT, BOB)), 3);
    assert_eq!(balance(&ledger, vault_account(MINT)), 4);

    let release = Instruction::Release {
        authority: key(AUTHORITY),
        staker: key(ALICE),
        stake_nft: address(MINT, ALICE),
        token_mint: key(MINT),
    };
    assert!(execute(&mut deployment, &mut ledger, &release));
    assert_eq!(balance(&ledger, wallet(MINT, ALICE)), 1);
    assert_eq!(balance(&ledger, wallet(MINT, AUTHORITY)), 0);
    assert_eq!(balance(&ledger, wallet(MINT, BOB)), 3);
    assert_eq!(balance(&ledger, vault_account(MINT)), 3);
    assert_eq!(deployment.stake_record(&address(MINT, ALICE)), None);
    assert!(deployment.stake_record(&address(MINT, BOB)).is_some());
}

#[test]
fn stake_without_the_asset_leaves_no_trace() {
    let mut deployment = set_up();
    let mut ledger: HashMap<CustodyAccount, u64> = HashMap::new();
    let stake = Instruction::Stake { staker: key(ALICE), token_mint: key(MINT), bump: 250 };
    assert!(!execute(&mut deployment, &mut ledger, &stake));
    assert_eq!(deployment.stake_record(&address(MINT, ALICE)), None);
    assert_eq!(balance(&ledger, wallet(MINT, ALICE)), 0);
    assert_eq!(balance(&ledger, vault_account(MINT)), 0);

    ledger.insert(wallet(MINT, ALICE), 1);
    assert!(execute(&mut deployment, &mut ledger, &stake));
    assert!(deployment.stake_record(&address(MINT, ALICE)).is_some());
}

#[test]
fn every_order_is_authorized() {
    let mut deployment = set_up();
    let mut ledger = HashMap::new();
    ledger.insert(wallet(MINT, ALICE), 1u64);
    let deposit = deployment.stake(key(ALICE), key(MINT), 250).unwrap();
    assert!(settle(&mut ledger, Some(VAULT_BUMP), &deposit));
    let withdrawal = deployment
        .release(key(AUTHORITY), key(ALICE), address(MINT, ALICE), key(MINT))
        .unwrap();
    assert!(!settle(&mut ledger.clone(), Some(VAULT_BUMP - 1), &withdrawal));
    assert!(settle(&mut ledger, Some(VAULT_BUMP), &withdrawal));
    assert_eq!(balance(&ledger, wallet(MINT, ALICE)), 1);
}

#[test]
fn holdings_are_conserved_over_a_long_run() {
    let keys = [AUTHORITY, ALICE, BOB];
    let mints = [MINT, OTHER_MINT];
    let mut deployment = set_up();
    let written = deployment.vault();
    let mut ledger = HashMap::new();
    for staker in keys {
        ledger.insert(wallet(MINT, staker), 1u64);
        ledger.insert(wallet(OTHER_MINT, staker), 2u64);
    }
    ledger.insert(vault_account(MINT), 5u64);

    let mut state: u32 = 12345;
    let mut next = |bound: u32| {
        state = state.wrapping_mul(1103515245).wrapping_add(12345);
        ((state >> 16) % bound) as usize
    };
    let mut committed = 0;
    for _ in 0..2000 {
        let caller = keys[next(3)];
        let staker = keys[next(3)];
        let mint = mints[next(2)];
        let named = mints[next(2)];
        let instruction = match next(4) {
            0 => Instruction::Initialize { authority: key(caller), bump: 1 },
            1 => Instruction::Stake { staker: key(caller), token_mint: key(mint), bump: 200 },
            2 => Instruction::Unstake {
                staker: key(caller),
                stake_nft: address(mint, staker),
                token_mint: key(named),
            },
            _ => Instruction::Release {
                authority: key(caller),
                staker: key(staker),
                stake_nft: address(mint, staker),
                token_mint: key(named),
            },
        };
        if execute(&mut deployment, &mut ledger, &instruction) {
            committed += 1;
        }
        assert_eq!(deployment.vault(), written);
        for mint in mints {
            let mut records = 0;
            for staker in keys {
                let held = match deployment.stake_record(&address(mint, staker)) {
                    Some(record) => {
                        assert_eq!(record.mint, key(mint));
                        assert_eq!(record.staker, key(staker));
                        1
                    }
                    None => 0,
                };
                let own = if mint == MINT { 1 } else { 2 };
                assert_eq!(balance(&ledger, wallet(mint, staker)) + held, own);
                records += held;
            }
            let base = if mint == MINT { 5 } else { 0 };
            assert_eq!(balance(&ledger, vault_account(mint)), base + records);
        }
    }
    assert!(committed > 100);
}
