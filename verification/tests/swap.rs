use anchor_lang::solana_program::instruction::AccountMeta as OutsideMeta;
use anchor_lang::solana_program::pubkey::Pubkey as OutsideKey;
use lend_auction::{create_raydium_swap_instruction, AccountMeta, Pubkey};

fn key(byte: u8) -> Pubkey {
    Pubkey::new_from_array([byte; 32])
}

fn swap(amount_in: u64, minimum_amount_out: u64) -> lend_auction::Instruction {
    create_raydium_swap_instruction(
        &key(0),
        &key(1),
        &key(2),
        &key(3),
        &key(4),
        &key(5),
        &key(6),
        &key(7),
        &key(8),
        &key(9),
        &key(10),
        &key(11),
        &key(12),
        &key(13),
        &key(14),
        &key(15),
        &key(16),
        amount_in,
        minimum_amount_out,
    )
    .unwrap()
}

#[test]
fn swap_data_is_the_tag_and_two_amounts() {
    let data = swap(1, 2).data;
    assert_eq!(data, vec![9, 1, 0, 0, 0, 0, 0, 0, 0, 2, 0, 0, 0, 0, 0, 0, 0]);
    let data = swap(0x1122_3344_5566_7788, u64::MAX).data;
    let mut expected = vec![9u8];
    expected.extend_from_slice(&0x1122_3344_5566_7788u64.to_le_bytes());
    expected.extend_from_slice(&u64::MAX.to_le_bytes());
    assert_eq!(data, expected);
}

#[test]
fn swap_data_agrees_with_to_le_bytes() {
    for amount in [0u64, 1, 255, 256, 65_535, 65_536, 1 << 32, (1 << 56) + 7, u64::MAX - 1] {
        let data = swap(amount, amount / 3).data;
        assert_eq!(data.len(), 17);
        assert_eq!(data[1..9], amount.to_le_bytes());
        assert_eq!(data[9..17], (amount / 3).to_le_bytes());
    }
}

#[test]
fn swap_accounts_are_in_order_with_their_roles() {
    let instruction = swap(1, 2);
    assert_eq!(instruction.program_id, key(0));
    let readonly = [1usize, 5, 12, 16];
    assert_eq!(instruction.accounts.len(), 17);
    for (i, meta) in instruction.accounts.iter().enumerate().take(16) {
        assert_eq!(
            *meta,
            AccountMeta {
                pubkey: key(i as u8 + 1),
                is_signer: i == 15,
                is_writable: !readonly.contains(&i),
            }
        );
    }
}

#[test]
fn swap_ends_with_the_token_program() {
    let instruction = swap(1, 2);
    let last = instruction.accounts[16];
    assert_eq!(last.pubkey.to_bytes(), anchor_spl::token::ID.to_bytes());
    assert_eq!(last.pubkey.to_bytes(), lend_auction::utils::TOKEN_PROGRAM_ID);
    assert_eq!(
        anchor_spl::token::ID.to_string(),
        "TokenkegQfeZyiNwAJbNbGKPFXCWuBvf9Ss623VQ5DA"
    );
    assert!(!last.is_signer);
    assert!(!last.is_writable);
}

#[test]
fn account_metas_are_built_as_the_runtime_builds_them() {
    let ours = AccountMeta::new(key(5), true);
    let theirs = OutsideMeta::new(OutsideKey::new_from_array([5u8; 32]), true);
    assert_eq!(ours.pubkey.to_bytes(), theirs.pubkey.to_bytes());
    assert_eq!((ours.is_signer, ours.is_writable), (theirs.is_signer, theirs.is_writable));
    let ours = AccountMeta::new_readonly(key(6), false);
    let theirs = OutsideMeta::new_readonly(OutsideKey::new_from_array([6u8; 32]), false);
    assert_eq!(ours.pubkey.to_bytes(), theirs.pubkey.to_bytes());
    assert_eq!((ours.is_signer, ours.is_writable), (theirs.is_signer, theirs.is_writable));
}
