use claim_pipeline::{
    build_transaction, bytes_equal, decode_hex, effective_gas_price, finish_confirmation,
    parse_address,
    parse_private_key, validate_secret_key, wei_display_units, AccountRecord, BroadcastSession,
    ConfirmationPoll, GasPriceMode, GateState, PipelineError, Receipt, SigningSession,
    StartCondition, TriggerGate, GAS_LIMIT, TX_VALUE, WEI_DISPLAY_DIV,
};

fn account(tag: u8) -> AccountRecord {
    let mut address = vec![0u8; 20];
    address[19] = tag;
    let mut secret_key = vec![0u8; 32];
    secret_key[31] = tag;
    AccountRecord { address, secret_key }
}

#[test]
fn gate_crosses_threshold_once() {
    let mut gate = TriggerGate::new(StartCondition::BlockHeight(180));
    assert_eq!(gate.state, GateState::Waiting);
    assert!(!gate.observe(100));
    assert_eq!(gate.state, GateState::Waiting);
    assert!(!gate.observe(150));
    assert_eq!(gate.state, GateState::Waiting);
    assert!(gate.observe(200));
    assert_eq!(gate.state, GateState::Reached);
}

#[test]
fn gate_never_reverts() {
    let mut gate = TriggerGate::new(StartCondition::BlockHeight(180));
    assert!(gate.observe(200));
    // Later observations below the target do not bring `Waiting` back.
    assert!(gate.observe(100));
    assert!(gate.observe(0));
    assert_eq!(gate.state, GateState::Reached);
}

#[test]
fn gate_timestamp_variant() {
    let mut gate = TriggerGate::new(StartCondition::Timestamp(1_700_000_000));
    assert!(!gate.observe(1_699_999_999));
    assert!(gate.observe(1_700_000_000));
}

#[test]
fn decode_hex_exact() {
    let out = decode_hex(b"0a0Bff").unwrap();
    assert_eq!(out, vec![0x0a, 0x0b, 0xff]);
    assert_eq!(decode_hex(b"").unwrap(), Vec::<u8>::new());
}

#[test]
fn decode_hex_rejects_odd_length() {
    assert_eq!(decode_hex(b"abc"), Err(PipelineError::InputFormat));
}

#[test]
fn decode_hex_rejects_non_hex() {
    assert_eq!(decode_hex(b"zz"), Err(PipelineError::InputFormat));
}

#[test]
fn parse_private_key_exact() {
    let line = b"00000000000000000000000000000000000000000000000000000000000000ff";
    let key = parse_private_key(line).unwrap();
    assert_eq!(key.len(), 32);
    assert_eq!(key[31], 0xff);
    assert!(key[..31].iter().all(|&b| b == 0));
}

#[test]
fn parse_private_key_rejects_wrong_length() {
    assert_eq!(parse_private_key(b"abcd"), Err(PipelineError::InputFormat));
}

#[test]
fn parse_private_key_rejects_prefix() {
    // A key line carries no 0x prefix: 66 characters are refused.
    let line = b"0x0000000000000000000000000000000000000000000000000000000000000001";
    assert_eq!(parse_private_key(line), Err(PipelineError::InputFormat));
}

#[test]
fn parse_address_with_prefix() {
    let addr = parse_address(b"0x67a24CE4321aB3aF51c2D0a4801c3E111D88C9d9").unwrap();
    assert_eq!(addr.len(), 20);
    assert_eq!(addr[0], 0x67);
    assert_eq!(addr[19], 0xd9);
}

#[test]
fn parse_address_without_prefix() {
    let addr = parse_address(b"67a24CE4321aB3aF51c2D0a4801c3E111D88C9d9").unwrap();
    assert_eq!(addr[0], 0x67);
    assert_eq!(addr.len(), 20);
}

#[test]
fn parse_address_rejects_bad_line() {
    assert_eq!(parse_address(b"0x1234"), Err(PipelineError::InputFormat));
    assert_eq!(
        parse_address(b"67a24CE4321aB3aF51c2D0a4801c3E111D88C9dZ"),
        Err(PipelineError::InputFormat)
    );
}

#[test]
fn secret_key_validation() {
    let mut one = vec![0u8; 32];
    one[31] = 1;
    assert_eq!(validate_secret_key(&one), Ok(()));

    // Zero is refused by the curve.
    let zero = vec![0u8; 32];
    assert_eq!(validate_secret_key(&zero), Err(PipelineError::Signing));

    // The group order itself is out of range; one below it is the largest
    // accepted scalar.
    let mut order = parse_private_key(
        b"FFFFFFFFFFFFFFFFFFFFFFFFFFFFFFFEBAAEDCE6AF48A03BBFD25E8CD0364141",
    )
    .unwrap();
    assert_eq!(validate_secret_key(&order), Err(PipelineError::Signing));
    order[31] = 0x40;
    assert_eq!(validate_secret_key(&order), Ok(()));

    // A slice of the wrong length is refused too.
    assert_eq!(validate_secret_key(&vec![1u8; 31]), Err(PipelineError::Signing));
}

#[test]
fn build_transaction_pins_fields() {
    let contract = vec![0xaa; 20];
    let payload = vec![0x4e, 0x71, 0xd9, 0x2d];
    let tx = build_transaction(&contract, 7, 5_000_000_000, &payload);
    assert_eq!(tx.to, contract);
    assert_eq!(tx.value, TX_VALUE);
    assert_eq!(tx.value, 0);
    assert_eq!(tx.gas_limit, GAS_LIMIT);
    assert_eq!(tx.gas_limit, 2_000_000);
    assert_eq!(tx.gas_price, 5_000_000_000);
    assert_eq!(tx.nonce, 7);
    assert_eq!(tx.data, payload);
}

#[test]
fn gas_price_modes() {
    assert_eq!(effective_gas_price(GasPriceMode::SharedSnapshot, 100, 200), 100);
    assert_eq!(effective_gas_price(GasPriceMode::PerTask, 100, 200), 200);
}

#[test]
fn wei_display_units_exact() {
    assert_eq!(WEI_DISPLAY_DIV, 10u128.pow(13));
    assert_eq!(wei_display_units(3 * 10u128.pow(13) + 5), 3);
    assert_eq!(wei_display_units(0), 0);
}

fn run_signing(order: &[usize]) -> SigningSession {
    let accounts: Vec<AccountRecord> = (0..5).map(|i| account(i as u8 + 1)).collect();
    let mut session = SigningSession::new(accounts);
    for &i in order {
        let nonce = i as u64;
        let raw = vec![i as u8; 4];
        let hash = vec![0x10 + i as u8; 32];
        assert!(session.record_signed(i, nonce, raw, hash));
    }
    session
}

#[test]
fn signing_five_accounts_in_scrambled_order() {
    // Five accounts with on-chain nonces [0, 1, 2, 3, 4], finishing in an
    // order the scheduler might produce.
    let session = run_signing(&[2, 0, 4, 1, 3]);
    assert!(session.all_done());
    assert_eq!(session.pending_count(), 5);
    // Each entry carries its own account's address and nonce; no nonce is
    // duplicated or missing.
    let mut seen = [false; 5];
    for entry in session.pending.iter() {
        let nonce = entry.nonce as usize;
        assert!(nonce < 5);
        assert!(!seen[nonce]);
        seen[nonce] = true;
        assert_eq!(entry.origin, session.accounts[nonce].address);
    }
    assert!(seen.iter().all(|&s| s));
    // Append order is completion order.
    assert_eq!(session.pending[0].nonce, 2);
    assert_eq!(session.pending[4].nonce, 3);
}

#[test]
fn signing_order_does_not_matter() {
    let a = run_signing(&[0, 1, 2, 3, 4]);
    let b = run_signing(&[4, 3, 2, 1, 0]);
    assert_eq!(a.pending_count(), b.pending_count());
    let mut nonces_a: Vec<u64> = a.pending.iter().map(|t| t.nonce).collect();
    let mut nonces_b: Vec<u64> = b.pending.iter().map(|t| t.nonce).collect();
    nonces_a.sort();
    nonces_b.sort();
    assert_eq!(nonces_a, nonces_b);
}

#[test]
fn signing_rejects_double_and_out_of_range() {
    let mut session = run_signing(&[1]);
    assert!(!session.record_signed(1, 9, vec![], vec![]));
    assert!(!session.record_signed(5, 9, vec![], vec![]));
    assert_eq!(session.pending_count(), 1);
}

#[test]
fn nonce_embedded_equals_observed() {
    let accounts: Vec<AccountRecord> = (0..3).map(|i| account(i as u8 + 1)).collect();
    let mut session = SigningSession::new(accounts);
    // A deterministic per-address nonce sequence from a mock chain.
    let mock_nonces = [41u64, 7, 1999];
    for i in 0..3 {
        assert!(session.record_signed(i, mock_nonces[i], vec![0xab], vec![0xcd; 32]));
    }
    for (j, entry) in session.pending.iter().enumerate() {
        assert_eq!(entry.nonce, mock_nonces[j]);
    }
}

#[test]
fn broadcast_waits_for_barrier() {
    let accounts: Vec<AccountRecord> = (0..2).map(|i| account(i as u8 + 1)).collect();
    let mut session = SigningSession::new(accounts);
    assert!(session.record_signed(0, 0, vec![0x01], vec![0x02; 32]));
    // One signing task is still running: the broadcast stage must not open.
    assert!(!session.all_done());
    let held_back = BroadcastSession::begin(session);
    assert!(held_back.is_none());

    let mut session = run_signing(&[3, 1, 0, 2, 4]);
    assert!(session.all_done());
    assert!(session.record_signed(0, 0, vec![], vec![]) == false);
    let stage = BroadcastSession::begin(session).unwrap();
    assert_eq!(stage.tx_count(), 5);
    let (raw, hash) = stage.tx_at(0);
    assert_eq!(raw, vec![3u8; 4]);
    assert_eq!(hash, vec![0x13; 32]);
}

#[test]
fn confirmation_poll_stalled_chain() {
    // The chain head stalls at 500 for three observations, then moves.
    let mut poll = ConfirmationPoll::new(500);
    assert!(!poll.observe(500));
    assert!(!poll.observe(500));
    assert!(!poll.observe(500));
    assert!(poll.observe(501));
    assert_eq!(poll.mined_block(), 501);
}

#[test]
fn confirmation_poll_is_terminal() {
    let mut poll = ConfirmationPoll::new(500);
    assert!(poll.observe(499));
    // Later observations, even back at the submission height, change nothing.
    assert!(poll.observe(500));
    assert_eq!(poll.mined_block(), 499);
}

#[test]
fn missing_receipt_becomes_empty_receipt() {
    let result = finish_confirmation(vec![0xcd; 32], 777, None);
    assert_eq!(result.mined_block, 777);
    assert_eq!(result.tx_hash, vec![0xcd; 32]);
    assert!(!result.receipt_present);
    assert_eq!(result.receipt, Receipt::default());
    assert_eq!(result.receipt.status, 0);
    assert_eq!(result.receipt.block_number, 0);
    assert_eq!(result.receipt.gas_used, 0);
}

#[test]
fn hash_cross_check() {
    assert!(bytes_equal(&vec![1, 2, 3], &vec![1, 2, 3]));
    assert!(!bytes_equal(&vec![1, 2, 3], &vec![1, 2, 4]));
    assert!(!bytes_equal(&vec![1, 2], &vec![1, 2, 3]));
    assert!(bytes_equal(&vec![], &vec![]));
}

#[test]
fn present_receipt_is_kept() {
    let receipt = Receipt { status: 1, block_number: 778, gas_used: 60_000 };
    let result = finish_confirmation(vec![0x01], 778, Some(receipt));
    assert!(result.receipt_present);
    assert_eq!(result.receipt, receipt);
}
