use smart_wallet::errors::Error;
use smart_wallet::state::Wallet;
use smart_wallet::types::{TokenAction, WalletSettings, WalletType, RECOVERY_DELAY};

fn b(s: &str) -> Vec<u8> {
    s.as_bytes().to_vec()
}

fn pk(tag: u8) -> Vec<u8> {
    vec![tag; 65]
}

/// An initialized wallet of the given type and daily limit.
fn wallet(wallet_type: WalletType, daily_limit: i128) -> Wallet {
    let mut w = Wallet::new();
    let r = w.initialize(
        b("owner"),
        b("passkey-1"),
        pk(1),
        Some(daily_limit),
        wallet_type,
        None,
        1_000,
    );
    assert!(r.is_ok());
    w
}

#[test]
fn test_initialize_wallet() {
    let mut w = Wallet::new();
    let r = w.initialize(b("owner"), b("passkey-1"), pk(1), None, WalletType::Standard, None, 0);
    assert!(r.is_ok());
    // Should not be able to initialize twice
    let r2 = w.initialize(b("owner"), b("passkey-2"), pk(2), None, WalletType::Standard, None, 5);
    assert_eq!(r2, Err(Error::AlreadyInitialized));
    // and the first passkey is still the registered one
    assert!(w.has_credential(&b("passkey-1")));
    assert!(!w.has_credential(&b("passkey-2")));
}

#[test]
fn test_create_and_manage_wallet() {
    let mut w = Wallet::new();
    let usdc = b("USDC");
    let r = w.initialize(
        b("owner"),
        b("passkey-1"),
        pk(1),
        None,
        WalletType::Custom,
        Some(vec![usdc.clone()]),
        0,
    );
    assert!(r.is_ok());
    assert_eq!(w.get_wallet_type(), WalletType::Custom);
    assert_eq!(w.get_owner(), b("owner"));
    assert!(w.check_token_allowed(&usdc));
    assert!(!w.check_token_allowed(&b("XLM")));
    // Check initial balance-relevant state
    assert_eq!(w.get_daily_spending(0), 0);
    assert_eq!(w.get_transaction_history().len(), 0);
}

#[test]
fn test_last_admin_protected() {
    let mut w = wallet(WalletType::Standard, 1_000);
    assert_eq!(w.get_admin_count(), 1);
    // removing the sole admin always fails
    assert_eq!(w.remove(&b("passkey-1")), Err(Error::LastAdminProtected));
    // demoting the sole admin to a session credential fails too
    assert_eq!(w.add(b("passkey-1"), pk(1), false, 10), Err(Error::LastAdminProtected));
    // with a second admin, the first may leave
    assert!(w.add(b("passkey-2"), pk(2), true, 20).is_ok());
    assert_eq!(w.get_admin_count(), 2);
    assert!(w.remove(&b("passkey-1")).is_ok());
    assert_eq!(w.get_admin_count(), 1);
    assert_eq!(w.remove(&b("passkey-2")), Err(Error::LastAdminProtected));
    // unknown ids are NotFound
    assert_eq!(w.remove(&b("nobody")), Err(Error::NotFound));
}

#[test]
fn test_add_promote_demote() {
    let mut w = wallet(WalletType::Standard, 1_000);
    // a session credential joins
    assert!(w.add(b("session-1"), pk(3), false, 10).is_ok());
    assert_eq!(w.get_admin_count(), 1);
    assert!(w.has_credential(&b("session-1")));
    // promotion to admin
    assert!(w.add(b("session-1"), pk(3), true, 20).is_ok());
    assert_eq!(w.get_admin_count(), 2);
    // demotion back to session
    assert!(w.add(b("session-1"), pk(3), false, 30).is_ok());
    assert_eq!(w.get_admin_count(), 1);
    // session credentials leave unconditionally
    assert!(w.remove(&b("session-1")).is_ok());
    assert!(!w.has_credential(&b("session-1")));
}

#[test]
fn test_daily_rollover() {
    let mut w = wallet(WalletType::Standard, 1_000);
    let day0 = 2_000u64;
    let day1 = 86_400u64 + 2_000;
    assert!(w.send(&b("wallet"), &b("bob"), &b("USDC"), 600, day0, 10_000).is_ok());
    assert_eq!(w.get_daily_spending(day0), 600);
    // first read of the new day bucket rolls over to zero
    assert_eq!(w.get_daily_spending(day1), 0);
    // and the limit is fresh again
    assert!(w.send(&b("wallet"), &b("bob"), &b("USDC"), 1_000, day1, 10_000).is_ok());
    assert_eq!(w.get_daily_spending(day1), 1_000);
}

#[test]
fn test_daily_limit_boundary() {
    let mut w = wallet(WalletType::Standard, 1_000);
    let now = 3_000u64;
    // 600 fits
    assert!(w.send(&b("wallet"), &b("bob"), &b("USDC"), 600, now, 10_000).is_ok());
    // 600 + 500 = 1100 > 1000 is refused
    assert_eq!(
        w.send(&b("wallet"), &b("bob"), &b("USDC"), 500, now, 10_000),
        Err(Error::DailyLimitExceeded)
    );
    // 600 + 400 = 1000 is exactly the limit: the boundary is inclusive
    assert!(w.send(&b("wallet"), &b("bob"), &b("USDC"), 400, now, 10_000).is_ok());
    assert_eq!(w.get_daily_spending(now), 1_000);
    // nothing more fits today
    assert_eq!(
        w.send(&b("wallet"), &b("bob"), &b("USDC"), 1, now, 10_000),
        Err(Error::DailyLimitExceeded)
    );
}

#[test]
fn test_recovery_timing() {
    let mut w = wallet(WalletType::Standard, 1_000);
    let t0 = 5_000u64;
    assert!(w.initiate_recovery(b("rescue-key"), pk(9), t0).is_ok());
    // one tick too early
    assert_eq!(w.complete_recovery(t0 + RECOVERY_DELAY - 1), Err(Error::RecoveryPending));
    // exactly at the deadline the admin credential is replaced
    assert!(w.complete_recovery(t0 + RECOVERY_DELAY).is_ok());
    assert!(w.has_credential(&b("rescue-key")));
    assert!(!w.has_credential(&b("passkey-1")));
    assert_eq!(w.get_admin_count(), 1);
    // the request was consumed
    assert_eq!(w.complete_recovery(t0 + RECOVERY_DELAY), Err(Error::NoRecoveryPending));
}

#[test]
fn test_recovery_overwrite() {
    // a second initiate_recovery overwrites the pending request: the
    // deliberately permissive (front-runnable) behavior of the source
    let mut w = wallet(WalletType::Standard, 1_000);
    assert!(w.initiate_recovery(b("first-key"), pk(8), 100).is_ok());
    assert!(w.initiate_recovery(b("second-key"), pk(9), 200).is_ok());
    assert!(w.complete_recovery(200 + RECOVERY_DELAY).is_ok());
    assert!(w.has_credential(&b("second-key")));
    assert!(!w.has_credential(&b("first-key")));
}

#[test]
fn test_recovery_disabled() {
    // initialize always enables recovery, so flip the settings field
    // directly to exercise the disabled path
    let mut w = wallet(WalletType::Standard, 1_000);
    w.settings = Some(WalletSettings {
        daily_limit: 1_000,
        recovery_enabled: false,
        created_at: 1_000,
    });
    assert_eq!(w.initiate_recovery(b("rescue-key"), pk(9), 100), Err(Error::Unauthorized));
}

#[test]
fn test_token_policy() {
    let mut w = Wallet::new();
    // a Custom wallet with an empty allow-list rejects every token
    assert!(w
        .initialize(
            b("owner"),
            b("passkey-1"),
            pk(1),
            Some(1_000),
            WalletType::Custom,
            Some(vec![]),
            0
        )
        .is_ok());
    assert_eq!(w.deposit(&b("alice"), &b("USDC"), 50), Err(Error::TokenNotAllowed));
    assert_eq!(w.deposit(&b("alice"), &b("XLM"), 50), Err(Error::TokenNotAllowed));
    // after allowing one token, exactly that token is admitted
    assert!(w.update_allowed_tokens(vec![b("USDC")]).is_ok());
    match w.deposit(&b("alice"), &b("USDC"), 50) {
        Ok(TokenAction::TransferIn { from, token, amount }) => {
            assert_eq!(from, b("alice"));
            assert_eq!(token, b("USDC"));
            assert_eq!(amount, 50);
        }
        other => panic!("expected an inbound transfer, got {:?}", other),
    }
    assert_eq!(w.deposit(&b("alice"), &b("XLM"), 50), Err(Error::TokenNotAllowed));
}

#[test]
fn test_update_allowed_tokens_non_custom() {
    let mut w = wallet(WalletType::Standard, 1_000);
    assert_eq!(w.update_allowed_tokens(vec![b("USDC")]), Err(Error::Unauthorized));
    // a Standard wallet admits every token regardless
    assert!(w.check_token_allowed(&b("anything")));
}

#[test]
fn test_stable_coins_only_rejects() {
    // the curated stable-coin set is empty configuration, so the
    // StableCoinsOnly class admits no token
    let mut w = Wallet::new();
    assert!(w
        .initialize(b("owner"), b("passkey-1"), pk(1), None, WalletType::StableCoinsOnly, None, 0)
        .is_ok());
    assert!(!w.check_token_allowed(&b("USDC")));
    assert_eq!(w.deposit(&b("alice"), &b("USDC"), 50), Err(Error::TokenNotAllowed));
}

#[test]
fn test_history_cap() {
    let mut w = wallet(WalletType::Standard, 10_000_000);
    for i in 0..55u64 {
        let r = w.send(&b("wallet"), &b("bob"), &b("USDC"), 1, i, 1_000_000);
        assert!(r.is_ok());
    }
    let history = w.get_transaction_history();
    // exactly 50 records remain
    assert_eq!(history.len(), 50);
    // the oldest five were evicted: the first record is the 6th send
    assert_eq!(history[0].timestamp, 5);
    assert_eq!(history[49].timestamp, 54);
    for (i, tx) in history.iter().enumerate() {
        assert_eq!(tx.timestamp, 5 + i as u64);
        assert_eq!(tx.from, b("wallet"));
        assert_eq!(tx.to, b("bob"));
        assert_eq!(tx.token, b("USDC"));
        assert_eq!(tx.amount, 1);
        assert_eq!(tx.tx_hash, Vec::<u8>::new());
    }
}

#[test]
fn test_send_records_and_acts() {
    let mut w = wallet(WalletType::Standard, 1_000);
    match w.send(&b("wallet"), &b("bob"), &b("USDC"), 75, 500, 100) {
        Ok(TokenAction::TransferOut { to, token, amount }) => {
            assert_eq!(to, b("bob"));
            assert_eq!(token, b("USDC"));
            assert_eq!(amount, 75);
        }
        other => panic!("expected an outbound transfer, got {:?}", other),
    }
    let history = w.get_transaction_history();
    assert_eq!(history.len(), 1);
    assert_eq!(history[0].amount, 75);
    assert_eq!(history[0].timestamp, 500);
}

#[test]
fn test_withdraw_checks() {
    let mut w = wallet(WalletType::Standard, 1_000);
    // non-positive amounts are refused before anything else
    assert_eq!(w.withdraw(&b("USDC"), 0, &b("dest"), 100, 1_000), Err(Error::InvalidAmount));
    assert_eq!(w.withdraw(&b("USDC"), -5, &b("dest"), 100, 1_000), Err(Error::InvalidAmount));
    // a deficient ledger balance is refused
    assert_eq!(
        w.withdraw(&b("USDC"), 500, &b("dest"), 100, 499),
        Err(Error::InsufficientBalance)
    );
    // an admissible withdrawal hands back the outbound transfer
    match w.withdraw(&b("USDC"), 500, &b("dest"), 100, 500) {
        Ok(TokenAction::TransferOut { to, token, amount }) => {
            assert_eq!(to, b("dest"));
            assert_eq!(token, b("USDC"));
            assert_eq!(amount, 500);
        }
        other => panic!("expected an outbound transfer, got {:?}", other),
    }
    // withdrawals charge the daily limit but leave no history record
    assert_eq!(w.get_daily_spending(100), 500);
    assert_eq!(w.get_transaction_history().len(), 0);
}

#[test]
fn test_savings_only_restrictions() {
    let mut w = wallet(WalletType::SavingsOnly, 1_000);
    // withdrawals are blocked outright
    assert_eq!(w.withdraw(&b("USDC"), 10, &b("dest"), 100, 1_000), Err(Error::Unauthorized));
    // deposits are fine
    assert!(w.deposit(&b("alice"), &b("USDC"), 10).is_ok());
    // sends run at half the limit: 501 > 500 fails, 500 passes
    assert_eq!(
        w.send(&b("wallet"), &b("bob"), &b("USDC"), 501, 100, 10_000),
        Err(Error::DailyLimitExceeded)
    );
    assert!(w.send(&b("wallet"), &b("bob"), &b("USDC"), 500, 100, 10_000).is_ok());
}

#[test]
fn test_not_initialized() {
    let mut w = Wallet::new();
    assert_eq!(w.deposit(&b("alice"), &b("USDC"), 10), Err(Error::NotInitialized));
    assert_eq!(w.withdraw(&b("USDC"), 10, &b("dest"), 0, 100), Err(Error::NotInitialized));
    assert_eq!(
        w.send(&b("wallet"), &b("bob"), &b("USDC"), 10, 0, 100),
        Err(Error::NotInitialized)
    );
    assert_eq!(w.initiate_recovery(b("key"), pk(9), 0), Err(Error::NotInitialized));
    assert_eq!(w.update_passkey(b("key"), pk(9), 0), Err(Error::NotInitialized));
    assert_eq!(w.update_allowed_tokens(vec![b("USDC")]), Err(Error::NotInitialized));
    assert_eq!(w.complete_recovery(0), Err(Error::NoRecoveryPending));
    assert_eq!(w.remove(&b("key")), Err(Error::NotFound));
    assert_eq!(w.get_daily_spending(0), 0);
}

#[test]
fn test_deposit_invalid_amount() {
    let mut w = wallet(WalletType::Standard, 1_000);
    assert_eq!(w.deposit(&b("alice"), &b("USDC"), 0), Err(Error::InvalidAmount));
    assert_eq!(w.deposit(&b("alice"), &b("USDC"), -1), Err(Error::InvalidAmount));
    assert_eq!(
        w.send(&b("wallet"), &b("bob"), &b("USDC"), 10, 0, 9),
        Err(Error::InsufficientBalance)
    );
}

#[test]
fn test_update_passkey() {
    let mut w = wallet(WalletType::Standard, 1_000);
    assert!(w.update_passkey(b("new-passkey"), pk(5), 2_000).is_ok());
    assert!(w.has_credential(&b("new-passkey")));
    assert!(!w.has_credential(&b("passkey-1")));
    assert_eq!(w.get_admin_count(), 1);
}

#[test]
fn test_update_passkey_absorbs_duplicate_id() {
    // replacing the primary credential under an id that a session
    // credential already uses drops that session entry: ids stay unique
    let mut w = wallet(WalletType::Standard, 1_000);
    assert!(w.add(b("session-1"), pk(3), false, 10).is_ok());
    assert_eq!(w.signers.len(), 2);
    assert!(w.update_passkey(b("session-1"), pk(6), 20).is_ok());
    assert_eq!(w.signers.len(), 1);
    assert!(w.has_credential(&b("session-1")));
    assert!(!w.has_credential(&b("passkey-1")));
    assert_eq!(w.get_admin_count(), 1);
}

#[test]
fn test_add_bootstrap_forces_admin() {
    // the first-ever credential is administrative even when requested
    // as a session credential, and needs no prior initialization
    let mut w = Wallet::new();
    assert!(w.add(b("first"), pk(1), false, 0).is_ok());
    assert_eq!(w.get_admin_count(), 1);
    assert_eq!(w.remove(&b("first")), Err(Error::LastAdminProtected));
}
