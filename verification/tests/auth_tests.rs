use smart_wallet::errors::Error;
use smart_wallet::state::Wallet;
use smart_wallet::types::{AuthContext, WalletType, WebAuthnSignature};

fn b(s: &str) -> Vec<u8> {
    s.as_bytes().to_vec()
}

fn pk(tag: u8) -> Vec<u8> {
    vec![tag; 65]
}

/// Authenticator data of the minimum valid length with the
/// user-present flag (bit 0 of byte 32) set.
fn good_auth_data() -> Vec<u8> {
    let mut d = vec![0u8; 37];
    d[32] = 0x01;
    d
}

fn proof_for(id: &str) -> WebAuthnSignature {
    WebAuthnSignature {
        id: b(id),
        authenticator_data: good_auth_data(),
        client_data_json: b("{\"type\":\"webauthn.get\",\"challenge\":\"abc\"}"),
        signature: vec![0u8; 64],
    }
}

fn wallet_with_session() -> Wallet {
    let mut w = Wallet::new();
    assert!(w
        .initialize(b("owner"), b("admin-key"), pk(1), None, WalletType::Standard, None, 0)
        .is_ok());
    assert!(w.add(b("session-key"), pk(2), false, 10).is_ok());
    w
}

#[test]
fn test_check_auth_ok() {
    let w = wallet_with_session();
    let r = w.check_auth(&proof_for("admin-key"), &vec![AuthContext::Other], true);
    assert!(r.is_ok());
}

#[test]
fn test_check_auth_unknown_credential() {
    let w = wallet_with_session();
    let r = w.check_auth(&proof_for("missing-key"), &vec![], true);
    assert_eq!(r, Err(Error::NotFound));
}

#[test]
fn test_check_auth_invalid_host_signature() {
    let w = wallet_with_session();
    let r = w.check_auth(&proof_for("admin-key"), &vec![], false);
    assert_eq!(r, Err(Error::InvalidSignature));
}

#[test]
fn test_check_auth_short_authenticator_data() {
    let w = wallet_with_session();
    let mut p = proof_for("admin-key");
    p.authenticator_data = vec![1u8; 36];
    assert_eq!(w.check_auth(&p, &vec![], true), Err(Error::InvalidSignature));
}

#[test]
fn test_check_auth_user_present_flag() {
    let w = wallet_with_session();
    let mut p = proof_for("admin-key");
    p.authenticator_data = vec![0u8; 37];
    assert_eq!(w.check_auth(&p, &vec![], true), Err(Error::InvalidSignature));
}

#[test]
fn test_check_auth_missing_challenge_marker() {
    let w = wallet_with_session();
    let mut p = proof_for("admin-key");
    p.client_data_json = b("{\"type\":\"webauthn.get\"}");
    assert_eq!(w.check_auth(&p, &vec![], true), Err(Error::InvalidSignature));
    // an empty client data certainly has no marker
    p.client_data_json = Vec::new();
    assert_eq!(w.check_auth(&p, &vec![], true), Err(Error::InvalidSignature));
}

#[test]
fn test_check_auth_session_scope() {
    let w = wallet_with_session();
    // a session credential may not authorize removing another credential
    let remove_other = vec![AuthContext::RemoveCredential { target_id: b("admin-key") }];
    assert_eq!(
        w.check_auth(&proof_for("session-key"), &remove_other, true),
        Err(Error::Unauthorized)
    );
    // it may remove itself
    let remove_self = vec![AuthContext::RemoveCredential { target_id: b("session-key") }];
    assert!(w.check_auth(&proof_for("session-key"), &remove_self, true).is_ok());
    // and other operations are within its scope
    assert!(w.check_auth(&proof_for("session-key"), &vec![AuthContext::Other], true).is_ok());
    // an administrative credential is unrestricted
    let remove_session = vec![AuthContext::RemoveCredential { target_id: b("session-key") }];
    assert!(w.check_auth(&proof_for("admin-key"), &remove_session, true).is_ok());
}

#[test]
fn test_check_auth_error_precedence() {
    // an unknown credential reports NotFound even with bad material
    let w = wallet_with_session();
    let mut p = proof_for("missing-key");
    p.client_data_json = Vec::new();
    assert_eq!(w.check_auth(&p, &vec![], false), Err(Error::NotFound));
    // the scope check precedes the signature verdict
    let remove_other = vec![AuthContext::RemoveCredential { target_id: b("admin-key") }];
    assert_eq!(
        w.check_auth(&proof_for("session-key"), &remove_other, false),
        Err(Error::Unauthorized)
    );
}
