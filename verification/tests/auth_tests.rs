use ethers_core::k256::ecdsa::SigningKey;
use ethers_core::types::{Signature, U256};
use ethers_core::utils::{hash_message, secret_key_to_address};
use sps::config::{Config, Postgres, Redis, Server, Telegram};
use sps::handler::middleware::{AuthzError, JwtAuthMiddleware};
use sps::logic::auth_logic::{auth, auth_message, reauth_round_trip, AuthError};
use sps::service::Context;
use sps::types::AuthRequest;

fn auth_config() -> Config {
    Config {
        server: Server {
            port: 8080,
            access_expire: 3600,
            access_secret: String::from("SECRET-REDACTED"),
        },
        postgres: Postgres { dsn: String::from("postgres://localhost/demo") },
        redis: Redis {
            url: String::from("redis://localhost"),
            queue_name: String::from("task_queue"),
        },
        telegram: Telegram {
            url: String::from("https://example.invalid/"),
            token: String::from("SECRET-REDACTED"),
        },
    }
}

/// Produces a wallet, its address string, and a valid signature over the
/// consent message for `timestamp`.
fn signed_request(timestamp: i64) -> AuthRequest {
    let key = SigningKey::from_slice(&[7u8; 32]).unwrap();
    let address = secret_key_to_address(&key);
    let message = auth_message(timestamp);
    let digest = hash_message(message.as_str());
    let (sig, rid) = key.sign_prehash_recoverable(digest.as_bytes()).unwrap();
    let bytes = sig.to_bytes();
    let signature = Signature {
        r: U256::from_big_endian(&bytes[0..32]),
        s: U256::from_big_endian(&bytes[32..64]),
        v: (rid.to_byte() as u64) + 27,
    };
    AuthRequest {
        address: format!("{:?}", address),
        timestamp,
        signature: signature.to_string(),
    }
}

#[test]
fn valid_signature_creates_user_and_issues_token() {
    let mut ctx = Context::new(auth_config());
    let now = 1_700_000_000;
    let req = signed_request(now - 3);
    let resp = auth(&mut ctx, &req, now).unwrap();
    assert!(!resp.access_token.is_empty());
    assert_eq!(ctx.users.rows.len(), 1);
    assert_eq!(ctx.users.rows[0].wallet_address, req.address);

    // the token authorizes the bearer until it expires
    let mw = JwtAuthMiddleware::new("SECRET-REDACTED");
    let header = vec![format!("Bearer {}", resp.access_token)];
    let who = mw.authorize(&header, now + 10).unwrap();
    assert_eq!(who, req.address);
    // ... including at the expiry instant itself
    assert!(mw.authorize(&header, now + 3600).is_ok());
    // ... and not afterwards
    assert_eq!(mw.authorize(&header, now + 3601), Err(AuthzError::Expired));
    // ... and not under another secret
    let other = JwtAuthMiddleware::new("not-the-secret");
    assert_eq!(other.authorize(&header, now + 10), Err(AuthzError::Unauthorized));
}

#[test]
fn second_auth_keeps_the_user_row_and_rotates_the_token() {
    let mut ctx = Context::new(auth_config());
    let now1 = 1_700_000_000;
    let resp1 = auth(&mut ctx, &signed_request(now1 - 3), now1).unwrap();
    let open_id = ctx.users.rows[0].open_id.clone();
    let project_id = ctx.users.rows[0].project_id.clone();

    let now2 = now1 + 60;
    let resp2 = auth(&mut ctx, &signed_request(now2 - 3), now2).unwrap();
    // same row, untouched credentials
    assert_eq!(ctx.users.rows.len(), 1);
    assert_eq!(ctx.users.rows[0].open_id, open_id);
    assert_eq!(ctx.users.rows[0].project_id, project_id);
    // distinct tokens (the issued-at claim differs)
    assert_ne!(resp1.access_token, resp2.access_token);
}

#[test]
fn reauth_is_owed_a_fresh_token() {
    let mut ctx = Context::new(auth_config());
    let now = 1_700_000_000;
    let req = signed_request(now - 3);
    auth(&mut ctx, &req, now).unwrap();
    let (r1, r2) = reauth_round_trip(&mut ctx, &req, now + 10, now + 20);
    let (t1, t2) = (r1.unwrap().access_token, r2.unwrap().access_token);
    assert_ne!(t1, t2);
    assert_eq!(ctx.users.rows.len(), 1);
}

#[test]
fn tampered_signature_is_rejected() {
    let mut ctx = Context::new(auth_config());
    let now = 1_700_000_000;
    let mut req = signed_request(now);
    // signature over a different timestamp does not verify
    req.timestamp = now + 1;
    assert_eq!(auth(&mut ctx, &req, now).err(), Some(AuthError::InvalidSignature));
    assert_eq!(ctx.users.rows.len(), 0);

    let garbage = AuthRequest {
        address: String::from("0x0000000000000000000000000000000000000001"),
        timestamp: now,
        signature: String::from("not-a-signature"),
    };
    assert_eq!(auth(&mut ctx, &garbage, now).err(), Some(AuthError::InvalidSignature));
}

#[test]
fn missing_or_malformed_bearer_headers_are_unauthorized() {
    let mw = JwtAuthMiddleware::new("SECRET-REDACTED");
    let no_values: Vec<String> = Vec::new();
    assert_eq!(mw.authorize(&no_values, 0), Err(AuthzError::Unauthorized));
    let wrong = vec![String::from("Basic abc")];
    assert_eq!(mw.authorize(&wrong, 0), Err(AuthzError::Unauthorized));
    let junk = vec![String::from("Bearer junk.token.here")];
    assert_eq!(mw.authorize(&junk, 0), Err(AuthzError::Unauthorized));
}
