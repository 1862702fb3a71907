//! Wallet authentication: the caller proves control of a wallet by signing a
//! fixed consent message carrying their timestamp; on the first success a
//! user row is created, and a signed bearer token is returned.

use vstd::prelude::*;
use vstd::string::*;

use crate::handler::middleware::token_of;
use crate::model::user::User;
use crate::model::DbError;
use crate::service::Context;
use crate::strutil::i64_dec;
use crate::strutil::i64_to_string;
use crate::types::AuthRequest;
use crate::types::AuthResponse;

verus! {

/// Whether `signature` is a valid wallet signature over `message` for
/// `address`: a pure function of the three strings, computed by the wallet
/// crypto library.
pub uninterp spec fn wallet_sig_ok(
    address: Seq<char>,
    signature: Seq<char>,
    message: Seq<char>,
) -> bool;

/// Relies on ethers' `Signature::verify`, with the address and the signature
/// parsed from their string forms by the same crate; signature recovery is
/// deterministic in the three strings, and an unparsable address or signature
/// never verifies.
#[verifier::external_body]
fn verify_signature(address: &str, signature: &str, message: &str) -> (r: bool)
    ensures
        r == wallet_sig_ok(address@, signature@, message@),
{
    let address = match address.parse::<ethers_core::types::Address>() {
        Ok(a) => a,
        Err(_) => return false,
    };
    let signature = match signature.parse::<ethers_core::types::Signature>() {
        Ok(s) => s,
        Err(_) => return false,
    };
    signature.verify(message, address).is_ok()
}

/// Relies on jwt's `SignWithKey` over an HMAC-SHA256 key built from the
/// secret: signing the claims map `{"iat", "exp", "username"}` is a pure
/// function of the secret and the three claim strings, and it cannot fail
/// (the key accepts any length; serializing a map of strings and the HMAC
/// signer have no failure path). The claims are embedded in the token and
/// recoverable from it, so the token determines them.
#[verifier::external_body]
fn sign_claims(secret: &str, iat: &str, exp: &str, username: &str) -> (r: String)
    ensures
        r@ == token_of(secret@, iat@, exp@, username@),
        forall|i2: Seq<char>, e2: Seq<char>, u2: Seq<char>|
            r@ == #[trigger] token_of(secret@, i2, e2, u2) ==> i2 == iat@ && e2 == exp@ && u2
                == username@,
{
    let key: hmac::Hmac<sha2::Sha256> = hmac::Mac::new_from_slice(secret.as_bytes()).unwrap();
    let mut claims = std::collections::BTreeMap::new();
    claims.insert("iat", iat);
    claims.insert("exp", exp);
    claims.insert("username", username);
    jwt::SignWithKey::sign_with_key(claims, &key).unwrap()
}

/// The consent message a wallet signs, with the caller's timestamp.
pub open spec fn auth_message_spec(ts: int) -> Seq<char> {
    "I agree to connect my wallet to the simple push service. "@ + i64_dec(ts)
}

pub fn auth_message(timestamp: i64) -> (r: String)
    ensures
        r@ == auth_message_spec(timestamp as int),
{
    let mut s = String::from_str("I agree to connect my wallet to the simple push service. ");
    let ts = i64_to_string(timestamp);
    s.append(ts.as_str());
    s
}

#[derive(PartialEq, Eq, Structural, Debug)]
pub enum AuthError {
    /// The signature does not prove control of the address.
    InvalidSignature,
    /// A fresh user row could not be created (a unique column collided).
    Storage(DbError),
}

/// Authenticates a wallet: verifies the signature over the consent message,
/// creates the user on first contact (an existing row is never touched), and
/// returns a token carrying `iat = now`, `exp = now + access_expire` and the
/// wallet address. A valid signature for a known wallet is always answered
/// with a token; for a fresh wallet, the one remaining failure is a collision
/// of the freshly drawn credentials.
pub fn auth(ctx: &mut Context, data: &AuthRequest, now: i64) -> (r: Result<AuthResponse, AuthError>)
    requires
        old(ctx).inv(),
        old(ctx).users.next_id < i64::MAX,
        0 <= old(ctx).conf.server.access_expire,
        0 <= now <= i64::MAX - old(ctx).conf.server.access_expire,
    ensures
        final(ctx).inv(),
        final(ctx).conf == old(ctx).conf,
        final(ctx).transports == old(ctx).transports,
        final(ctx).messages == old(ctx).messages,
        final(ctx).tasks == old(ctx).tasks,
        final(ctx).queue == old(ctx).queue,
        final(ctx).in_flight == old(ctx).in_flight,
        final(ctx).skipped == old(ctx).skipped,
        old(ctx).users.next_id <= final(ctx).users.next_id <= old(ctx).users.next_id + 1,
        // rejected exactly on a bad signature, with nothing persisted
        !wallet_sig_ok(
            data.address@,
            data.signature@,
            auth_message_spec(data.timestamp as int),
        ) ==> r == Result::<AuthResponse, AuthError>::Err(AuthError::InvalidSignature) && *final(ctx)
            == *old(ctx),
        r matches Err(e) && e is InvalidSignature ==> !wallet_sig_ok(
            data.address@,
            data.signature@,
            auth_message_spec(data.timestamp as int),
        ),
        // a known wallet is owed success, and its row is never touched
        wallet_sig_ok(data.address@, data.signature@, auth_message_spec(data.timestamp as int))
            && old(ctx).users.has_wallet(data.address@) ==> r is Ok && final(ctx).users == old(
            ctx,
        ).users,
        // a fresh wallet gets exactly one new row and succeeds, unless its
        // freshly drawn credentials collided with an existing row
        wallet_sig_ok(data.address@, data.signature@, auth_message_spec(data.timestamp as int))
            && !old(ctx).users.has_wallet(data.address@) ==> match r {
            Err(e) => e matches AuthError::Storage(d) && d is Conflict && final(ctx).users == old(
                ctx,
            ).users,
            Ok(_) => {
                &&& final(ctx).users.rows@.len() == old(ctx).users.rows@.len() + 1
                &&& forall|i: int|
                    0 <= i < old(ctx).users.rows@.len() ==> final(ctx).users.rows@[i] == old(
                        ctx,
                    ).users.rows@[i]
                &&& final(ctx).users.rows@.last().wallet_address@ == data.address@
                &&& final(ctx).users.has_wallet(data.address@)
            },
        },
        // the token pins the claims: issued and expiry times, and the address
        r matches Ok(resp) ==> resp.access_token@ == token_of(
            old(ctx).conf.server.access_secret@,
            i64_dec(now as int),
            i64_dec(now + old(ctx).conf.server.access_expire),
            data.address@,
        ),
        // ... and the claims are recoverable from the token, so tokens issued
        // for different claims are different strings
        r matches Ok(resp) ==> forall|i2: Seq<char>, e2: Seq<char>, u2: Seq<char>|
            resp.access_token@ == #[trigger] token_of(
                old(ctx).conf.server.access_secret@,
                i2,
                e2,
                u2,
            ) ==> i2 == i64_dec(now as int) && e2 == i64_dec(
                now + old(ctx).conf.server.access_expire,
            ) && u2 == data.address@,
{
    let message = auth_message(data.timestamp);
    if !verify_signature(data.address.as_str(), data.signature.as_str(), message.as_str()) {
        return Err(AuthError::InvalidSignature);
    }
    let existing = ctx.users.find_one_by_wallet_address(data.address.as_str());
    if existing.is_err() {
        let user = User::new(data.address.as_str());
        match ctx.users.insert(&user) {
            Ok(_) => {
                proof {
                    assert(ctx.users.rows@.last().wallet_address@ == data.address@);
                    assert(ctx.users.has_wallet(data.address@));
                }
            },
            Err(d) => {
                return Err(AuthError::Storage(d));
            },
        }
    }
    let iat = i64_to_string(now);
    let exp = i64_to_string(now + ctx.conf.server.access_expire);
    let token = sign_claims(
        ctx.conf.server.access_secret.as_str(),
        iat.as_str(),
        exp.as_str(),
        data.address.as_str(),
    );
    Ok(AuthResponse { access_token: token })
}

/// Two authentications at different times issue tokens with distinct `iat`
/// claims: the decimal rendering of the time is injective.
pub proof fn lemma_distinct_iat_claims(now1: int, now2: int)
    requires
        now1 != now2,
    ensures
        i64_dec(now1) != i64_dec(now2),
{
    if i64_dec(now1) == i64_dec(now2) {
        crate::strutil::lemma_i64_dec_injective(now1, now2);
    }
}

/// Law (round trip): authenticating the same wallet twice at different times
/// succeeds both times once the wallet is known, leaves its user row exactly
/// as it was, and issues two distinct tokens (their `iat` claims differ).
pub fn reauth_round_trip(ctx: &mut Context, data: &AuthRequest, now1: i64, now2: i64) -> (r: (
    Result<AuthResponse, AuthError>,
    Result<AuthResponse, AuthError>,
))
    requires
        old(ctx).inv(),
        old(ctx).users.next_id < i64::MAX - 1,
        0 <= old(ctx).conf.server.access_expire,
        0 <= now1 <= i64::MAX - old(ctx).conf.server.access_expire,
        0 <= now2 <= i64::MAX - old(ctx).conf.server.access_expire,
        now1 != now2,
    ensures
        final(ctx).inv(),
        // a known wallet with a valid signature is answered twice, and its
        // row is untouched
        (wallet_sig_ok(data.address@, data.signature@, auth_message_spec(data.timestamp as int))
            && old(ctx).users.has_wallet(data.address@)) ==> (r.0 is Ok && r.1 is Ok
            && final(ctx).users == old(ctx).users),
        // whenever both calls answered, the two tokens are distinct strings
        (r.0 is Ok && r.1 is Ok) ==> (r.0->Ok_0).access_token@ != (r.1->Ok_0).access_token@,
{
    let ghost secret = ctx.conf.server.access_secret@;
    let r1 = auth(ctx, data, now1);
    let r2 = auth(ctx, data, now2);
    proof {
        if r1 is Ok && r2 is Ok {
            lemma_distinct_iat_claims(now1 as int, now2 as int);
            lemma_tokens_distinct(
                secret,
                (r1->Ok_0).access_token@,
                (r2->Ok_0).access_token@,
                i64_dec(now1 as int),
                i64_dec(now1 + old(ctx).conf.server.access_expire),
                data.address@,
                i64_dec(now2 as int),
                i64_dec(now2 + old(ctx).conf.server.access_expire),
                data.address@,
            );
        }
    }
    (r1, r2)
}

/// Law: tokens issued for distinct claims are distinct strings. The first
/// hypothesis is the claim-recovery clause `auth` ensures of its token; with
/// it, a second token for a different `iat` (or `exp`, or `username`) cannot
/// be the same string.
pub proof fn lemma_tokens_distinct(
    secret: Seq<char>,
    t1: Seq<char>,
    t2: Seq<char>,
    i1: Seq<char>,
    e1: Seq<char>,
    u1: Seq<char>,
    i2: Seq<char>,
    e2: Seq<char>,
    u2: Seq<char>,
)
    requires
        forall|ia: Seq<char>, ea: Seq<char>, ua: Seq<char>|
            t1 == #[trigger] token_of(secret, ia, ea, ua) ==> ia == i1 && ea == e1 && ua == u1,
        t1 == token_of(secret, i1, e1, u1),
        t2 == token_of(secret, i2, e2, u2),
        i1 != i2 || e1 != e2 || u1 != u2,
    ensures
        t1 != t2,
{
    if t1 == t2 {
        assert(t1 == token_of(secret, i2, e2, u2));
    }
}

} // verus!
