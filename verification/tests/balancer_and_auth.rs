use api_gateway::auth::{
    AddToken, Auth, AuthRejection, GatewayAuthClaims, TokenCheck, MAX_TIMESTAMP,
    TOKEN_LIFETIME_SECS,
};
use api_gateway::balancer::RoundRobinLoadBalancer;
use api_gateway::headers::{is_header_text, strip_bearer};
use api_gateway::AppState;
use http::HeaderValue;

fn backends() -> Vec<String> {
    vec![
        "http://localhost:10001".to_string(),
        "http://localhost:10002".to_string(),
        "http://localhost:10003".to_string(),
    ]
}

#[test]
fn balancer_hands_out_backends_in_turn() {
    let mut lb = RoundRobinLoadBalancer::new(backends());
    assert_eq!(lb.len(), 3);
    assert_eq!(lb.get_next_url(), "http://localhost:10001");
    assert_eq!(lb.get_next_url(), "http://localhost:10002");
    assert_eq!(lb.get_next_url(), "http://localhost:10003");
    assert_eq!(lb.get_next_url(), "http://localhost:10001");
}

#[test]
fn balancer_full_cycle_serves_each_backend_once() {
    let mut lb = RoundRobinLoadBalancer::new(backends());
    let _ = lb.get_next_url();
    let mut seen: Vec<String> = Vec::new();
    for _ in 0..3 {
        seen.push(lb.get_next_url());
    }
    seen.sort();
    assert_eq!(seen, backends());
    // after a full cycle the turn is back at the second backend
    assert_eq!(lb.get_next_url(), "http://localhost:10002");
}

#[test]
fn balancer_with_one_backend_always_returns_it() {
    let mut lb = RoundRobinLoadBalancer::new(vec!["http://a".to_string()]);
    for _ in 0..4 {
        assert_eq!(lb.get_next_url(), "http://a");
    }
}

#[test]
fn app_state_holds_base_urls() {
    let state = AppState { base_url: backends() };
    assert_eq!(state.base_url.len(), 3);
}

#[test]
fn header_text_accepts_visible_ascii_and_tab_only() {
    assert!(is_header_text(b"Bearer abc.def"));
    assert!(is_header_text(b"a\tb ~"));
    assert!(is_header_text(b""));
    assert!(!is_header_text(b"a\nb"));
    assert!(!is_header_text(b"\x7f"));
    assert!(!is_header_text("caf\u{e9}".as_bytes()));
    assert!(!is_header_text(b"\x1f"));
}

#[test]
fn strip_bearer_removes_every_occurrence() {
    assert_eq!(strip_bearer(b"Bearer abc"), b"abc".to_vec());
    assert_eq!(strip_bearer(b"abc"), b"abc".to_vec());
    assert_eq!(strip_bearer(b"Bearer Bearer x"), b"x".to_vec());
    assert_eq!(strip_bearer(b"xBearer y"), b"xy".to_vec());
    assert_eq!(strip_bearer(b"Bearer"), b"Bearer".to_vec());
    assert_eq!(strip_bearer(b"bearer abc"), b"bearer abc".to_vec());
    assert_eq!(strip_bearer(b"BBearer q"), b"Bq".to_vec());
    assert_eq!(strip_bearer(b""), Vec::<u8>::new());
}

#[test]
fn auth_rejects_missing_header() {
    let guard = Auth.new_transform(());
    assert_eq!(guard.credentials(None), Err(AuthRejection::NotLoggedIn));
}

#[test]
fn auth_rejects_header_that_is_not_text() {
    let guard = Auth.new_transform(());
    let raw = HeaderValue::from_str("Bearer caf\u{e9}").unwrap();
    assert_eq!(guard.credentials(Some(&raw)), Err(AuthRejection::MissingCreds));
    let high = HeaderValue::from_bytes(&[66, 200, 65]).unwrap();
    assert_eq!(guard.credentials(Some(&high)), Err(AuthRejection::MissingCreds));
}

#[test]
fn auth_presents_stripped_token() {
    let guard = Auth.new_transform(7u32);
    assert_eq!(*guard.inner(), 7u32);
    let raw = HeaderValue::from_static("Bearer eyJ.payload.sig");
    assert_eq!(guard.credentials(Some(&raw)), Ok(b"eyJ.payload.sig".to_vec()));
    let bare = HeaderValue::from_static("eyJ.payload.sig");
    assert_eq!(guard.credentials(Some(&bare)), Ok(b"eyJ.payload.sig".to_vec()));
    let tabbed = HeaderValue::from_static("Bearer\tx Bearer y");
    assert_eq!(guard.credentials(Some(&tabbed)), Ok(b"Bearer\tx y".to_vec()));
}

#[test]
fn auth_verdicts() {
    let guard = Auth.new_transform(());
    assert_eq!(guard.verdict(TokenCheck::Accepted), Ok(()));
    assert_eq!(guard.verdict(TokenCheck::Expired), Err(AuthRejection::TokenExpired));
    assert_eq!(guard.verdict(TokenCheck::Rejected), Err(AuthRejection::InvalidToken));
}

#[test]
fn rejection_messages() {
    assert_eq!(AuthRejection::NotLoggedIn.message(), "Not Logged In");
    assert_eq!(AuthRejection::MissingCreds.message(), "Missing Creds");
    assert_eq!(AuthRejection::TokenExpired.message(), "Token Expired");
    assert_eq!(AuthRejection::InvalidToken.message(), "Invalid Token");
}

#[test]
fn claims_issued_at_expire_after_seventy_two_hours() {
    let claims = GatewayAuthClaims::issued_at("gateway".to_string(), true, 1_700_000_000);
    assert_eq!(claims.iss, "gateway");
    assert!(claims.gateway_access);
    assert_eq!(claims.iat, 1_700_000_000);
    assert_eq!(claims.exp, 1_700_259_200);
    assert_eq!(TOKEN_LIFETIME_SECS, 72 * 60 * 60);
}

#[test]
fn claims_issued_at_latest_representable_second() {
    let iat = MAX_TIMESTAMP - TOKEN_LIFETIME_SECS;
    let claims = GatewayAuthClaims::issued_at("x".to_string(), false, iat);
    assert_eq!(claims.exp, MAX_TIMESTAMP);
    assert!(!claims.gateway_access);
}

#[test]
fn claims_new_at_clock_reading() {
    let claims = GatewayAuthClaims::new("gateway".to_string(), true, 1_700_000_000).unwrap();
    assert_eq!(claims.iat, 1_700_000_000);
    assert_eq!(claims.exp, 1_700_259_200);
    assert_eq!(claims.iss, "gateway");
    assert!(claims.gateway_access);
}

#[test]
fn add_token_claims_are_for_the_gateway() {
    let mw = AddToken.new_transform("svc");
    assert_eq!(*mw.inner(), "svc");
    let claims = mw.claims(86_400).unwrap();
    assert_eq!(claims.iat, 86_400);
    assert!(mw.claims(MAX_TIMESTAMP).is_none());
    assert_eq!(claims.iss, "gateway");
    assert!(claims.gateway_access);
    assert_eq!(claims.exp - claims.iat, TOKEN_LIFETIME_SECS);
}

#[test]
fn add_token_frames_bearer_credentials() {
    let mw = AddToken.new_transform(());
    assert_eq!(mw.bearer_credentials("abc.def.ghi"), "Bearer abc.def.ghi");
    assert_eq!(mw.bearer_credentials(""), "Bearer ");
}

#[test]
fn add_token_header_value_holds_credentials() {
    let mw = AddToken.new_transform(());
    let value = mw.authorization_value("abc.def.ghi").unwrap();
    assert_eq!(value.as_bytes(), b"Bearer abc.def.ghi");
    assert_eq!(value.to_str().unwrap(), "Bearer abc.def.ghi");
}

#[test]
fn add_token_header_value_refuses_control_characters() {
    let mw = AddToken.new_transform(());
    assert!(mw.authorization_value("abc\ndef").is_none());
    assert!(mw.authorization_value("abc\u{7f}").is_none());
    assert!(mw.authorization_value("abc\tdef").is_some());
}

#[test]
fn framed_token_is_read_back_by_the_gate() {
    let add = AddToken.new_transform(());
    let guard = Auth.new_transform(());
    let token = "eyJhbGciOiJIUzI1NiJ9.eyJpc3MiOiJnYXRld2F5In0.c2ln";
    let value = add.authorization_value(token).unwrap();
    assert_eq!(guard.credentials(Some(&value)), Ok(token.as_bytes().to_vec()));
}

#[test]
fn claims_new_refuses_unrepresentable_expiry() {
    let last = MAX_TIMESTAMP - TOKEN_LIFETIME_SECS;
    let claims = GatewayAuthClaims::new("gateway".to_string(), true, last).unwrap();
    assert_eq!(claims.iat, last);
    assert_eq!(claims.exp, MAX_TIMESTAMP);
    assert!(GatewayAuthClaims::new("gateway".to_string(), true, last + 1).is_none());
    let claims = GatewayAuthClaims::new("g".to_string(), false, 0).unwrap();
    assert_eq!(claims.exp, 259_200);
    assert!(!claims.gateway_access);
}

#[test]
fn add_token_header_depends_only_on_token() {
    let one = AddToken.new_transform(1u8);
    let two = AddToken.new_transform("other");
    let token = "aaa.bbb.ccc";
    assert_eq!(one.authorization_value(token), two.authorization_value(token));
    assert_ne!(one.authorization_value(token), one.authorization_value("aaa.bbb.ccd"));
}
