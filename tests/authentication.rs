use monitor_server::auth::{
    basic_token_of, challenge, check_credentials, header_is_text, is_checkable_hash,
    is_checkable_password, AuthDecision, AuthMiddleware,
    AuthOutcome, UNAUTHORIZED_STATUS,
};
use monitor_server::credentials::parse_htpasswd;
use std::sync::Arc;

const STORE: &str = "alice:{SHA}Hpmwn264NTBVVcxDw+B2ixo5Ims=\n\
user:$apr1$lZL6V/ci$eIMz/iKDkbtys/uU7LEK00\n\
bcrypt_test:$2y$05$nC6nErr9XZJuMJ57WyCob.EuZEjylDt2KaHfbfOtyb.EgL1I2jCVa\n\
crypt_test:bGVh02xkuGli2\n\
short:$apr1$abc\n";

fn guard() -> AuthMiddleware {
    AuthMiddleware::new(Arc::new(parse_htpasswd(STORE)))
}

#[test]
fn valid_credentials_are_authorized() {
    let g = guard();
    let outcome = g.authorize(Some(b"Basic YWxpY2U6Y29ycmVjdHBhc3M="));
    assert_eq!(outcome, AuthOutcome::Authorized);
    assert_eq!(outcome.decision(), AuthDecision::Authorized);
}

#[test]
fn wrong_password_is_rejected() {
    let g = guard();
    let outcome = g.authorize(Some(b"Basic YWxpY2U6d3JvbmdwYXNz"));
    assert_eq!(outcome, AuthOutcome::BadCredentials);
    assert_eq!(outcome.decision(), AuthDecision::Rejected);
}

#[test]
fn unknown_user_is_rejected_like_a_wrong_password() {
    let g = guard();
    let unknown = g.authorize(Some(b"Basic bWFsbG9yeTpjb3JyZWN0cGFzcw=="));
    let wrong = g.authorize(Some(b"Basic YWxpY2U6d3JvbmdwYXNz"));
    assert_eq!(unknown, AuthOutcome::BadCredentials);
    assert_eq!(unknown, wrong);
    assert_eq!(unknown.decision(), wrong.decision());
}

#[test]
fn absent_header_is_rejected() {
    let g = guard();
    let outcome = g.authorize(None);
    assert_eq!(outcome, AuthOutcome::NoHeader);
    assert_eq!(outcome.decision(), AuthDecision::Rejected);
}

#[test]
fn malformed_headers_are_rejected() {
    let g = guard();
    for h in [
        &b"Bearer YWxpY2U6Y29ycmVjdHBhc3M="[..],
        b"Basic",
        b"Basic YWxpY2U6Y29ycmVjdHBhc3M= extra",
        b"Basic !!!not-base64!!!",
        b"Basic //46eA==",
        b"basic YWxpY2U6Y29ycmVjdHBhc3M=",
        b"",
        b"Basic \xc3\xa9",
    ] {
        let outcome = g.authorize(Some(h));
        assert_eq!(outcome, AuthOutcome::Malformed);
        assert_eq!(outcome.decision(), AuthDecision::Rejected);
    }
}

#[test]
fn blanks_around_the_words_are_allowed() {
    let g = guard();
    let outcome = g.authorize(Some(b"  Basic \t YWxpY2U6Y29ycmVjdHBhc3M=  "));
    assert_eq!(outcome, AuthOutcome::Authorized);
}

#[test]
fn credentials_without_separator_have_an_empty_password() {
    let store = parse_htpasswd(STORE);
    assert_eq!(check_credentials(&store, "alice"), AuthOutcome::BadCredentials);
    let g = guard();
    assert_eq!(g.authorize(Some(b"Basic YWxpY2U=")), AuthOutcome::BadCredentials);
}

#[test]
fn password_may_hold_the_separator() {
    let store = parse_htpasswd("bob:{SHA}W6ph5Mm5Pz8GgiULbPgzG37mj9g=\n");
    assert_eq!(check_credentials(&store, "bob:password"), AuthOutcome::Authorized);
    assert_eq!(check_credentials(&store, "bob:pass:word"), AuthOutcome::BadCredentials);
}

#[test]
fn every_hash_kind_is_checked() {
    let store = parse_htpasswd(STORE);
    assert_eq!(check_credentials(&store, "user:password"), AuthOutcome::Authorized);
    assert_eq!(check_credentials(&store, "user:passwort"), AuthOutcome::BadCredentials);
    assert_eq!(check_credentials(&store, "bcrypt_test:password"), AuthOutcome::Authorized);
    assert_eq!(check_credentials(&store, "bcrypt_test:other"), AuthOutcome::BadCredentials);
    assert_eq!(check_credentials(&store, "crypt_test:password"), AuthOutcome::Authorized);
    assert_eq!(check_credentials(&store, "crypt_test:other"), AuthOutcome::BadCredentials);
}

#[test]
fn a_truncated_stored_hash_is_rejected_without_failing() {
    let store = parse_htpasswd(STORE);
    assert_eq!(check_credentials(&store, "short:anything"), AuthOutcome::BadCredentials);
}

#[test]
fn header_text_and_token() {
    assert!(header_is_text(b"Basic abc\t"));
    assert!(!header_is_text(b"Basic \x7f"));
    assert_eq!(basic_token_of(b"Basic abc"), Some(b"abc".to_vec()));
    assert_eq!(basic_token_of(b"Basic"), None);
    assert_eq!(basic_token_of(b"Digest abc"), None);
}

#[test]
fn rejection_carries_the_challenge() {
    assert_eq!(UNAUTHORIZED_STATUS, 401);
    assert_eq!(challenge(), "Basic realm=\"Restricted\"");
}

#[test]
fn service_guard_shares_the_store() {
    let g = guard();
    let s = g.new_transform(7u32);
    assert_eq!(**s.service(), 7);
    assert_eq!(
        s.authorize(Some(b"Basic YWxpY2U6Y29ycmVjdHBhc3M=")),
        AuthOutcome::Authorized
    );
    assert_eq!(s.authorize(Some(b"Basic YWxpY2U6d3JvbmdwYXNz")), AuthOutcome::BadCredentials);
}

#[test]
fn a_long_password_for_an_apr1_hash_is_rejected_without_failing() {
    let store = parse_htpasswd(STORE);
    let text = format!("user:{}", "a".repeat(129));
    assert_eq!(check_credentials(&store, &text), AuthOutcome::BadCredentials);
    let text = format!("user:{}", "a".repeat(84));
    assert_eq!(check_credentials(&store, &text), AuthOutcome::BadCredentials);
    let text = format!("user:{}", "a".repeat(83));
    assert_eq!(check_credentials(&store, &text), AuthOutcome::BadCredentials);
    assert!(is_checkable_password("$apr1$lZL6V/ci$eIMz/iKDkbtys/uU7LEK00", &"a".repeat(83)));
    assert!(!is_checkable_password("$apr1$lZL6V/ci$eIMz/iKDkbtys/uU7LEK00", &"a".repeat(84)));
    assert!(is_checkable_password("{SHA}W6ph5Mm5Pz8GgiULbPgzG37mj9g=", &"a".repeat(200)));
}

#[test]
fn an_apr1_password_of_up_to_83_bytes_is_checked() {
    for len in [64usize, 65, 70, 83] {
        let password = "p".repeat(len);
        let store = parse_htpasswd(&format!("long:{}\n", apr1_hash_of(&password)));
        let good = format!("long:{}", password);
        assert_eq!(check_credentials(&store, &good), AuthOutcome::Authorized);
        let bad = format!("long:{}", "q".repeat(len));
        assert_eq!(check_credentials(&store, &bad), AuthOutcome::BadCredentials);
    }
}

fn apr1_hash_of(password: &str) -> String {
    let hash = htpasswd_verify::md5::md5_apr1_encode(password, "saltsalt");
    htpasswd_verify::md5::format_hash(&hash, "saltsalt")
}

#[test]
fn a_bcrypt_cost_with_one_digit_is_checked() {
    let store = parse_htpasswd(
        "b:$2y$5$nC6nErr9XZJuMJ57WyCob.EuZEjylDt2KaHfbfOtyb.EgL1I2jCVa\n",
    );
    assert_eq!(check_credentials(&store, "b:password"), AuthOutcome::Authorized);
    assert_eq!(check_credentials(&store, "b:other"), AuthOutcome::BadCredentials);
}

#[test]
fn hash_shapes_that_can_be_checked() {
    assert!(is_checkable_hash("$apr1$\u{e9}\u{e9}\u{e9}\u{e9}$abc"));
    assert!(!is_checkable_hash("$apr1$xxxxxxx\u{e9}abc"));
    assert!(!is_checkable_hash("$apr1$abc"));
    assert!(is_checkable_hash("$2y$05$nC6nErr9XZJuMJ57WyCob.EuZEjylDt2KaHfbfOtyb.EgL1I2jCVa"));
    assert!(!is_checkable_hash("$2y$99$nC6nErr9XZJuMJ57WyCob.EuZEjylDt2KaHfbfOtyb.EgL1I2jCVa"));
    assert!(!is_checkable_hash("$2y$05$nC6nErr9XZJuMJ57WyCob.EuZEjylDt2KaHfbfOtyb.EgL1I2jCVb"));
    assert!(is_checkable_hash("{SHA}anything"));
    assert!(is_checkable_hash("bGVh02xkuGli2"));
    assert!(is_checkable_hash("!\t"));
    assert!(!is_checkable_hash("a\t"));
    assert!(!is_checkable_hash("\u{80}x"));
    assert!(is_checkable_hash(""));
}
