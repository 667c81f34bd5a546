use email_gate::guards::{
    consumer_trust_guard, evaluate_chain, scope_authorization_guard, Guard, Outcome, Reason,
};
use email_gate::headers::Headers;
use email_gate::oauth2::{EmailValidationScopeAccess, OAuth2Access};
use email_gate::schemas::Email;
use email_gate::validate::{handle_validation_request, GateResponse};

fn deep_validation_guards() -> Vec<Guard> {
    vec![
        Guard::ConsumerTrust,
        Guard::ScopeAuthorization { required_scope: "email_validation".to_string() },
    ]
}

#[test]
fn consumer_present_is_authorized() {
    let mut h = Headers::new();
    h.insert("X-Consumer-Username".to_string(), "alice".to_string());
    assert_eq!(consumer_trust_guard(&h), Outcome::Authorized);
}

#[test]
fn consumer_empty_value_still_counts_as_present() {
    let mut h = Headers::new();
    h.insert("X-Consumer-Username".to_string(), "".to_string());
    assert_eq!(consumer_trust_guard(&h), Outcome::Authorized);
}

#[test]
fn consumer_missing_is_unauthorized() {
    let h = Headers::new();
    assert_eq!(
        consumer_trust_guard(&h),
        Outcome::Unauthorized(Reason::NotAuthenticated)
    );
}

#[test]
fn anonymous_marker_overrides_username() {
    let mut h = Headers::new();
    h.insert("X-Anonymous-Consumer".to_string(), "true".to_string());
    h.insert("X-Consumer-Username".to_string(), "alice".to_string());
    assert_eq!(
        consumer_trust_guard(&h),
        Outcome::Unauthorized(Reason::NotAuthenticated)
    );
}

#[test]
fn anonymous_marker_any_value_rejects() {
    let mut h = Headers::new();
    h.insert("x-anonymous-consumer".to_string(), "".to_string());
    h.insert("X-Consumer-Username".to_string(), "alice".to_string());
    assert_eq!(
        consumer_trust_guard(&h),
        Outcome::Unauthorized(Reason::NotAuthenticated)
    );
}

#[test]
fn header_names_fold_ascii_case() {
    let mut h = Headers::new();
    h.insert("x-CONSUMER-userNAME".to_string(), "alice".to_string());
    assert_eq!(consumer_trust_guard(&h), Outcome::Authorized);
    assert!(h.contains_name("X-Consumer-Username"));
    assert!(!h.contains_name("X-Authenticated-Scope"));
}

#[test]
fn get_first_returns_first_of_duplicates() {
    let mut h = Headers::new();
    h.insert("X-Authenticated-Scope".to_string(), "first".to_string());
    h.insert("x-authenticated-scope".to_string(), "second".to_string());
    assert_eq!(h.get_first("X-Authenticated-Scope").unwrap().as_str(), "first");
}

#[test]
fn scope_granted_when_listed() {
    let mut h = Headers::new();
    h.insert(
        "X-Authenticated-Scope".to_string(),
        "dns_validation,email_validation".to_string(),
    );
    let required = "email_validation".to_string();
    assert_eq!(scope_authorization_guard(&h, &required), Outcome::Authorized);
}

#[test]
fn scope_header_missing_is_its_own_refusal() {
    let h = Headers::new();
    let required = "email_validation".to_string();
    assert_eq!(
        scope_authorization_guard(&h, &required),
        Outcome::Unauthorized(Reason::NoScopeHeader)
    );
}

#[test]
fn scope_not_listed_is_refused() {
    let mut h = Headers::new();
    h.insert("X-Authenticated-Scope".to_string(), "dns_validation".to_string());
    let required = "email_validation".to_string();
    assert_eq!(
        scope_authorization_guard(&h, &required),
        Outcome::Unauthorized(Reason::ScopeNotGranted)
    );
}

#[test]
fn scope_comparison_is_byte_for_byte() {
    let mut h = Headers::new();
    h.insert(
        "X-Authenticated-Scope".to_string(),
        " email_validation,email_validation2,Email_Validation".to_string(),
    );
    let required = "email_validation".to_string();
    assert_eq!(
        scope_authorization_guard(&h, &required),
        Outcome::Unauthorized(Reason::ScopeNotGranted)
    );
}

#[test]
fn scope_token_is_not_a_substring_match() {
    let mut h = Headers::new();
    h.insert("X-Authenticated-Scope".to_string(), "xemail_validationx".to_string());
    let required = "email_validation".to_string();
    assert_eq!(
        scope_authorization_guard(&h, &required),
        Outcome::Unauthorized(Reason::ScopeNotGranted)
    );
}

#[test]
fn scope_guard_reads_the_first_scope_header() {
    let mut h = Headers::new();
    h.insert("X-Authenticated-Scope".to_string(), "dns_validation".to_string());
    h.insert("X-Authenticated-Scope".to_string(), "email_validation".to_string());
    let required = "email_validation".to_string();
    assert_eq!(
        scope_authorization_guard(&h, &required),
        Outcome::Unauthorized(Reason::ScopeNotGranted)
    );
}

#[test]
fn non_ascii_header_names_are_matched_verbatim() {
    let mut h = Headers::new();
    h.insert("x-consumer-\u{FC}sername".to_string(), "alice".to_string());
    assert!(!h.contains_name("x-consumer-username"));
    assert!(h.contains_name("x-consumer-\u{FC}sername"));
    assert_eq!(
        consumer_trust_guard(&h),
        Outcome::Unauthorized(Reason::NotAuthenticated)
    );
}

#[test]
fn guard_evaluation_is_idempotent() {
    let mut h = Headers::new();
    h.insert("X-Consumer-Username".to_string(), "alice".to_string());
    h.insert("X-Authenticated-Scope".to_string(), "email_validation".to_string());
    for g in deep_validation_guards() {
        assert_eq!(g.evaluate(&h), g.evaluate(&h));
    }
}

#[test]
fn chain_stops_at_first_refusal() {
    let h = Headers::new();
    let guards = deep_validation_guards();
    assert_eq!(
        evaluate_chain(&guards, &h),
        Outcome::Unauthorized(Reason::NotAuthenticated)
    );
}

#[test]
fn empty_chain_authorizes() {
    let h = Headers::new();
    let guards: Vec<Guard> = Vec::new();
    assert_eq!(evaluate_chain(&guards, &h), Outcome::Authorized);
}

#[test]
fn oauth2_access_follows_consumer_trust() {
    let mut h = Headers::new();
    h.insert("X-Consumer-Username".to_string(), "alice".to_string());
    assert!(OAuth2Access::from_request(&h).is_ok());
    h.insert("X-Anonymous-Consumer".to_string(), "true".to_string());
    assert_eq!(
        OAuth2Access::from_request(&h).err().unwrap(),
        Reason::NotAuthenticated
    );
}

#[test]
fn scope_access_requires_email_validation() {
    let mut h = Headers::new();
    h.insert("X-Authenticated-Scope".to_string(), "email_validation".to_string());
    assert!(EmailValidationScopeAccess::from_request(&h).is_ok());
    let bare = Headers::new();
    assert_eq!(
        EmailValidationScopeAccess::from_request(&bare).err().unwrap(),
        Reason::NoScopeHeader
    );
}

#[test]
fn refusal_messages_are_distinguishable() {
    let m1 = Reason::NotAuthenticated.message();
    let m2 = Reason::NoScopeHeader.message();
    let m3 = Reason::ScopeNotGranted.message();
    assert_eq!(m1, "user not authenticated");
    assert_eq!(m2, "no scope header");
    assert_eq!(m3, "required scope not granted");
    assert_ne!(m1, m2);
    assert_ne!(m2, m3);
    assert_ne!(m1, m3);
}

#[test]
fn scenario_username_but_no_scope_is_denied() {
    let mut h = Headers::new();
    h.insert("X-Consumer-Username".to_string(), "alice".to_string());
    let body = Email { address: "alice@example.com".to_string() };
    match handle_validation_request(&deep_validation_guards(), &h, &body) {
        GateResponse::Denied { status, reason } => {
            assert_eq!(status, 401);
            assert_eq!(reason, "no scope header");
        }
        GateResponse::Handled(_) => panic!("handler must not run without a scope"),
    }
}

#[test]
fn scenario_username_and_scope_reach_the_handler() {
    let mut h = Headers::new();
    h.insert("X-Consumer-Username".to_string(), "alice".to_string());
    h.insert(
        "X-Authenticated-Scope".to_string(),
        "dns_validation,email_validation".to_string(),
    );
    let body = Email { address: "alice@example.com".to_string() };
    match handle_validation_request(&deep_validation_guards(), &h, &body) {
        GateResponse::Handled(v) => {
            assert!(v.is_valid_syntax);
            assert_eq!(v.address, "alice@example.com");
            assert_eq!(v.username, "alice");
            assert_eq!(v.domain, "example.com");
        }
        GateResponse::Denied { .. } => panic!("both guards authorize"),
    }
}

#[test]
fn scenario_anonymous_consumer_is_denied() {
    let mut h = Headers::new();
    h.insert("X-Anonymous-Consumer".to_string(), "true".to_string());
    h.insert("X-Consumer-Username".to_string(), "alice".to_string());
    let body = Email { address: "alice@example.com".to_string() };
    match handle_validation_request(&deep_validation_guards(), &h, &body) {
        GateResponse::Denied { status, reason } => {
            assert_eq!(status, 401);
            assert_eq!(reason, "user not authenticated");
        }
        GateResponse::Handled(_) => panic!("anonymous marker must deny"),
    }
}

#[test]
fn scenario_empty_guard_list_handles_unconditionally() {
    let h = Headers::new();
    let guards: Vec<Guard> = Vec::new();
    let body = Email { address: "bob@example.com".to_string() };
    match handle_validation_request(&guards, &h, &body) {
        GateResponse::Handled(v) => {
            assert!(v.is_valid_syntax);
            assert_eq!(v.username, "bob");
        }
        GateResponse::Denied { .. } => panic!("an empty chain authorizes"),
    }
}
