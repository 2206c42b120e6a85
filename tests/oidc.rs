use flashmind::config::{collect_provider_configs, extract_provider_name, field_of_key, split_provider_key, ProviderConfig, ProviderField};
use flashmind::error::AuthError;
use flashmind::flow::{check_callback, claims_from_exchange, complete_login, initiate, ExchangeOutcome, IdClaims};
use flashmind::registry::{discovery_targets, redirect_uri_for, DiscoveryTarget, OIDCProviders};
use flashmind::session::{authenticate, CurrentUser, SessionState};
use flashmind::settings::AppConfig;
use flashmind::text::{has_prefix, has_suffix, same_text};
use flashmind::users::{ProfilePolicy, UserDirectory};

fn pairs(items: &[(&str, &str)]) -> Vec<(String, String)> {
    items.iter().map(|(k, v)| (k.to_string(), v.to_string())).collect()
}

fn google_env() -> Vec<(String, String)> {
    pairs(&[
        ("GOOGLE_OIDC_CLIENT_ID", "abc"),
        ("GOOGLE_OIDC_CLIENT_SECRET", "def"),
        ("GOOGLE_OIDC_ISSUER_URL", "https://accounts.example.com"),
        ("PATH", "/usr/bin"),
    ])
}

fn config_for<'a>(configs: &'a [ProviderConfig], id: &str) -> &'a ProviderConfig {
    configs.iter().find(|c| c.id == id).expect("provider present")
}

fn targets_for_env(env: &Vec<(String, String)>) -> Vec<DiscoveryTarget> {
    let configs = collect_provider_configs(env);
    discovery_targets(&configs, "http://localhost:3000/login")
}

fn registry_with(ids: &[&str]) -> OIDCProviders<u32> {
    let mut env = Vec::new();
    for id in ids {
        let up = id.to_uppercase();
        env.push((format!("{up}_OIDC_CLIENT_ID"), format!("{id}-client")));
        env.push((format!("{up}_OIDC_CLIENT_SECRET"), "secret".to_string()));
        env.push((format!("{up}_OIDC_ISSUER_URL"), format!("https://{id}.example.com")));
    }
    let targets = targets_for_env(&env);
    let outcomes = (0..targets.len()).map(|i| Some(i as u32)).collect();
    OIDCProviders::assemble(&targets, outcomes)
}

#[test]
fn text_helpers() {
    assert!(same_text("abc", "abc"));
    assert!(!same_text("abc", "abd"));
    assert!(!same_text("abc", "ab"));
    assert!(has_suffix("GOOGLE_OIDC_NAME", "_OIDC_NAME"));
    assert!(!has_suffix("NAME", "_OIDC_NAME"));
    assert!(has_prefix("FLASHMIND_APP_FINGERPRINT_1", "FLASHMIND_APP_FINGERPRINT"));
    assert!(!has_prefix("FLASHMIND", "FLASHMIND_APP"));
}

#[test]
fn provider_name_from_each_suffix() {
    assert_eq!(extract_provider_name("GOOGLE_OIDC_CLIENT_ID"), Some("google".to_string()));
    assert_eq!(extract_provider_name("GOOGLE_OIDC_CLIENT_SECRET"), Some("google".to_string()));
    assert_eq!(extract_provider_name("MY_IDP_OIDC_ISSUER_URL"), Some("my_idp".to_string()));
    assert_eq!(extract_provider_name("GitLab_OIDC_NAME"), Some("gitlab".to_string()));
    assert_eq!(extract_provider_name("KC_OIDC_ICON_URL"), Some("kc".to_string()));
    assert_eq!(extract_provider_name("PATH"), None);
    assert_eq!(extract_provider_name("GOOGLE_OIDC_CLIENT"), None);
}

#[test]
fn split_keeps_case_and_field() {
    let (prefix, field) = split_provider_key("GitLab_OIDC_ISSUER_URL").unwrap();
    assert_eq!(prefix, "GitLab");
    assert_eq!(field, ProviderField::IssuerUrl);
    assert_eq!(field_of_key("X_OIDC_ICON_URL"), Some(ProviderField::IconUrl));
    assert_eq!(field_of_key("X_OIDC_CLIENT_ID"), Some(ProviderField::ClientId));
    assert!(split_provider_key("HOME").is_none());
}

#[test]
fn configs_grouped_by_provider() {
    let env = pairs(&[
        ("GOOGLE_OIDC_CLIENT_ID", "abc"),
        ("GITLAB_OIDC_NAME", "GitLab"),
        ("GOOGLE_OIDC_ICON_URL", "https://g/icon.png"),
        ("HOME", "/root"),
        ("GITLAB_OIDC_CLIENT_SECRET", "s"),
    ]);
    let configs = collect_provider_configs(&env);
    assert_eq!(configs.len(), 2);
    let google = config_for(&configs, "google");
    assert_eq!(google.client_id, "abc");
    assert_eq!(google.icon_url, "https://g/icon.png");
    assert_eq!(google.client_secret, "");
    let gitlab = config_for(&configs, "gitlab");
    assert_eq!(gitlab.name, "GitLab");
    assert_eq!(gitlab.client_secret, "s");
}

#[test]
fn key_order_does_not_matter() {
    let mut env = google_env();
    let a = collect_provider_configs(&env);
    env.reverse();
    let b = collect_provider_configs(&env);
    let (a, b) = (config_for(&a, "google"), config_for(&b, "google"));
    assert_eq!(a.client_id, b.client_id);
    assert_eq!(a.client_secret, b.client_secret);
    assert_eq!(a.issuer_url, b.issuer_url);
}

#[test]
fn later_value_wins_for_same_setting() {
    let env = pairs(&[("GOOGLE_OIDC_CLIENT_ID", "first"), ("google_OIDC_CLIENT_ID", "second")]);
    let configs = collect_provider_configs(&env);
    assert_eq!(configs.len(), 1);
    assert_eq!(configs[0].client_id, "second");
}

#[test]
fn redirect_uri_joins_base_and_id() {
    assert_eq!(redirect_uri_for("http://localhost:3000/login", "google"), "http://localhost:3000/login/google");
    assert_eq!(redirect_uri_for("", "x"), "/x");
}

#[test]
fn only_complete_providers_reach_discovery() {
    let env = pairs(&[
        ("GOOGLE_OIDC_CLIENT_ID", "abc"),
        ("GOOGLE_OIDC_CLIENT_SECRET", "def"),
        ("GOOGLE_OIDC_ISSUER_URL", "https://accounts.example.com"),
        ("GOOGLE_OIDC_NAME", "Google"),
        ("HALF_OIDC_CLIENT_ID", "id"),
        ("HALF_OIDC_ISSUER_URL", "https://half.example.com"),
        ("EMPTY_OIDC_CLIENT_ID", "id"),
        ("EMPTY_OIDC_CLIENT_SECRET", ""),
        ("EMPTY_OIDC_ISSUER_URL", "https://empty.example.com"),
    ]);
    let targets = targets_for_env(&env);
    assert_eq!(targets.len(), 1);
    let t = &targets[0];
    assert_eq!(t.id, "google");
    assert_eq!(t.client_id, "abc");
    assert_eq!(t.client_secret, "def");
    assert_eq!(t.issuer_url, "https://accounts.example.com");
    assert_eq!(t.redirect_uri, "http://localhost:3000/login/google");
    assert_eq!(t.name, Some("Google".to_string()));
    assert_eq!(t.icon_url, None);
    assert_eq!(t.issuer.as_str(), "https://accounts.example.com");
    assert_eq!(t.redirect.as_str(), "http://localhost:3000/login/google");
}

#[test]
fn unparsable_issuer_is_dropped() {
    let env = pairs(&[
        ("BAD_OIDC_CLIENT_ID", "id"),
        ("BAD_OIDC_CLIENT_SECRET", "secret"),
        ("BAD_OIDC_ISSUER_URL", "not a url"),
    ]);
    assert!(targets_for_env(&env).is_empty());
}

#[test]
fn failed_discovery_leaves_others_in() {
    let env = pairs(&[
        ("A_OIDC_CLIENT_ID", "a"),
        ("A_OIDC_CLIENT_SECRET", "s"),
        ("A_OIDC_ISSUER_URL", "https://a.example.com"),
        ("B_OIDC_CLIENT_ID", "b"),
        ("B_OIDC_CLIENT_SECRET", "s"),
        ("B_OIDC_ISSUER_URL", "https://b.example.com"),
    ]);
    let targets = targets_for_env(&env);
    assert_eq!(targets.len(), 2);
    let outcomes: Vec<Option<u32>> = targets.iter().map(|t| if t.id == "a" { None } else { Some(7) }).collect();
    let registry = OIDCProviders::assemble(&targets, outcomes);
    assert!(registry.lookup("a").is_none());
    let b = registry.lookup("b").expect("b stays");
    assert_eq!(b.client, 7);
    assert_eq!(b.client_id, "b");
    assert_eq!(registry.providers.len(), 1);
}

#[test]
fn listing_shows_public_fields_only() {
    let env = google_env();
    let targets = targets_for_env(&env);
    let registry = OIDCProviders::assemble(&targets, vec![Some(1u32)]);
    let list = registry.descriptors();
    assert_eq!(list.len(), 1);
    assert_eq!(list[0].id, "google");
    assert_eq!(list[0].client_id, "abc");
    assert_eq!(list[0].issuer_url, "https://accounts.example.com");
    assert_eq!(list[0].name, None);
    assert_eq!(list[0].icon_url, None);
}

#[test]
fn lookup_unknown_provider() {
    let registry = registry_with(&["google"]);
    assert!(registry.lookup("google").is_some());
    assert!(registry.lookup("github").is_none());
}

#[test]
fn initiate_stores_state_in_session() {
    let registry = registry_with(&["google"]);
    let mut session = SessionState::new();
    assert_eq!(initiate(&registry, "google", "csrf-1".to_string(), "nonce-1".to_string(), &mut session), Ok(()));
    assert_eq!(session.csrf_token.as_deref(), Some("csrf-1"));
    assert_eq!(session.nonce.as_deref(), Some("nonce-1"));
    assert_eq!(check_callback(&registry, "google", "csrf-1", &session), Ok("nonce-1".to_string()));
}

#[test]
fn second_initiate_overwrites_first() {
    let registry = registry_with(&["google"]);
    let mut session = SessionState::new();
    initiate(&registry, "google", "first".to_string(), "n1".to_string(), &mut session).unwrap();
    initiate(&registry, "google", "second".to_string(), "n2".to_string(), &mut session).unwrap();
    assert_eq!(check_callback(&registry, "google", "first", &session), Err(AuthError::CsrfMismatch));
    assert_eq!(check_callback(&registry, "google", "second", &session), Ok("n2".to_string()));
}

#[test]
fn initiate_unknown_provider() {
    let registry = registry_with(&["google"]);
    let mut session = SessionState::new();
    let r = initiate(&registry, "nope", "c".to_string(), "n".to_string(), &mut session);
    assert_eq!(r, Err(AuthError::ProviderNotFound));
    assert_eq!(r.unwrap_err().status_code(), 404);
    assert!(session.csrf_token.is_none());
}

#[test]
fn callback_with_wrong_state_is_forbidden() {
    let registry = registry_with(&["google"]);
    let mut session = SessionState::new();
    initiate(&registry, "google", "expected".to_string(), "n".to_string(), &mut session).unwrap();
    let r = check_callback(&registry, "google", "forged", &session);
    assert_eq!(r, Err(AuthError::CsrfMismatch));
    assert_eq!(r.unwrap_err().status_code(), 403);
    assert!(session.identity.is_none());
    assert_eq!(session.csrf_token.as_deref(), Some("expected"));
}

#[test]
fn callback_without_attempt() {
    let registry = registry_with(&["google"]);
    let session = SessionState::new();
    let r = check_callback(&registry, "google", "x", &session);
    assert_eq!(r, Err(AuthError::MissingSessionState));
    assert_eq!(r.unwrap_err().status_code(), 400);
    assert_eq!(check_callback(&registry, "other", "x", &session), Err(AuthError::ProviderNotFound));
}

fn claims(subject: &str, name: Option<&str>, email: Option<&str>) -> IdClaims {
    IdClaims {
        subject: subject.to_string(),
        name: name.map(str::to_string),
        email: email.map(str::to_string),
    }
}

#[test]
fn replayed_callback_is_refused() {
    let registry = registry_with(&["google"]);
    let mut directory = UserDirectory::new();
    let mut session = SessionState::new();
    initiate(&registry, "google", "st".to_string(), "n".to_string(), &mut session).unwrap();
    let nonce = check_callback(&registry, "google", "st", &session).unwrap();
    assert_eq!(nonce, "n");
    let user = complete_login(&mut directory, &mut session, "google", claims("sub-1", Some("Ann"), None), ProfilePolicy::Persist);
    assert_eq!(user.user_id, 1);
    assert_eq!(session.identity.as_ref().unwrap().subject_id, "sub-1");
    assert!(session.csrf_token.is_none() && session.nonce.is_none());
    assert_eq!(check_callback(&registry, "google", "st", &session), Err(AuthError::MissingSessionState));
}

#[test]
fn exchange_outcomes_map_to_errors() {
    let r = claims_from_exchange(ExchangeOutcome::Denied("invalid_grant".to_string()));
    assert_eq!(r.as_ref().err(), Some(&AuthError::AuthorizationDenied("invalid_grant".to_string())));
    assert_eq!(r.err().unwrap().status_code(), 400);
    let r = claims_from_exchange(ExchangeOutcome::Unreachable).err().unwrap();
    assert_eq!(r, AuthError::ProviderUnreachable);
    assert_eq!(r.status_code(), 502);
    let r = claims_from_exchange(ExchangeOutcome::MissingIdToken).err().unwrap();
    assert_eq!(r, AuthError::MalformedProviderResponse);
    assert_eq!(r.status_code(), 500);
    let r = claims_from_exchange(ExchangeOutcome::VerificationFailed).err().unwrap();
    assert_eq!(r, AuthError::TokenVerificationFailed);
    assert_eq!(r.status_code(), 403);
    let c = claims_from_exchange(ExchangeOutcome::Verified(claims("s", None, Some("e@x")))).ok().unwrap();
    assert_eq!(c.subject, "s");
    assert_eq!(c.email.as_deref(), Some("e@x"));
}

#[test]
fn protected_route_without_identity() {
    let session = SessionState::new();
    let r = authenticate(&session);
    assert!(matches!(r, Err(AuthError::Unauthenticated)));
    assert_eq!(r.err().unwrap().status_code(), 401);
}

#[test]
fn protected_route_with_identity() {
    let mut session = SessionState::new();
    session.sign_in(CurrentUser {
        user_id: 4,
        subject_id: "s".to_string(),
        provider: "google".to_string(),
        display_name: None,
        email: Some("a@b".to_string()),
    });
    let u = authenticate(&session).ok().unwrap();
    assert_eq!(u.user_id, 4);
    assert_eq!(u.email.as_deref(), Some("a@b"));
    session.destroy();
    assert!(authenticate(&session).is_err());
}

#[test]
fn same_pair_twice_gives_one_user() {
    let mut directory = UserDirectory::new();
    let a = directory.reconcile("sub".to_string(), "google".to_string(), Some("A".to_string()), None, ProfilePolicy::Persist);
    let b = directory.reconcile("sub".to_string(), "google".to_string(), Some("B".to_string()), None, ProfilePolicy::Persist);
    assert_eq!(a.user_id, b.user_id);
    assert_eq!(directory.users.len(), 1);
    assert_eq!(b.display_name.as_deref(), Some("B"));
}

#[test]
fn distinct_pairs_get_distinct_ids() {
    let mut directory = UserDirectory::new();
    let a = directory.reconcile("sub".to_string(), "google".to_string(), None, None, ProfilePolicy::Persist);
    let b = directory.reconcile("sub".to_string(), "gitlab".to_string(), None, None, ProfilePolicy::Persist);
    let c = directory.reconcile("other".to_string(), "google".to_string(), None, None, ProfilePolicy::Persist);
    assert_eq!((a.user_id, b.user_id, c.user_id), (1, 2, 3));
    assert_eq!(directory.users.len(), 3);
    assert!(directory.has_room());
}

#[test]
fn profile_policy_decides_what_is_stored() {
    let mut kept = UserDirectory::new();
    kept.reconcile("s".to_string(), "p".to_string(), Some("Old".to_string()), None, ProfilePolicy::ReturnOnly);
    let again = kept.reconcile("s".to_string(), "p".to_string(), Some("New".to_string()), Some("n@x".to_string()), ProfilePolicy::ReturnOnly);
    assert_eq!(again.display_name.as_deref(), Some("New"));
    assert_eq!(again.email.as_deref(), Some("n@x"));
    assert_eq!(kept.users[0].display_name.as_deref(), Some("Old"));

    let mut stored = UserDirectory::new();
    stored.reconcile("s".to_string(), "p".to_string(), Some("Old".to_string()), None, ProfilePolicy::Persist);
    stored.reconcile("s".to_string(), "p".to_string(), Some("New".to_string()), None, ProfilePolicy::Persist);
    assert_eq!(stored.users[0].display_name.as_deref(), Some("New"));
}

#[test]
fn end_to_end_google_listing() {
    let env = google_env();
    let targets = targets_for_env(&env);
    let registry = OIDCProviders::assemble(&targets, vec![Some(0u32)]);
    let list = registry.descriptors();
    assert!(list.iter().any(|d| d.id == "google" && d.client_id == "abc" && d.issuer_url == "https://accounts.example.com"));
}

#[test]
fn app_config_from_vars() {
    let env = pairs(&[
        ("FLASHMIND_DB_URL", "sqlite://db"),
        ("FLASHMIND_APP_FINGERPRINT_A", "AA"),
        ("FLASHMIND_LISTEN_ADDR", "0.0.0.0:80"),
        ("FLASHMIND_APP_FINGERPRINT_B", "BB"),
    ]);
    let c = AppConfig::from_vars(&env).unwrap();
    assert_eq!(c.db_url, "sqlite://db");
    assert_eq!(c.listen_addr, "0.0.0.0:80");
    assert_eq!(c.public_url, "http://localhost:3000");
    assert_eq!(c.app_id, "io.github.m00nwtchr.flashmind");
    assert_eq!(c.app_fingerprints, vec!["AA".to_string(), "BB".to_string()]);
    assert!(AppConfig::from_vars(&pairs(&[("FLASHMIND_PUBLIC_URL", "x")])).is_none());
}

#[test]
fn app_config_default() {
    let c = AppConfig::default();
    assert_eq!(c.public_url, "http://localhost:3000");
    assert_eq!(c.listen_addr, "[::]:3000");
    assert_eq!(c.db_url, "sqlite::memory:");
    assert!(c.app_fingerprints.is_empty());
}
