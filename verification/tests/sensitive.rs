use savvagent::sensitive_paths::{existing, is_sensitive_path, sensitive_path_candidates, sensitive_paths_for_user};

#[test]
fn dotenv_and_home_secrets_are_sensitive() {
    assert!(is_sensitive_path(".env"));
    assert!(is_sensitive_path("config/.env.local"));
    assert!(is_sensitive_path("/home/u/.ssh/id_rsa"));
    assert!(is_sensitive_path("C:\\Users\\u\\.ssh\\id_rsa"));
    assert!(!is_sensitive_path("src/lib.rs"));
    assert!(!is_sensitive_path(".envrc"));
}

#[test]
fn candidates_under_home() {
    let c = sensitive_path_candidates("/home/u", false);
    assert_eq!(c.len(), 7);
    assert_eq!(c[0], "/home/u/.ssh");
    assert_eq!(c[4], "/home/u/.config/gh");
    assert_eq!(sensitive_path_candidates("/home/u/", true).len(), 9);
}

#[test]
fn only_existing_candidates_are_kept() {
    assert!(sensitive_paths_for_user(None, false).is_empty());
    let missing = sensitive_paths_for_user(Some("/nonexistent-home-for-tests"), false);
    assert!(missing.is_empty());
}

#[test]
fn existing_keeps_exactly_the_found_candidates_in_order() {
    let cands = sensitive_path_candidates("/home/u", false);
    let present = [false, true, false, true, false, false, true];
    let got = existing(&cands, &present);
    assert_eq!(
        got,
        vec!["/home/u/.aws".to_string(), "/home/u/.netrc".to_string(), "/home/u/.config/google-chrome".to_string()]
    );
    assert!(existing(&cands, &[false; 7]).is_empty());
}
