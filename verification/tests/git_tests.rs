use idr::git::env_nonempty;
use idr::git::get_identity;
use idr::git::Env;

#[test]
fn test_env_nonempty_returns_some_for_valid_value() {
    let mut env = Env::new();
    env.set("TEST_VAR", "test_value");
    assert_eq!(env_nonempty(&env, "TEST_VAR"), Some("test_value".to_string()));
}

#[test]
fn test_env_nonempty_returns_none_for_missing_var() {
    let env = Env::new();
    assert_eq!(env_nonempty(&env, "NONEXISTENT_VAR"), None);
}

#[test]
fn test_env_nonempty_trims_whitespace() {
    let mut env = Env::new();
    env.set("TEST_VAR_SPACES", "  value with spaces  ");
    assert_eq!(
        env_nonempty(&env, "TEST_VAR_SPACES"),
        Some("value with spaces".to_string())
    );
}

#[test]
fn test_env_nonempty_filters_empty_string() {
    let mut env = Env::new();
    env.set("TEST_VAR_EMPTY", "");
    assert_eq!(env_nonempty(&env, "TEST_VAR_EMPTY"), None);
}

#[test]
fn test_env_nonempty_filters_whitespace_only() {
    let mut env = Env::new();
    env.set("TEST_VAR_WHITESPACE", "   ");
    assert_eq!(env_nonempty(&env, "TEST_VAR_WHITESPACE"), None);
}

#[test]
fn test_get_identity_from_env_vars() {
    let mut env = Env::new();
    env.set("GIT_AUTHOR_NAME", "Test User");
    env.set("GIT_AUTHOR_EMAIL", "test@example.com");

    let result = get_identity(&env, None, None);
    assert_eq!(result, Some("Test User <test@example.com>".to_string()));
}

#[test]
fn test_get_identity_prefers_author_over_committer() {
    let mut env = Env::new();
    env.set("GIT_AUTHOR_NAME", "Author Name");
    env.set("GIT_COMMITTER_NAME", "Committer Name");
    env.set("GIT_AUTHOR_EMAIL", "author@example.com");
    env.set("GIT_COMMITTER_EMAIL", "committer@example.com");

    let result = get_identity(&env, None, None);
    assert_eq!(result, Some("Author Name <author@example.com>".to_string()));
}

#[test]
fn test_get_identity_falls_back_to_committer() {
    let mut env = Env::new();
    env.set("GIT_COMMITTER_NAME", "Committer Name");
    env.set("GIT_COMMITTER_EMAIL", "committer@example.com");

    let result = get_identity(&env, None, None);
    assert_eq!(
        result,
        Some("Committer Name <committer@example.com>".to_string())
    );
}

#[test]
fn test_get_identity_returns_none_when_incomplete() {
    // Only name, no email: with no configuration to turn to, nothing resolves
    let mut env = Env::new();
    env.set("GIT_AUTHOR_NAME", "Test User");

    let result = get_identity(&env, None, None);
    assert_eq!(result, None);
}
