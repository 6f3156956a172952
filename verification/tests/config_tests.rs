use gcm::config::{default_context, default_max_tokens, default_model, Config};

fn file(model: &str, max_tokens: u16, context: &[&str], api_key: &str, provider: &str) -> Config {
    Config {
        model: model.to_string(),
        max_tokens,
        context: context.iter().map(|s| s.to_string()).collect(),
        api_key: api_key.to_string(),
        provider: provider.to_string(),
    }
}

fn empty_file() -> Config {
    file("", 0, &[], "", "")
}

fn same(a: &Config, b: &Config) -> bool {
    a.model == b.model
        && a.max_tokens == b.max_tokens
        && a.context == b.context
        && a.api_key == b.api_key
        && a.provider == b.provider
}

#[test]
fn defaults_are_the_documented_ones() {
    assert_eq!(default_model(), "gpt-4o-mini");
    assert_eq!(default_max_tokens(), 100);
    assert_eq!(default_context(), vec!["README.md".to_string()]);
    let c = Config::default();
    assert_eq!(c.model, "gpt-4o-mini");
    assert_eq!(c.max_tokens, 100);
    assert_eq!(c.context, vec!["README.md".to_string()]);
    assert_eq!(c.api_key, "");
    assert_eq!(c.provider, "openai");
}

#[test]
fn merge_overrides_only_given_settings() {
    let mut c = Config::default();
    c.merge_from_file(file("gpt-4o", 0, &[], "", ""));
    assert_eq!(c.model, "gpt-4o");
    assert_eq!(c.max_tokens, 100);
    assert_eq!(c.context, vec!["README.md".to_string()]);
    assert_eq!(c.provider, "openai");

    c.merge_from_file(file("", 250, &["CHANGELOG.md", "Cargo.toml"], "sk-file", "anthropic"));
    assert_eq!(c.model, "gpt-4o");
    assert_eq!(c.max_tokens, 250);
    assert_eq!(c.context, vec!["CHANGELOG.md".to_string(), "Cargo.toml".to_string()]);
    assert_eq!(c.api_key, "sk-file");
    assert_eq!(c.provider, "anthropic");
}

#[test]
fn merge_of_empty_file_changes_nothing() {
    let mut c = Config::default();
    c.merge_from_file(empty_file());
    assert!(same(&c, &Config::default()));
}

#[test]
fn merge_twice_is_merge_once() {
    let mut once = Config::default();
    once.merge_from_file(file("m1", 7, &[], "", "p"));
    let mut twice = Config::default();
    twice.merge_from_file(file("m1", 7, &[], "", "p"));
    twice.merge_from_file(file("m1", 7, &[], "", "p"));
    assert!(same(&once, &twice));
}

#[test]
fn merge_is_associative_on_values() {
    // base, then a, then b  ==  base, then (a overlaid by b)
    let mut left = Config::default();
    left.merge_from_file(file("a-model", 5, &["a.md"], "", ""));
    left.merge_from_file(file("", 9, &[], "b-key", ""));

    let mut combined = file("a-model", 5, &["a.md"], "", "");
    combined.merge_from_file(file("", 9, &[], "b-key", ""));
    let mut right = Config::default();
    right.merge_from_file(combined);
    assert!(same(&left, &right));
}

#[test]
fn load_with_nothing_gives_defaults() {
    let c = Config::load(None, None, None, None);
    assert!(same(&c, &Config::default()));
}

#[test]
fn load_project_file_wins_over_user_file() {
    let user = file("user-model", 50, &[], "user-key", "");
    let project = file("project-model", 0, &[], "", "");
    let c = Config::load(Some(user), Some(project), None, None);
    assert_eq!(c.model, "project-model");
    assert_eq!(c.max_tokens, 50);
    assert_eq!(c.api_key, "user-key");
    assert_eq!(c.provider, "openai");
}

#[test]
fn load_openai_key_wins() {
    let project = file("", 0, &[], "file-key", "anthropic");
    let c = Config::load(
        None,
        Some(project),
        Some("sk-openai".to_string()),
        Some("sk-anthropic".to_string()),
    );
    assert_eq!(c.api_key, "sk-openai");
    assert_eq!(c.provider, "openai");
}

#[test]
fn load_anthropic_key_when_no_openai_key() {
    let c = Config::load(None, None, None, Some("sk-ant".to_string()));
    assert_eq!(c.api_key, "sk-ant");
    assert_eq!(c.provider, "anthropic");
    assert_eq!(c.model, "gpt-4o-mini");
}

#[test]
fn env_keys_absent_keep_file_key() {
    let mut c = Config::default();
    c.merge_from_file(file("", 0, &[], "from-file", "custom"));
    c.apply_env_keys(None, None);
    assert_eq!(c.api_key, "from-file");
    assert_eq!(c.provider, "custom");
}

#[test]
fn override_model_from_command_line() {
    let mut c = Config::default();
    c.override_model(None);
    assert_eq!(c.model, "gpt-4o-mini");
    c.override_model(Some("o3-mini".to_string()));
    assert_eq!(c.model, "o3-mini");
    assert_eq!(c.max_tokens, 100);
}
