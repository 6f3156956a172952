use gcm::git::ProjectContext;
use gcm::llm::{
    clean_message, clean_messages, is_success_status, GenerateError, LLMClient,
    DIFF_BYTE_LIMIT, PROMPT_HEAD, PROMPT_TAIL, SYSTEM_PROMPT,
};

/// The prompt as the command-line tool writes it, for comparison.
fn expected_prompt(diff: &str, context: Option<&ProjectContext>) -> String {
    let mut prompt = format!(
        r#"Generate a conventional commit message for the following git diff.

The message should:
- Follow conventional commits format (type: description)
- Be concise but descriptive
- Use appropriate type (feat, fix, docs, style, refactor, test, chore)
- Be written in present tense
- Not exceed 72 characters for the subject line

Git diff:
```
{}
```"#,
        &diff[..diff.len().min(3000)]
    );
    if let Some(ctx) = context {
        prompt.push_str("\n\nProject context:\n");
        if let Some(name) = &ctx.project_name {
            prompt.push_str(&format!("Project: {}\n", name));
        }
        if let Some(readme) = &ctx.readme_content {
            prompt.push_str(&format!(
                "\nREADME.md (excerpt):\n```\n{}\n```\n",
                &readme[..readme.len().min(500)]
            ));
        }
        if !ctx.recent_commits.is_empty() {
            prompt.push_str("\nRecent commits:\n");
            for commit in ctx.recent_commits.iter().take(5) {
                prompt.push_str(&format!("- {}\n", commit));
            }
        }
    }
    prompt.push_str("\n\nGenerate only the commit message, no explanation:");
    prompt
}

fn context(name: Option<&str>, readme: Option<&str>, commits: &[&str]) -> ProjectContext {
    ProjectContext {
        project_name: name.map(|s| s.to_string()),
        readme_content: readme.map(|s| s.to_string()),
        package_json: None,
        cargo_toml: None,
        recent_commits: commits.iter().map(|s| s.to_string()).collect(),
    }
}

#[test]
fn prompt_without_context() {
    let client = LLMClient::new("gpt-4o-mini".to_string(), "sk-test".to_string());
    let diff = "diff --git a/src/main.rs b/src/main.rs\n+fn main() {}\n";
    let p = client.build_prompt(diff, None);
    assert_eq!(p, expected_prompt(diff, None));
    assert!(p.starts_with(PROMPT_HEAD));
    assert!(p.ends_with(PROMPT_TAIL));
    assert!(p.contains(diff));
}

#[test]
fn prompt_with_full_context() {
    let client = LLMClient::new("m".to_string(), "k".to_string());
    let commits = ["c1", "c2", "c3", "c4", "c5", "c6", "c7"];
    let ctx = context(Some("gcm"), Some("# gcm\nTool"), &commits);
    let p = client.build_prompt("+x", Some(&ctx));
    assert_eq!(p, expected_prompt("+x", Some(&ctx)));
    assert!(p.contains("- c5\n"));
    assert!(!p.contains("- c6"));
    assert!(p.contains("Project: gcm\n"));
}

#[test]
fn prompt_with_partial_context() {
    let client = LLMClient::new("m".to_string(), "k".to_string());
    let ctx = context(None, None, &[]);
    assert_eq!(client.build_prompt("d", Some(&ctx)), expected_prompt("d", Some(&ctx)));
    let ctx2 = context(None, Some("readme"), &[]);
    assert_eq!(client.build_prompt("d", Some(&ctx2)), expected_prompt("d", Some(&ctx2)));
}

#[test]
fn prompt_cuts_long_diff_and_readme() {
    let client = LLMClient::new("m".to_string(), "k".to_string());
    let diff = "abcdefghij".repeat(400);
    let readme = "r".repeat(900);
    let ctx = context(Some("p"), Some(&readme), &["x"]);
    let p = client.build_prompt(&diff, Some(&ctx));
    assert_eq!(p, expected_prompt(&diff, Some(&ctx)));
    assert!(p.contains(&diff[..DIFF_BYTE_LIMIT]));
    assert!(!p.contains(&diff[..DIFF_BYTE_LIMIT + 1]));
    // multi-byte characters whose boundary falls on the limit
    let wide = "é".repeat(1600);
    assert!(wide.is_char_boundary(3000));
    assert_eq!(client.build_prompt(&wide, None), expected_prompt(&wide, None));
}

#[test]
fn request_refused_for_blank_diff() {
    let client = LLMClient::new("m".to_string(), "k".to_string());
    for d in ["", "   ", "\n\t \u{3000}"].iter() {
        match client.prepare_request(d, None, 1) {
            Err(e) => {
                assert_eq!(e, GenerateError::NoChanges);
                assert_eq!(e.message(), "No changes to analyze");
            }
            Ok(_) => panic!("blank diff accepted"),
        }
    }
}

#[test]
fn request_for_diff() {
    let client = LLMClient::new("gpt-4o-mini".to_string(), "sk".to_string());
    assert_eq!(client.model(), "gpt-4o-mini");
    assert_eq!(client.api_key(), "sk");
    let ctx = context(Some("gcm"), None, &["fix: y"]);
    let req = match client.prepare_request(" +line ", Some(&ctx), 3) {
        Ok(r) => r,
        Err(_) => panic!("diff refused"),
    };
    assert_eq!(req.model, "gpt-4o-mini");
    assert_eq!(client.max_tokens(), 100);
    assert_eq!(req.max_tokens, 100);
    assert_eq!(req.n, 3);
    assert_eq!(req.messages.len(), 2);
    assert_eq!(req.messages[0].role, "system");
    assert_eq!(req.messages[0].content, SYSTEM_PROMPT);
    assert_eq!(req.messages[1].role, "user");
    assert_eq!(req.messages[1].content, expected_prompt(" +line ", Some(&ctx)));
}

#[test]
fn clean_message_cases() {
    assert_eq!(clean_message("feat: add x"), "feat: add x");
    assert_eq!(clean_message("  feat: add x\n"), "feat: add x");
    assert_eq!(clean_message("\"fix: y\""), "fix: y");
    assert_eq!(clean_message(" \"fix: y\" \n"), "fix: y");
    assert_eq!(clean_message("\"\""), "");
    assert_eq!(clean_message("\"\"a\"\""), "\"a\"");
    assert_eq!(clean_message("\"half"), "\"half");
    assert_eq!(clean_message("\" spaced \""), " spaced ");
    assert_eq!(clean_message(""), "");
}

#[test]
fn clean_messages_each() {
    let r = clean_messages(&vec![" a ".to_string(), "\"b\"".to_string()]);
    assert_eq!(r, vec!["a".to_string(), "b".to_string()]);
    assert!(clean_messages(&vec![]).is_empty());
}

#[test]
fn success_statuses() {
    assert!(is_success_status(200));
    assert!(is_success_status(204));
    assert!(is_success_status(299));
    assert!(!is_success_status(199));
    assert!(!is_success_status(300));
    assert!(!is_success_status(401));
    assert!(!is_success_status(500));
}

#[test]
fn request_uses_configured_token_limit() {
    let mut client = LLMClient::new("gpt-4o-mini".to_string(), "sk".to_string());
    client.set_max_tokens(250);
    assert_eq!(client.max_tokens(), 250);
    assert_eq!(client.model(), "gpt-4o-mini");
    assert_eq!(client.api_key(), "sk");
    let req = match client.prepare_request("+x", None, 1) {
        Ok(r) => r,
        Err(_) => panic!("diff refused"),
    };
    assert_eq!(req.max_tokens, 250);
}

#[test]
fn prompt_ignores_client_and_manifests() {
    let a = LLMClient::new("m1".to_string(), "k1".to_string());
    let b = LLMClient::new("m2".to_string(), "k2".to_string());
    let mut c1 = context(Some("p"), Some("readme"), &["c"]);
    let c2 = context(Some("p"), Some("readme"), &["c"]);
    c1.package_json = Some("{}".to_string());
    c1.cargo_toml = Some("[package]".to_string());
    assert_eq!(a.build_prompt("+d", Some(&c1)), b.build_prompt("+d", Some(&c2)));
    let with = a.build_prompt("+d", Some(&context(None, None, &[])));
    let without = a.build_prompt("+d", None);
    assert!(with.contains("\n\nProject context:\n"));
    assert!(!without.contains("Project context:"));
    assert!(!with.contains("Recent commits:"));
}
