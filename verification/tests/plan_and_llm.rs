use swarm_ci::agents::AgentError;
use swarm_ci::llm::{
    choose_provider, fallback_armed, parse_gemini, parse_openai_chat, truncate, FallbackProvider,
    FallbackStep, LlmError, MockLlmProvider, ProviderChoice,
};
use swarm_ci::plan::{accept_parsed_plan, choose_plan, plan_candidates, planner_prompt, validate_path, FixPlan, PlannedEdit};

/// Parses one candidate text as a plan (the service does this with serde's
/// typed parse); `Err` carries a parse message.
fn parse_plan(text: &str) -> Result<FixPlan, String> {
    let v: serde_json::Value = serde_json::from_str(text).map_err(|e| e.to_string())?;
    let s = |k: &str| v[k].as_str().map(String::from).ok_or(format!("missing field `{k}`"));
    let edits = v["edits"]
        .as_array()
        .ok_or("missing field `edits`".to_string())?
        .iter()
        .map(|e| {
            Ok(PlannedEdit {
                path: e["path"].as_str().ok_or("missing field `path`")?.to_string(),
                content: e["content"].as_str().ok_or("missing field `content`")?.to_string(),
            })
        })
        .collect::<Result<Vec<_>, &str>>()
        .map_err(String::from)?;
    Ok(FixPlan { summary: s("summary")?, root_cause: s("root_cause")?, edits })
}

/// The model-output pipeline: every candidate of the reply, parsed, then the
/// library's choice among them.
fn plan_from_text(text: &str) -> Result<FixPlan, AgentError> {
    choose_plan(plan_candidates(text).iter().map(|c| parse_plan(c)).collect())
}

#[test]
fn parses_plan_wrapped_in_prose_and_fences() {
    let text = "Sure! Here's my plan:\n```json\n{\"summary\":\"s\",\"root_cause\":\"r\",\
                \"edits\":[{\"path\":\"src/lib.rs\",\"content\":\"fn x() {}\"}]}\n```\nDone.";
    let plan = plan_from_text(text).expect("parses");
    assert_eq!(plan.edits[0].path, "src/lib.rs");
}

#[test]
fn rejects_path_traversal() {
    let text = r#"{"summary":"s","root_cause":"r","edits":[{"path":"../../etc/passwd","content":"x"}]}"#;
    assert!(matches!(plan_from_text(text), Err(AgentError::UnsafePath(_))));
}

#[test]
fn rejects_empty_edits() {
    let text = r#"{"summary":"s","root_cause":"r","edits":[]}"#;
    assert!(matches!(plan_from_text(text), Err(AgentError::PlanParse(_))));
}

#[test]
fn candidates_are_the_reply_then_each_complete_object() {
    assert_eq!(plan_candidates("  no braces "), vec!["no braces".to_string()]);
    assert_eq!(plan_candidates("{ open"), vec!["{ open".to_string()]);
    assert_eq!(
        plan_candidates("a {b} c {d {e}} f"),
        vec!["a {b} c {d {e}} f".to_string(), "{b}".into(), "{d {e}}".into(), "{e}".into()]
    );
    assert_eq!(
        plan_candidates(r#"x {"k":"}{\"}"} y"#),
        vec![r#"x {"k":"}{\"}"} y"#.to_string(), r#"{"k":"}{\"}"}"#.into(), r#"{\"}"}"#.into()]
    );
}

#[test]
fn stray_braces_before_the_plan_are_skipped() {
    let text = r#"Use {x} first. {"summary":"s","root_cause":"r","edits":[{"path":"a.rs","content":"c"}]}"#;
    let plan = plan_from_text(text).expect("the complete plan object is found");
    assert_eq!(plan.edits.len(), 1);
    assert_eq!(plan.edits[0].path, "a.rs");
}

#[test]
fn reply_without_object_is_refused() {
    assert!(matches!(plan_from_text("no json here"), Err(AgentError::PlanParse(m)) if m == "no JSON object found in model output"));
    assert!(matches!(plan_from_text("bad {x} object"), Err(AgentError::PlanParse(m)) if m.starts_with("invalid plan JSON: ")));
}

#[test]
fn path_validation() {
    assert!(validate_path("src/lib.rs").is_ok());
    assert!(validate_path("a/..b/c").is_ok());
    assert!(validate_path("a/b..").is_ok());
    assert!(validate_path("").is_err());
    assert!(validate_path("/etc/passwd").is_err());
    assert!(validate_path("..").is_err());
    assert!(validate_path("a/../b").is_err());
    assert!(validate_path("a/..").is_err());
    assert!(matches!(validate_path("../x"), Err(AgentError::UnsafePath(p)) if p == "../x"));
}

#[test]
fn accept_parsed_plan_reports_first_unsafe_path() {
    let plan = FixPlan {
        summary: "s".into(),
        root_cause: "r".into(),
        edits: vec![
            PlannedEdit { path: "ok.rs".into(), content: String::new() },
            PlannedEdit { path: "/abs".into(), content: String::new() },
            PlannedEdit { path: "../up".into(), content: String::new() },
        ],
    };
    assert!(matches!(accept_parsed_plan(Ok(plan)), Err(AgentError::UnsafePath(p)) if p == "/abs"));
    assert!(matches!(accept_parsed_plan(Err("bad".into())), Err(AgentError::PlanParse(m)) if m == "invalid plan JSON: bad"));
}

#[test]
fn planner_prompt_layout() {
    let files = vec![("src/lib.rs".to_string(), "fn a() {}".to_string())];
    let p = planner_prompt("  sum skips last  \n", &files);
    assert!(p.starts_with("TASK: PLAN\nYou are the planner agent of Swarm CI, reviewing a pull request.\nBUG DESCRIPTION:\nsum skips last\n\nCURRENT FILES IN THE REVIEW SANDBOX:\n--- FILE: src/lib.rs ---\nfn a() {}\n\nProduce the minimal correct fix."));
    assert!(p.ends_with("Each edit fully REPLACES the target file inside the review sandbox.\n"));
    assert!(MockLlmProvider::handles(&p));
    assert!(!MockLlmProvider::handles("hello"));
}

#[test]
fn mock_plan_is_the_fixture_fix() {
    let plan = MockLlmProvider::plan();
    assert_eq!(plan.edits.len(), 1);
    assert_eq!(plan.edits[0].path, "src/lib.rs");
    assert!(plan.edits[0].content.contains("values.iter().sum()"));
    assert!(matches!(MockLlmProvider::refusal(), LlmError::BadResponse(_)));
}

#[test]
fn parses_openai_chat_shape() {
    let body = r#"{"choices":[{"message":{"role":"assistant","content":"hello plan"}}]}"#;
    assert_eq!(parse_openai_chat(body).unwrap(), "hello plan");
}

#[test]
fn openai_missing_content_is_error() {
    assert!(parse_openai_chat(r#"{"choices":[]}"#).is_err());
}

#[test]
fn parses_gemini_multi_part() {
    let body = r#"{"candidates":[{"content":{"parts":[{"text":""},{"text":"real answer"}]}}]}"#;
    assert_eq!(parse_gemini(body).unwrap(), "real answer");
}

#[test]
fn gemini_missing_candidates_is_error() {
    assert!(parse_gemini(r#"{}"#).is_err());
}

/// Drives the chain as the service does: the backup is asked only when the
/// library's decision says so, and its answer is then the chain's answer.
fn complete_chain(
    primary: Result<String, LlmError>,
    backup: impl FnOnce() -> Result<String, LlmError>,
    backup_asked: &mut bool,
) -> Result<String, LlmError> {
    let chain = FallbackProvider { primary: (), backup: () };
    match chain.on_primary(primary) {
        FallbackStep::Answer(t) => Ok(t),
        FallbackStep::AskBackup(_) => {
            *backup_asked = true;
            backup()
        }
    }
}

#[test]
fn fallback_used_when_primary_fails() {
    let chain = FallbackProvider { primary: (), backup: () };
    match chain.on_primary(Err(LlmError::Http("boom".into()))) {
        FallbackStep::AskBackup(LlmError::Http(m)) => assert_eq!(m, "boom"),
        other => panic!("unexpected {other:?}"),
    }
    let mut asked = false;
    let out = complete_chain(Err(LlmError::Http("boom".into())), || Ok("backup says hi".into()), &mut asked);
    assert!(asked);
    assert_eq!(out.unwrap(), "backup says hi");
}

#[test]
fn primary_wins_when_healthy() {
    let chain = FallbackProvider { primary: (), backup: () };
    assert!(matches!(chain.on_primary(Ok("primary".into())), FallbackStep::Answer(t) if t == "primary"));
    let mut asked = false;
    let out = complete_chain(Ok("primary".into()), || Ok("backup says hi".into()), &mut asked);
    assert!(!asked);
    assert_eq!(out.unwrap(), "primary");
}

#[test]
fn provider_selection() {
    assert!(matches!(choose_provider(None), ProviderChoice::Mock));
    assert!(matches!(choose_provider(Some("")), ProviderChoice::Mock));
    assert!(matches!(choose_provider(Some("mock")), ProviderChoice::Mock));
    assert!(matches!(choose_provider(Some("groq")), ProviderChoice::Groq));
    assert!(matches!(choose_provider(Some("google")), ProviderChoice::Google));
    assert!(matches!(choose_provider(Some("anthropic")), ProviderChoice::Anthropic));
    assert!(matches!(choose_provider(Some("openai")), ProviderChoice::Unsupported(n) if n == "openai"));
    assert!(fallback_armed(&ProviderChoice::Groq, true));
    assert!(!fallback_armed(&ProviderChoice::Google, true));
    assert!(!fallback_armed(&ProviderChoice::Groq, false));
    assert!(!fallback_armed(&ProviderChoice::Mock, true));
}

#[test]
fn truncate_keeps_short_text_and_marks_cuts() {
    assert_eq!(truncate("abc".into(), 3), "abc");
    assert_eq!(truncate("abcdef".into(), 3), "abc\u{2026}");
    assert_eq!(truncate("\u{e9}\u{e9}\u{e9}".into(), 2), "\u{e9}\u{e9}\u{2026}");
}

#[test]
fn llm_error_messages() {
    assert_eq!(LlmError::Http("x".into()).message(), "llm http error: x");
    assert_eq!(
        LlmError::UnsupportedProvider("z".into()).message(),
        "unsupported LLM_PROVIDER: z (expected `mock` or `anthropic`)"
    );
    assert_eq!(
        AgentError::UnsafePath("../a".into()).message(),
        "unsafe path in plan edit: ../a"
    );
}

#[test]
fn response_shape_errors_are_exact() {
    assert!(matches!(parse_openai_chat("not json"), Err(LlmError::BadResponse(_))));
    assert!(matches!(parse_openai_chat(r#"{"choices":[{"message":{"content":7}}]}"#),
        Err(LlmError::BadResponse(m)) if m == "choices[0].message.content missing"));
    assert!(matches!(parse_gemini(r#"{"candidates":[{"content":{"parts":[{"text":""},{"x":1}]}}]}"#),
        Err(LlmError::BadResponse(m)) if m == "no text part in gemini response"));
    assert!(matches!(parse_gemini(r#"{"candidates":[]}"#),
        Err(LlmError::BadResponse(m)) if m == "candidates[0].content.parts missing"));
    assert_eq!(parse_gemini(r#"{"candidates":[{"content":{"parts":[{"text":"a"},{"text":"b"}]}}]}"#).unwrap(), "a");
}

#[test]
fn anthropic_reply_is_first_block_with_text() {
    let r = swarm_ci::llm::anthropic_text(vec![None, Some(String::new()), Some("later".into())]);
    assert_eq!(r.unwrap(), "");
    let r = swarm_ci::llm::anthropic_text(vec![None, Some("{\"a\":1}".into())]);
    assert_eq!(r.unwrap(), "{\"a\":1}");
}

#[test]
fn anthropic_reply_without_text_is_bad_response() {
    match swarm_ci::llm::anthropic_text(vec![None, None]) {
        Err(swarm_ci::llm::LlmError::BadResponse(m)) => assert_eq!(m, "no text block in response"),
        other => panic!("unexpected {other:?}"),
    }
}

#[test]
fn index_zero_selects_from_arrays_only() {
    assert!(parse_openai_chat(r#"{"choices":{"0":{"message":{"content":"x"}}}}"#).is_err());
    assert!(parse_gemini(r#"{"candidates":{"0":{"content":{"parts":[{"text":"x"}]}}}}"#).is_err());
}
