use jj_hooks::error::JjHooksError;
use jj_hooks::init::{
    self, AddedItems, ApplyAction, ApplyEvent, InitOutcome, InitPlan, Prompter, ScriptedPrompter,
    add_jjui_actions,
};
use jj_hooks::runner::Runner;

#[test]
fn plan_with_all_yes() {
    let mut prompter = ScriptedPrompter::new(vec![true, true, true]);
    let plan = init::plan(Some(Runner::PreCommit), &mut prompter).unwrap();
    assert_eq!(
        plan,
        InitPlan {
            install_alias: true,
            advance_bookmarks: true,
            install_jjui_actions: true,
        }
    );
}

#[test]
fn plan_with_all_no() {
    let mut prompter = ScriptedPrompter::new(vec![false, false, false]);
    let plan = init::plan(Some(Runner::Lefthook), &mut prompter).unwrap();
    assert_eq!(
        plan,
        InitPlan {
            install_alias: false,
            advance_bookmarks: false,
            install_jjui_actions: false,
        }
    );
}

#[test]
fn plan_mixed() {
    let mut prompter = ScriptedPrompter::new(vec![true, false, true]);
    let plan = init::plan(Some(Runner::Hk), &mut prompter).unwrap();
    assert_eq!(
        plan,
        InitPlan {
            install_alias: true,
            advance_bookmarks: false,
            install_jjui_actions: true,
        }
    );
}

#[test]
fn plan_with_no_runner_detected_still_prompts() {
    let mut prompter = ScriptedPrompter::new(vec![true, true, true]);
    let plan = init::plan(None, &mut prompter).unwrap();
    assert_eq!(
        plan,
        InitPlan {
            install_alias: true,
            advance_bookmarks: true,
            install_jjui_actions: true,
        }
    );
}

#[test]
fn add_jjui_actions_to_empty_config() {
    let (output, added) = add_jjui_actions("").unwrap();
    assert!(added.added_jj_push);
    assert!(added.added_jj_push_selected);
    assert!(added.added_binding_x_p);
    assert!(added.added_binding_x_p_caps);

    // Re-parse so we don't depend on the pretty-printer's array layout.
    let parsed: toml::Table = output.parse().unwrap();
    let actions = parsed["actions"].as_array().unwrap();
    let action_names: Vec<&str> = actions
        .iter()
        .filter_map(|v| v.get("name").and_then(|n| n.as_str()))
        .collect();
    assert!(action_names.contains(&"jj-push"));
    assert!(action_names.contains(&"jj-push-selected"));

    let bindings = parsed["bindings"].as_array().unwrap();
    let mut found_xp = false;
    let mut found_xp_caps = false;
    for b in bindings {
        let action = b.get("action").and_then(|v| v.as_str()).unwrap_or("");
        let seq: Vec<&str> = b
            .get("seq")
            .and_then(|v| v.as_array())
            .map(|a| a.iter().filter_map(|v| v.as_str()).collect())
            .unwrap_or_default();
        if action == "jj-push" && seq == ["x", "p"] {
            found_xp = true;
        }
        if action == "jj-push-selected" && seq == ["x", "P"] {
            found_xp_caps = true;
        }
    }
    assert!(found_xp, "expected jj-push bound to x p");
    assert!(found_xp_caps, "expected jj-push-selected bound to x P");

    // The lua bodies should invoke jj-hp directly (not `jj_async("push")`)
    // so the actions don't require the `jj push` alias to be installed.
    let lua_bodies: Vec<&str> = actions
        .iter()
        .filter_map(|v| v.get("lua").and_then(|l| l.as_str()))
        .collect();
    for lua in &lua_bodies {
        assert!(
            lua.contains("jj-hp"),
            "lua body should call jj-hp directly:\n{lua}"
        );
        assert!(
            !lua.contains("jj_async(\"push\""),
            "lua should not depend on the `jj push` alias:\n{lua}"
        );
    }
}

#[test]
fn add_jjui_actions_idempotent_on_second_run() {
    let (first, _) = add_jjui_actions("").unwrap();
    let (second, added) = add_jjui_actions(&first).unwrap();

    assert!(!added.added_jj_push);
    assert!(!added.added_jj_push_selected);
    assert!(!added.added_binding_x_p);
    assert!(!added.added_binding_x_p_caps);

    // Re-parse rather than counting string occurrences (which depends on
    // pretty-printer layout).
    let parsed: toml::Table = second.parse().unwrap();
    let actions = parsed["actions"].as_array().unwrap();
    let jj_push_count = actions
        .iter()
        .filter(|v| v.get("name").and_then(|n| n.as_str()) == Some("jj-push"))
        .count();
    assert_eq!(jj_push_count, 1);
}

#[test]
fn add_jjui_actions_preserves_existing_user_actions() {
    let existing = r#"
[[actions]]
name = "my-custom"
lua = "print('hi')"

[[bindings]]
action = "my-custom"
seq = ["q"]
scope = "revisions"
desc = "quit"
"#;
    let (output, added) = add_jjui_actions(existing).unwrap();

    assert!(added.added_jj_push);
    assert!(output.contains(r#"name = "my-custom""#), "{output}");
    assert!(output.contains(r#"["q"]"#), "{output}");
    assert!(output.contains(r#"name = "jj-push""#), "{output}");
}

#[test]
fn add_jjui_actions_keeps_existing_jj_push_when_name_already_taken() {
    let existing = r#"
[[actions]]
name = "jj-push"
lua = "print('user version')"
"#;
    let (output, added) = add_jjui_actions(existing).unwrap();
    assert!(
        !added.added_jj_push,
        "should not have added (user already has one)"
    );
    assert!(output.contains("print('user version')"));
    // jj-push-selected should still get added since its name is free.
    assert!(added.added_jj_push_selected);
    assert!(output.contains(r#"name = "jj-push-selected""#));
}

#[test]
fn add_jjui_actions_rejects_non_array_actions() {
    let r = add_jjui_actions("actions = 3\n");
    match r {
        Err(JjHooksError::Parse(m)) => assert_eq!(m, "jjui config: `actions` is not an array"),
        other => panic!("unexpected: {other:?}"),
    }
}

#[test]
fn add_jjui_actions_rejects_non_array_bindings() {
    let r = add_jjui_actions("bindings = \"x\"\n");
    match r {
        Err(JjHooksError::Parse(m)) => assert_eq!(m, "jjui config: `bindings` is not an array"),
        other => panic!("unexpected: {other:?}"),
    }
}

#[test]
fn add_jjui_actions_rejects_invalid_toml() {
    let r = add_jjui_actions("this is = = not toml");
    match r {
        Err(JjHooksError::Parse(m)) => assert!(m.starts_with("jjui config: "), "{m}"),
        other => panic!("unexpected: {other:?}"),
    }
}

#[test]
fn add_jjui_actions_blank_text_is_empty_document() {
    let (_, added) = add_jjui_actions("   \n\t").unwrap();
    assert_eq!(
        added,
        AddedItems {
            added_jj_push: true,
            added_jj_push_selected: true,
            added_binding_x_p: true,
            added_binding_x_p_caps: true,
        }
    );
}

#[test]
fn add_jjui_actions_binding_needs_action_and_keys() {
    let existing = r#"
[[bindings]]
action = "jj-push"
seq = ["z"]
scope = "revisions"
desc = "mine"
"#;
    let (output, added) = add_jjui_actions(existing).unwrap();
    assert!(added.added_binding_x_p);
    assert!(added.added_binding_x_p_caps);
    let parsed: toml::Table = output.parse().unwrap();
    let bindings = parsed["bindings"].as_array().unwrap();
    assert_eq!(bindings.len(), 3);
    assert_eq!(bindings[0].get("desc").unwrap().as_str(), Some("mine"));
    assert_eq!(bindings[0].get("seq").unwrap().as_array().unwrap()[0].as_str(), Some("z"));
    let keys: Vec<&str> = bindings[1]
        .get("seq")
        .unwrap()
        .as_array()
        .unwrap()
        .iter()
        .map(|k| k.as_str().unwrap())
        .collect();
    assert_eq!(bindings[1].get("action").unwrap().as_str(), Some("jj-push"));
    assert_eq!(keys, vec!["x", "p"]);
}

#[test]
fn add_jjui_actions_keeps_existing_binding_with_same_keys() {
    let existing = r#"
[[bindings]]
action = "jj-push"
seq = ["x", "p"]
desc = "mine"
"#;
    let (output, added) = add_jjui_actions(existing).unwrap();
    assert!(!added.added_binding_x_p);
    assert!(added.added_binding_x_p_caps);
    let parsed: toml::Table = output.parse().unwrap();
    let bindings = parsed["bindings"].as_array().unwrap();
    assert_eq!(bindings.len(), 2);
    assert_eq!(bindings[0].get("desc").unwrap().as_str(), Some("mine"));
}

#[test]
fn add_jjui_actions_appends_missing_action_after_existing() {
    let existing = "[[actions]]\nname = \"jj-push-selected\"\nlua = \"x\"\n";
    let (output, added) = add_jjui_actions(existing).unwrap();
    assert_eq!(
        added,
        AddedItems {
            added_jj_push: true,
            added_jj_push_selected: false,
            added_binding_x_p: true,
            added_binding_x_p_caps: true,
        }
    );
    let parsed: toml::Table = output.parse().unwrap();
    let actions = parsed["actions"].as_array().unwrap();
    assert_eq!(actions.len(), 2);
    assert_eq!(actions[0].get("name").unwrap().as_str(), Some("jj-push-selected"));
    assert_eq!(actions[0].get("lua").unwrap().as_str(), Some("x"));
    assert_eq!(actions[1].get("name").unwrap().as_str(), Some("jj-push"));
}

#[test]
fn add_jjui_actions_keeps_other_fields_of_user_items() {
    let existing = r#"
[[actions]]
name = "mine"
lua = "print(1)"
order = 3
tags = ["a", 2]

[[bindings]]
action = "jj-push"
seq = ["x", 1]
"#;
    let (output, added) = add_jjui_actions(existing).unwrap();
    assert!(added.added_binding_x_p);
    let parsed: toml::Table = output.parse().unwrap();
    let original: toml::Table = existing.parse().unwrap();
    let actions = parsed["actions"].as_array().unwrap();
    assert_eq!(actions[0], original["actions"].as_array().unwrap()[0]);
    let bindings = parsed["bindings"].as_array().unwrap();
    assert_eq!(bindings[0], original["bindings"].as_array().unwrap()[0]);
    assert_eq!(bindings.len(), 3);
}

#[test]
fn add_jjui_actions_keeps_other_keys() {
    let existing = "theme = \"dark\"\n\n[ui]\nwidth = 3\n";
    let (output, _) = add_jjui_actions(existing).unwrap();
    let parsed: toml::Table = output.parse().unwrap();
    assert_eq!(parsed["theme"].as_str(), Some("dark"));
    assert_eq!(parsed["ui"].get("width").unwrap().as_integer(), Some(3));
    let (again, added) = add_jjui_actions(&output).unwrap();
    assert_eq!(added, AddedItems::default());
    let reparsed: toml::Table = again.parse().unwrap();
    assert_eq!(reparsed, parsed);
}

#[test]
fn scripted_prompter_falls_back_to_default() {
    let mut p = ScriptedPrompter::new(vec![true]);
    assert!(p.confirm("a", false).unwrap());
    assert!(!p.confirm("b", false).unwrap());
    assert!(p.confirm("c", true).unwrap());
}

struct FailingPrompter {
    asked: Vec<String>,
    fail_at: usize,
}

impl Prompter for FailingPrompter {
    fn confirm(&mut self, message: &str, _default: bool) -> Result<bool, JjHooksError> {
        self.asked.push(message.to_string());
        if self.asked.len() == self.fail_at {
            Err(JjHooksError::Io("no terminal".to_string()))
        } else {
            Ok(true)
        }
    }
}

#[test]
fn plan_stops_at_first_prompter_error() {
    let mut p = FailingPrompter { asked: Vec::new(), fail_at: 2 };
    let r = init::plan(None, &mut p);
    match r {
        Err(JjHooksError::Io(m)) => assert_eq!(m, "no terminal"),
        other => panic!("unexpected: {other:?}"),
    }
    assert_eq!(
        p.asked,
        vec![
            "Set up `jj push` alias so it runs hooks before pushing?".to_string(),
            "Auto-advance bookmarks to fixup commits when hooks modify files?".to_string(),
        ]
    );
}

#[test]
fn plan_with_too_few_answers_uses_defaults() {
    let mut prompter = ScriptedPrompter::new(vec![true]);
    let plan = init::plan(None, &mut prompter).unwrap();
    assert_eq!(
        plan,
        InitPlan {
            install_alias: true,
            advance_bookmarks: false,
            install_jjui_actions: false,
        }
    );
}

fn run_apply(plan: InitPlan, jjui_text: &str) -> (Vec<(String, String)>, Option<String>, InitOutcome) {
    let (mut run, mut action) = init::apply(&plan);
    let mut sets = Vec::new();
    let mut written = None;
    loop {
        match action {
            ApplyAction::SetConfig { key, value } => {
                sets.push((key, value));
                action = run.resume(ApplyEvent::Done);
            }
            ApplyAction::ReadJjui => {
                action = run.resume(ApplyEvent::JjuiText(jjui_text.to_string()));
            }
            ApplyAction::WriteJjui { text } => {
                written = Some(text);
                action = run.resume(ApplyEvent::Done);
            }
            ApplyAction::Finish(outcome) => return (sets, written, outcome),
            ApplyAction::Fail(e) => panic!("unexpected failure: {e:?}"),
        }
    }
}

#[test]
fn apply_sets_alias_and_advance_keys() {
    let plan = InitPlan {
        install_alias: true,
        advance_bookmarks: true,
        install_jjui_actions: false,
    };
    let (sets, merged, outcome) = run_apply(plan, "");
    assert_eq!(
        sets,
        vec![
            (
                "aliases.push".to_string(),
                r#"["util", "exec", "--", "jj-hp", "push"]"#.to_string()
            ),
            ("jj-hooks.advance-bookmarks".to_string(), "true".to_string()),
        ]
    );
    assert!(merged.is_none());
    assert_eq!(
        outcome,
        InitOutcome {
            alias_set: true,
            advance_bookmarks_set: true,
            jjui_actions_added: AddedItems::default(),
        }
    );
}

#[test]
fn apply_does_nothing_when_all_false() {
    let plan = InitPlan {
        install_alias: false,
        advance_bookmarks: false,
        install_jjui_actions: false,
    };
    let (sets, merged, outcome) = run_apply(plan, "");
    assert!(sets.is_empty());
    assert!(merged.is_none());
    assert_eq!(
        outcome,
        InitOutcome {
            alias_set: false,
            advance_bookmarks_set: false,
            jjui_actions_added: AddedItems::default(),
        }
    );
}

#[test]
fn apply_writes_jjui_config_when_requested() {
    let plan = InitPlan {
        install_alias: false,
        advance_bookmarks: false,
        install_jjui_actions: true,
    };
    let (sets, written, outcome) = run_apply(plan, "");
    assert!(sets.is_empty());
    assert!(outcome.jjui_actions_added.added_jj_push);
    assert!(outcome.jjui_actions_added.added_binding_x_p);
    assert!(written.unwrap().contains(r#"name = "jj-push""#));
}

#[test]
fn apply_reports_what_the_jjui_merge_added() {
    let plan = InitPlan {
        install_alias: true,
        advance_bookmarks: false,
        install_jjui_actions: true,
    };
    let existing = "[[actions]]\nname = \"jj-push-selected\"\nlua = \"x\"\n";
    let (sets, written, outcome) = run_apply(plan, existing);
    assert_eq!(sets.len(), 1);
    assert!(written.is_some());
    assert_eq!(
        outcome.jjui_actions_added,
        AddedItems {
            added_jj_push: true,
            added_jj_push_selected: false,
            added_binding_x_p: true,
            added_binding_x_p_caps: true,
        }
    );
    assert!(outcome.alias_set);
}

#[test]
fn apply_fails_on_broken_jjui_config() {
    let plan = InitPlan {
        install_alias: false,
        advance_bookmarks: false,
        install_jjui_actions: true,
    };
    let (mut run, action) = init::apply(&plan);
    assert!(matches!(action, ApplyAction::ReadJjui));
    match run.resume(ApplyEvent::JjuiText("actions = 3\n".to_string())) {
        ApplyAction::Fail(JjHooksError::Parse(m)) => {
            assert_eq!(m, "jjui config: `actions` is not an array")
        }
        other => panic!("unexpected: {other:?}"),
    }
}

#[test]
fn jjui_config_path_prefers_jjui_dir() {
    let s = |x: &str| Some(x.to_string());
    assert_eq!(
        init::jjui_config_path(s("/cfg/jjui"), s("/xdg"), s("/home/u")),
        s("/cfg/jjui/config.toml")
    );
    assert_eq!(init::jjui_config_path(s("/cfg/"), None, None), s("/cfg/config.toml"));
    assert_eq!(
        init::jjui_config_path(None, s("/xdg"), s("/home/u")),
        s("/xdg/jjui/config.toml")
    );
    assert_eq!(
        init::jjui_config_path(None, None, s("/home/u")),
        s("/home/u/.config/jjui/config.toml")
    );
    assert_eq!(init::jjui_config_path(None, None, None), None);
}
