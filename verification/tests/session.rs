use tsh::base_search_args;
use tsh::check_dependencies;
use tsh::collect_missing;
use tsh::decide_transition;
use tsh::has_session_args;
use tsh::name_search_args;
use tsh::nested_search_args;
use tsh::plan_session_commands;
use tsh::required_dependencies;
use tsh::session_identity;
use tsh::session_name_for;
use tsh::Enumerator;
use tsh::SessionAction;
use tsh::TshError;

fn strings(items: &[&str]) -> Vec<String> {
    items.iter().map(|s| s.to_string()).collect()
}

#[test]
fn session_identity_replaces_dots() {
    assert_eq!(session_identity("a.b.c"), Some("a_b_c".to_string()));
}

#[test]
fn session_identity_uses_final_component_only() {
    assert_eq!(session_identity("/home/u/deep/nest/a.b.c"), Some("a_b_c".to_string()));
    assert_eq!(session_identity("/other/parents/a.b.c"), session_identity("a.b.c"));
    assert_eq!(session_identity("/home/u/proj"), Some("proj".to_string()));
}

#[test]
fn session_identity_reads_components_as_file_name_does() {
    assert_eq!(session_identity("/home/u/"), Some("u".to_string()));
    assert_eq!(session_identity("foo.txt/."), Some("foo_txt".to_string()));
    assert_eq!(session_identity("foo.txt/.//"), Some("foo_txt".to_string()));
    assert_eq!(session_identity("a//b"), Some("b".to_string()));
    let checked = [
        "/home/u/",
        "foo.txt/.",
        "a//b",
        "/home/u/deep/nest/a.b.c",
        "..",
        "a/..",
        "/",
        "",
        ".",
        "./.",
    ];
    for path in checked {
        let expected = std::path::Path::new(path)
            .file_name()
            .map(|n| n.to_string_lossy().replace('.', "_"));
        assert_eq!(session_identity(path), expected, "path {:?}", path);
    }
}

#[test]
fn session_identity_requires_a_final_component() {
    assert_eq!(session_identity(""), None);
    assert_eq!(session_identity("/"), None);
    assert_eq!(session_identity("a/.."), None);
    match session_name_for("/ends/with/..") {
        Err(TshError::CommandFailed(m)) => {
            assert_eq!(m, "Could not extract session name from directory")
        },
        _ => panic!("expected a command failure"),
    }
    assert_eq!(session_name_for("/home/u/w.d").unwrap(), "w_d".to_string());
    assert_eq!(session_name_for("/ends/with/slash/").unwrap(), "slash".to_string());
}

#[test]
fn transition_table_is_the_four_way_decision() {
    assert_eq!(decide_transition(true, true), SessionAction::SwitchClient);
    assert_eq!(decide_transition(true, false), SessionAction::AttachSession);
    assert_eq!(decide_transition(false, true), SessionAction::CreateThenSwitch);
    assert_eq!(decide_transition(false, false), SessionAction::CreateAndAttach);
}

#[test]
fn existing_session_inside_switches_and_does_nothing_else() {
    let plan = plan_session_commands(true, true, "work", "/home/u/work");
    assert_eq!(plan.len(), 1);
    assert_eq!(plan[0].args, strings(&["switch-client", "-t", "work"]));
    assert_eq!(plan[0].failure, "Failed to switch tmux client");
    assert_ne!(plan[0].args[0], "attach-session");
    assert_ne!(plan[0].args[0], "new-session");
}

#[test]
fn existing_session_outside_attaches() {
    let plan = plan_session_commands(true, false, "work", "/home/u/work");
    assert_eq!(plan.len(), 1);
    assert_eq!(plan[0].args, strings(&["attach-session", "-t", "work"]));
    assert_eq!(plan[0].failure, "Failed to attach to tmux session");
}

#[test]
fn no_session_inside_creates_detached_then_switches() {
    let plan = plan_session_commands(false, true, "w_d", "/home/u/w.d");
    assert_eq!(plan.len(), 2);
    assert_eq!(plan[0].args, strings(&["new-session", "-d", "-s", "w_d", "-c", "/home/u/w.d"]));
    assert_eq!(plan[0].failure, "Failed to create tmux session");
    assert_eq!(plan[1].args, strings(&["switch-client", "-t", "w_d"]));
    assert_eq!(plan[1].failure, "Failed to switch tmux client");
}

#[test]
fn no_session_outside_is_one_combined_create_and_attach() {
    let plan = plan_session_commands(false, false, "w_d", "/home/u/w.d");
    assert_eq!(plan.len(), 1);
    assert_eq!(plan[0].args, strings(&["new-session", "-A", "-s", "w_d", "-c", "/home/u/w.d"]));
    assert_eq!(plan[0].failure, "Failed to create and attach to tmux session");
}

#[test]
fn existence_probe_arguments() {
    assert_eq!(has_session_args("w_d"), strings(&["has-session", "-t", "w_d"]));
}

#[test]
fn search_command_arguments() {
    assert_eq!(
        name_search_args("/home/u", "proj"),
        strings(&["/home/u", "-type", "d", "-name", "proj"])
    );
    assert_eq!(nested_search_args(Enumerator::Fd, "/p"), strings(&[".", "/p"]));
    assert_eq!(nested_search_args(Enumerator::Find, "/p"), strings(&["/p", "-type", "d"]));
    assert_eq!(
        base_search_args(Enumerator::Fd, "/home/u"),
        strings(&[".", "--type", "d", "/home/u"])
    );
    assert_eq!(base_search_args(Enumerator::Find, "/home/u"), strings(&["/home/u", "-type", "d"]));
}

#[test]
fn required_dependencies_are_the_selector_and_the_multiplexer() {
    assert_eq!(required_dependencies(), strings(&["fzf", "tmux"]));
}

#[test]
fn collect_missing_keeps_unresolved_names_in_order() {
    let deps = strings(&["a", "b", "c"]);
    let present = vec![false, true, false];
    assert_eq!(collect_missing(&deps, &present), strings(&["a", "c"]));
    assert_eq!(collect_missing(&deps, &vec![true, true, true]), strings(&[]));
}

#[test]
fn gate_outcome_is_success_exactly_on_an_empty_list() {
    assert!(tsh::gate_outcome(Vec::new()).is_ok());
    match tsh::gate_outcome(strings(&["fzf", "tmux"])) {
        Err(TshError::MissingDependencies(m)) => assert_eq!(m, strings(&["fzf", "tmux"])),
        _ => panic!("expected missing dependencies"),
    }
}

#[test]
fn missing_dependency_reports_every_unresolved_name() {
    let deps = strings(&["surely-not-a-real-binary-name", "also-not-one"]);
    match check_dependencies(&deps) {
        Err(TshError::MissingDependencies(m)) => assert_eq!(m, deps),
        _ => panic!("expected missing dependencies"),
    }
}

#[test]
fn present_dependencies_pass_the_gate() {
    let deps = strings(&["sh"]);
    assert!(check_dependencies(&deps).is_ok());
}
