use tsh::absorb_search_output;
use tsh::name_search_failure;
use tsh::nested_search_failure;
use tsh::require_candidates;
use tsh::Enumerator;
use tsh::TshError;

fn strings(items: &[&str]) -> Vec<String> {
    items.iter().map(|s| s.to_string()).collect()
}

#[test]
fn absorb_appends_nonempty_lines_in_order() {
    let mut acc: Vec<String> = Vec::new();
    let r = absorb_search_output(&mut acc, true, "/a\n\n/b\n", "ctx".to_string());
    assert!(r.is_ok());
    let r = absorb_search_output(&mut acc, true, "/c\n", "ctx".to_string());
    assert!(r.is_ok());
    assert_eq!(acc, strings(&["/a", "/b", "/c"]));
}

#[test]
fn absorb_failure_carries_the_context_and_adds_nothing() {
    let mut acc = strings(&["/kept"]);
    let r = absorb_search_output(&mut acc, false, "/ignored\n", name_search_failure("proj"));
    match r {
        Err(TshError::CommandFailed(m)) => assert_eq!(m, "find command for proj"),
        _ => panic!("expected a command failure"),
    }
    assert_eq!(acc, strings(&["/kept"]));
}

#[test]
fn named_search_with_every_name_empty_fails_not_selects() {
    let mut acc: Vec<String> = Vec::new();
    assert!(absorb_search_output(&mut acc, true, "", "ctx".to_string()).is_ok());
    assert!(absorb_search_output(&mut acc, true, "\n\n", "ctx".to_string()).is_ok());
    let r = require_candidates(acc);
    assert!(matches!(r, Err(TshError::NoDirectoriesFound)));
}

#[test]
fn failure_reports_name_their_operation() {
    assert_eq!(nested_search_failure(Enumerator::Fd, "/p"), "fd command for /p");
    assert_eq!(nested_search_failure(Enumerator::Find, "/p"), "find command for /p");
}

#[test]
fn error_messages_are_exact() {
    assert_eq!(
        TshError::IoError("pipe closed".to_string()).message(),
        "I/O error: pipe closed"
    );
    assert_eq!(
        TshError::MissingDependencies(strings(&["fzf", "tmux"])).message(),
        "MissingDependencies: [\"fzf\", \"tmux\"]"
    );
    assert_eq!(
        TshError::MissingDependencies(strings(&["fzf"])).message(),
        "MissingDependencies: [\"fzf\"]"
    );
    assert_eq!(
        TshError::MissingDependencies(strings(&["fzf", "tmux"])).message(),
        format!("{}", "MissingDependencies: ") + &format!("{:?}", vec!["fzf", "tmux"])
    );
    assert_eq!(
        TshError::CommandFailed("find command for x".to_string()).message(),
        "Command failed: find command for x"
    );
    assert_eq!(TshError::NoDirectoriesFound.message(), "No directories found");
    assert_eq!(TshError::UserCancelled.message(), "Operation cancelled by user");
}
