use tsh::choose_enumerator;
use tsh::filter_candidates;
use tsh::interpret_selection;
use tsh::nonempty_lines;
use tsh::path_search_candidates;
use tsh::require_candidates;
use tsh::resolve_base;
use tsh::resolve_request;
use tsh::split_lines;
use tsh::trim_of;
use tsh::Enumerator;
use tsh::ExclusionFilter;
use tsh::SearchRequest;
use tsh::TshError;

fn strings(items: &[&str]) -> Vec<String> {
    items.iter().map(|s| s.to_string()).collect()
}

#[test]
fn split_lines_exact() {
    assert_eq!(split_lines("a\nb"), strings(&["a", "b"]));
    assert_eq!(split_lines("a\nb\n"), strings(&["a", "b"]));
    assert_eq!(split_lines(""), strings(&[]));
    assert_eq!(split_lines("a\r\nb\r\n"), strings(&["a", "b"]));
    assert_eq!(split_lines("a\n\nb"), strings(&["a", "", "b"]));
}

#[test]
fn split_lines_keeps_a_bare_trailing_carriage_return() {
    assert_eq!(split_lines("foo\r\nbar\n\nbaz\r"), strings(&["foo", "bar", "", "baz\r"]));
    assert_eq!(split_lines("a\rb\nc"), strings(&["a\rb", "c"]));
    for s in ["foo\r\nbar\n\nbaz\r", "a\rb\nc", "x\r\n", "\r", "a\nb\r"] {
        let expected: Vec<String> = s.lines().map(|l| l.to_string()).collect();
        assert_eq!(split_lines(s), expected, "input {:?}", s);
    }
}

#[test]
fn nonempty_lines_drops_blanks() {
    assert_eq!(nonempty_lines("a\n\nb\n\n"), strings(&["a", "b"]));
    assert_eq!(nonempty_lines("\n\n"), strings(&[]));
}

#[test]
fn trim_removes_surrounding_whitespace() {
    assert_eq!(trim_of("  /a/b \n"), "/a/b".to_string());
    assert_eq!(trim_of("\t\r\n"), "".to_string());
    assert_eq!(trim_of("x"), "x".to_string());
}

#[test]
fn selection_is_trimmed_output_unchanged() {
    assert_eq!(interpret_selection(true, "  /home/u/proj \n"), Some("/home/u/proj".to_string()));
    assert_eq!(interpret_selection(true, "/a/b.c"), Some("/a/b.c".to_string()));
}

#[test]
fn selection_none_on_blank_output() {
    assert_eq!(interpret_selection(true, "   \n"), None);
    assert_eq!(interpret_selection(true, ""), None);
}

#[test]
fn selection_none_on_cancelled_child() {
    assert_eq!(interpret_selection(false, "/would/be/a/choice"), None);
}

#[test]
fn excluded_paths_never_survive_the_filter() {
    let filter = ExclusionFilter::new();
    let lines = strings(&[
        "/home/u/proj",
        "/home/u/proj/node_modules/x",
        "/home/u/.git/hooks",
        "/home/u/.cache/d",
        "/home/u/tmp/t",
        "/home/u/Library/L",
        "",
        "/home/u/work",
    ]);
    let kept = filter_candidates(&lines, &filter);
    assert_eq!(kept, strings(&["/home/u/proj", "/home/u/work"]));
}

#[test]
fn path_search_scenario_keeps_only_the_project() {
    let base = resolve_base(Some("/home/u".to_string()), None).unwrap();
    assert_eq!(base, "/home/u".to_string());
    let request = resolve_request(Vec::new(), None, base);
    assert_eq!(request, SearchRequest::Path("/home/u".to_string()));
    let filter = ExclusionFilter::new();
    let out = "/home/u/proj\n/home/u/.git/hooks\n/home/u/proj/node_modules/x\n";
    let kept = path_search_candidates(Enumerator::Find, true, out, &filter).unwrap();
    assert_eq!(kept, strings(&["/home/u/proj"]));
}

#[test]
fn path_search_failure_names_the_enumerator() {
    let filter = ExclusionFilter::new();
    let r = path_search_candidates(Enumerator::Fd, false, "", &filter);
    match r {
        Err(TshError::CommandFailed(m)) => assert_eq!(m, "Failed to execute fd command"),
        _ => panic!("expected a command failure"),
    }
}

#[test]
fn path_search_empty_is_no_directories_found() {
    let filter = ExclusionFilter::new();
    let r = path_search_candidates(Enumerator::Find, true, "/home/u/.git/x\n\n", &filter);
    assert!(matches!(r, Err(TshError::NoDirectoriesFound)));
}

#[test]
fn empty_candidate_set_is_a_failure_not_a_selection() {
    let r = require_candidates(Vec::new());
    assert!(matches!(r, Err(TshError::NoDirectoriesFound)));
    let r = require_candidates(strings(&["/a"]));
    assert_eq!(r.unwrap(), strings(&["/a"]));
}

#[test]
fn request_precedence() {
    let named = resolve_request(strings(&["proj"]), Some("/custom".to_string()), "/home/u".to_string());
    assert_eq!(named, SearchRequest::Named(strings(&["proj"])));
    let custom = resolve_request(Vec::new(), Some("/custom".to_string()), "/home/u".to_string());
    assert_eq!(custom, SearchRequest::Path("/custom".to_string()));
    let default = resolve_request(Vec::new(), None, "/home/u".to_string());
    assert_eq!(default, SearchRequest::Path("/home/u".to_string()));
}

#[test]
fn base_falls_back_to_working_directory() {
    let r = resolve_base(None, Some("/cwd".to_string())).unwrap();
    assert_eq!(r, "/cwd".to_string());
    let r = resolve_base(None, None);
    match r {
        Err(TshError::IoError(m)) => {
            assert_eq!(m, "could not resolve a home or working directory")
        },
        _ => panic!("expected an I/O error"),
    }
}

#[test]
fn characters_round_trip_through_vectors() {
    let s = "/home/u/caf\u{e9} dir.name";
    let cs = tsh::chars_of(s);
    assert_eq!(cs.len(), s.chars().count());
    assert_eq!(tsh::string_of(&cs), s.to_string());
}

#[test]
fn enumerator_choice_follows_availability() {
    assert_eq!(choose_enumerator(true), Enumerator::Fd);
    assert_eq!(choose_enumerator(false), Enumerator::Find);
}
