//! Resolves a fuzzy directory choice into a terminal-multiplexer session.
//!
//! The pipeline runs strictly forward: a dependency gate probes for the two
//! required executables; an enumerator gathers candidate directories in one
//! of three search modes, with noise paths excluded; an interactive selector
//! subprocess picks one candidate; and a session resolver decides, from
//! whether the named session exists and whether the caller is already inside
//! a multiplexer, which multiplexer commands to issue. Every decision along
//! that pipeline is made here, under contract; the subprocess and
//! environment I/O around it lives outside the library and hands in plain
//! values.

mod deps;
mod enumerate;
mod errors;
mod exclude;
mod selector;
mod session;
mod text;

pub use deps::check_dependencies;
pub use deps::gate_outcome;
pub use deps::collect_missing;
pub use deps::lemma_missing_of_sound;
pub use deps::missing_of;
pub use deps::required_dependencies;
pub use enumerate::absorb_search_output;
pub use enumerate::base_search_args;
pub use enumerate::base_search_args_spec;
pub use enumerate::base_search_failure;
pub use enumerate::choose_enumerator;
pub use enumerate::enumerator_program;
pub use enumerate::gathered;
pub use enumerate::lemma_all_blank_gathers_nothing;
pub use enumerate::lemma_gathered_step;
pub use enumerate::name_search_args;
pub use enumerate::name_search_args_spec;
pub use enumerate::name_search_failure;
pub use enumerate::nested_search_args;
pub use enumerate::nested_search_args_spec;
pub use enumerate::nested_search_failure;
pub use enumerate::path_search_candidates;
pub use enumerate::program_of;
pub use enumerate::require_candidates;
pub use enumerate::resolve_base;
pub use enumerate::resolve_enumerator;
pub use enumerate::resolve_request;
pub use enumerate::Enumerator;
pub use enumerate::SearchRequest;
pub use errors::error_text;
pub use errors::joined;
pub use errors::quoted;
pub use errors::quoted_views;
pub use errors::TshError;
pub use exclude::filter_candidates;
pub use exclude::has_substr;
pub use exclude::keep_candidates;
pub use exclude::lemma_excluded_never_kept;
pub use exclude::lemma_keep_candidates_sound;
pub use exclude::line_excluded;
pub use exclude::ExclusionFilter;
pub use selector::interpret_selection;
pub use session::attach_session_args_spec;
pub use session::create_attach_args_spec;
pub use session::create_detached_args_spec;
pub use session::decide_transition;
pub use session::has_session_args;
pub use session::has_session_args_spec;
pub use session::lemma_session_name_from_component;
pub use session::plan_session_commands;
pub use session::session_identity;
pub use session::session_name;
pub use session::session_name_for;
pub use session::switch_client_args_spec;
pub use session::transition;
pub use session::SessionAction;
pub use session::TmuxCommand;
pub use text::chars_of;
pub use text::file_name_of;
pub use text::is_ws;
pub use text::keep_nonblank;
pub use text::last_component;
pub use text::lines_spec;
pub use text::nonempty_lines;
pub use text::path_file_name;
pub use text::segments;
pub use text::split_lines;
pub use text::str_views;
pub use text::string_of;
pub use text::strip_cr;
pub use text::trim_end;
pub use text::trim_of;
pub use text::trim_start;
pub use text::trimmed;
pub use text::underscored;
