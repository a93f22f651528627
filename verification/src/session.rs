use vstd::prelude::*;

use crate::errors::TshError;
use crate::text::chars_of;
use crate::text::file_name_of;
use crate::text::lemma_deep_view_is_str_views;
use crate::text::path_file_name;
use crate::text::str_views;
use crate::text::string_of;
use crate::text::underscored;

verus! {

/// The name under which a selected directory's session is created, queried
/// and attached: the final path component with every `.` replaced by `_`.
pub open spec fn session_name(p: Seq<char>) -> Seq<char> {
    underscored(file_name_of(p)->Some_0)
}

/// The session name depends on the final path component alone: two paths
/// with the same final component name the same session, whatever their
/// parent segments are.
pub proof fn lemma_session_name_from_component(a: Seq<char>, b: Seq<char>)
    requires
        file_name_of(a) == file_name_of(b),
    ensures
        session_name(a) == session_name(b),
{
}

/// Derives the session name from a selected directory path, or nothing when
/// the path has no final component (it is empty, a root, or ends in a `..`
/// component).
pub fn session_identity(path: &str) -> (r: Option<String>)
    ensures
        r is Some <==> file_name_of(path@) is Some,
        r matches Some(s) ==> s@ == session_name(path@),
{
    let name = match path_file_name(path) {
        Some(name) => name,
        None => {
            return None;
        },
    };
    let comp = chars_of(name.as_str());
    let mut out: Vec<char> = Vec::new();
    let mut j: usize = 0;
    proof {
        assert(out@ =~= underscored(comp@.subrange(0, 0)));
    }
    while j < comp.len()
        invariant
            j <= comp.len(),
            comp@ == file_name_of(path@)->Some_0,
            out@ == underscored(comp@.subrange(0, j as int)),
        decreases comp.len() - j,
    {
        let c = comp[j];
        if c == '.' {
            out.push('_');
        } else {
            out.push(c);
        }
        proof {
            assert(out@ =~= underscored(comp@.subrange(0, j + 1)));
        }
        j = j + 1;
    }
    proof {
        assert(comp@.subrange(0, comp@.len() as int) =~= comp@);
    }
    Some(string_of(&out))
}

/// Derives the session name for a selected directory, or reports the failure
/// the pipeline raises when the path has no final component.
pub fn session_name_for(path: &str) -> (r: Result<String, TshError>)
    ensures
        r is Ok <==> file_name_of(path@) is Some,
        r matches Ok(s) ==> s@ == session_name(path@),
        r matches Err(e) ==> e matches TshError::CommandFailed(m) && m@
            == "Could not extract session name from directory"@,
{
    match session_identity(path) {
        Some(name) => Ok(name),
        None => Err(
            TshError::CommandFailed(
                String::from_str("Could not extract session name from directory"),
            ),
        ),
    }
}

/// The four transitions of the session state machine, decided by whether the
/// named session already exists and whether the caller is itself inside a
/// multiplexer session.
#[derive(Clone, Copy, Debug, PartialEq, Eq, Structural)]
pub enum SessionAction {
    /// The session exists and the caller is inside one: hand the client over.
    SwitchClient,
    /// The session exists and the caller is outside: attach to it.
    AttachSession,
    /// No session and the caller is inside: create it detached, then switch.
    CreateThenSwitch,
    /// No session and the caller is outside: create and attach in one step.
    CreateAndAttach,
}

/// The transition table over the two boolean facts.
pub open spec fn transition(session_exists: bool, inside: bool) -> SessionAction {
    if session_exists {
        if inside {
            SessionAction::SwitchClient
        } else {
            SessionAction::AttachSession
        }
    } else {
        if inside {
            SessionAction::CreateThenSwitch
        } else {
            SessionAction::CreateAndAttach
        }
    }
}

/// Decides the transition for the current state and context, exactly as the
/// table `transition` gives it.
pub fn decide_transition(session_exists: bool, inside: bool) -> (a: SessionAction)
    ensures
        a == transition(session_exists, inside),
{
    if session_exists {
        if inside {
            SessionAction::SwitchClient
        } else {
            SessionAction::AttachSession
        }
    } else {
        if inside {
            SessionAction::CreateThenSwitch
        } else {
            SessionAction::CreateAndAttach
        }
    }
}

/// One multiplexer invocation: the arguments to hand the multiplexer binary,
/// and the description to report if it exits with a failure status.
pub struct TmuxCommand {
    pub args: Vec<String>,
    pub failure: String,
}

/// The arguments of the non-interactive existence probe for a session name.
pub open spec fn has_session_args_spec(name: Seq<char>) -> Seq<Seq<char>> {
    seq!["has-session"@, "-t"@, name]
}

pub open spec fn switch_client_args_spec(name: Seq<char>) -> Seq<Seq<char>> {
    seq!["switch-client"@, "-t"@, name]
}

pub open spec fn attach_session_args_spec(name: Seq<char>) -> Seq<Seq<char>> {
    seq!["attach-session"@, "-t"@, name]
}

pub open spec fn create_detached_args_spec(name: Seq<char>, dir: Seq<char>) -> Seq<Seq<char>> {
    seq!["new-session"@, "-d"@, "-s"@, name, "-c"@, dir]
}

pub open spec fn create_attach_args_spec(name: Seq<char>, dir: Seq<char>) -> Seq<Seq<char>> {
    seq!["new-session"@, "-A"@, "-s"@, name, "-c"@, dir]
}

/// Builds the arguments that ask the multiplexer whether a session with this
/// name exists; only the probe's exit status answers.
pub fn has_session_args(name: &str) -> (a: Vec<String>)
    ensures
        a.deep_view() == has_session_args_spec(name@),
{
    let mut a: Vec<String> = Vec::new();
    a.push(String::from_str("has-session"));
    a.push(String::from_str("-t"));
    a.push(name.to_owned());
    proof {
        lemma_deep_view_is_str_views(&a);
        assert(str_views(a@) =~= has_session_args_spec(name@));
    }
    a
}

fn switch_client_command(name: &str) -> (c: TmuxCommand)
    ensures
        c.args.deep_view() == switch_client_args_spec(name@),
        c.failure@ == "Failed to switch tmux client"@,
{
    let mut args: Vec<String> = Vec::new();
    args.push(String::from_str("switch-client"));
    args.push(String::from_str("-t"));
    args.push(name.to_owned());
    proof {
        lemma_deep_view_is_str_views(&args);
        assert(str_views(args@) =~= switch_client_args_spec(name@));
    }
    TmuxCommand { args, failure: String::from_str("Failed to switch tmux client") }
}

fn attach_session_command(name: &str) -> (c: TmuxCommand)
    ensures
        c.args.deep_view() == attach_session_args_spec(name@),
        c.failure@ == "Failed to attach to tmux session"@,
{
    let mut args: Vec<String> = Vec::new();
    args.push(String::from_str("attach-session"));
    args.push(String::from_str("-t"));
    args.push(name.to_owned());
    proof {
        lemma_deep_view_is_str_views(&args);
        assert(str_views(args@) =~= attach_session_args_spec(name@));
    }
    TmuxCommand { args, failure: String::from_str("Failed to attach to tmux session") }
}

fn create_detached_command(name: &str, dir: &str) -> (c: TmuxCommand)
    ensures
        c.args.deep_view() == create_detached_args_spec(name@, dir@),
        c.failure@ == "Failed to create tmux session"@,
{
    let mut args: Vec<String> = Vec::new();
    args.push(String::from_str("new-session"));
    args.push(String::from_str("-d"));
    args.push(String::from_str("-s"));
    args.push(name.to_owned());
    args.push(String::from_str("-c"));
    args.push(dir.to_owned());
    proof {
        lemma_deep_view_is_str_views(&args);
        assert(str_views(args@) =~= create_detached_args_spec(name@, dir@));
    }
    TmuxCommand { args, failure: String::from_str("Failed to create tmux session") }
}

fn create_attach_command(name: &str, dir: &str) -> (c: TmuxCommand)
    ensures
        c.args.deep_view() == create_attach_args_spec(name@, dir@),
        c.failure@ == "Failed to create and attach to tmux session"@,
{
    let mut args: Vec<String> = Vec::new();
    args.push(String::from_str("new-session"));
    args.push(String::from_str("-A"));
    args.push(String::from_str("-s"));
    args.push(name.to_owned());
    args.push(String::from_str("-c"));
    args.push(dir.to_owned());
    proof {
        lemma_deep_view_is_str_views(&args);
        assert(str_views(args@) =~= create_attach_args_spec(name@, dir@));
    }
    TmuxCommand { args, failure: String::from_str("Failed to create and attach to tmux session") }
}

/// Plans the multiplexer invocations for one run, in order, from the
/// existence probe's answer and the caller's context. Every transition is
/// one command, except create-then-switch, whose creation comes first and
/// whose switch must not run if creation fails: the caller performs the
/// commands in order and stops at the first failure.
pub fn plan_session_commands(session_exists: bool, inside: bool, name: &str, dir: &str) -> (plan:
    Vec<TmuxCommand>)
    ensures
        transition(session_exists, inside) == SessionAction::SwitchClient ==> plan@.len() == 1
            && plan@[0].args.deep_view() == switch_client_args_spec(name@) && plan@[0].failure@
            == "Failed to switch tmux client"@,
        transition(session_exists, inside) == SessionAction::AttachSession ==> plan@.len() == 1
            && plan@[0].args.deep_view() == attach_session_args_spec(name@) && plan@[0].failure@
            == "Failed to attach to tmux session"@,
        transition(session_exists, inside) == SessionAction::CreateThenSwitch ==> plan@.len() == 2
            && plan@[0].args.deep_view() == create_detached_args_spec(name@, dir@)
            && plan@[0].failure@ == "Failed to create tmux session"@ && plan@[1].args.deep_view()
            == switch_client_args_spec(name@) && plan@[1].failure@
            == "Failed to switch tmux client"@,
        transition(session_exists, inside) == SessionAction::CreateAndAttach ==> plan@.len() == 1
            && plan@[0].args.deep_view() == create_attach_args_spec(name@, dir@)
            && plan@[0].failure@ == "Failed to create and attach to tmux session"@,
{
    let mut plan: Vec<TmuxCommand> = Vec::new();
    match decide_transition(session_exists, inside) {
        SessionAction::SwitchClient => {
            plan.push(switch_client_command(name));
        },
        SessionAction::AttachSession => {
            plan.push(attach_session_command(name));
        },
        SessionAction::CreateThenSwitch => {
            plan.push(create_detached_command(name, dir));
            plan.push(switch_client_command(name));
        },
        SessionAction::CreateAndAttach => {
            plan.push(create_attach_command(name, dir));
        },
    }
    plan
}

} // verus!
