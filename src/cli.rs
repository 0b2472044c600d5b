use vstd::prelude::*;
use vstd::string::*;
use crate::output::OutputMode;
use crate::text::{blank, is_blank, text_eq};

verus! {

/// The commands of the command line, without their arguments.
#[derive(Clone, Copy, Debug, PartialEq, Eq, Structural)]
pub enum CommandKind {
    Init,
    Status,
    Plan,
    Archive,
    Context,
    Next,
    Start,
    Complete,
    Run,
    Wrap,
    Orchestrate,
    Fail,
    Ping,
    Checkpoint,
    Goal,
    Task,
    Memory,
    Lesson,
    Decide,
    Log,
    Delete,
    Reset,
    Stats,
    Instructions,
    Verify,
    Audit,
    Think,
    Check,
    Update,
    Ops,
}

/// The name under which a command is logged.
pub open spec fn command_text(c: CommandKind) -> Seq<char> {
    match c {
        CommandKind::Init => "init"@,
        CommandKind::Status => "status"@,
        CommandKind::Plan => "plan"@,
        CommandKind::Archive => "archive"@,
        CommandKind::Context => "context"@,
        CommandKind::Next => "next"@,
        CommandKind::Start => "start"@,
        CommandKind::Complete => "complete"@,
        CommandKind::Run => "run"@,
        CommandKind::Wrap => "wrap"@,
        CommandKind::Orchestrate => "orchestrate"@,
        CommandKind::Fail => "fail"@,
        CommandKind::Ping => "ping"@,
        CommandKind::Checkpoint => "checkpoint"@,
        CommandKind::Goal => "goal"@,
        CommandKind::Task => "task"@,
        CommandKind::Memory => "memory"@,
        CommandKind::Lesson => "lesson"@,
        CommandKind::Decide => "decide"@,
        CommandKind::Log => "log"@,
        CommandKind::Delete => "delete"@,
        CommandKind::Reset => "reset"@,
        CommandKind::Stats => "stats"@,
        CommandKind::Instructions => "instructions"@,
        CommandKind::Verify => "verify"@,
        CommandKind::Audit => "audit"@,
        CommandKind::Think => "think"@,
        CommandKind::Check => "check"@,
        CommandKind::Update => "update"@,
        CommandKind::Ops => "ops"@,
    }
}

pub fn command_key(command: &CommandKind) -> (r: &'static str)
    ensures
        r@ == command_text(*command),
{
    match command {
        CommandKind::Init => "init",
        CommandKind::Status => "status",
        CommandKind::Plan => "plan",
        CommandKind::Archive => "archive",
        CommandKind::Context => "context",
        CommandKind::Next => "next",
        CommandKind::Start => "start",
        CommandKind::Complete => "complete",
        CommandKind::Run => "run",
        CommandKind::Wrap => "wrap",
        CommandKind::Orchestrate => "orchestrate",
        CommandKind::Fail => "fail",
        CommandKind::Ping => "ping",
        CommandKind::Checkpoint => "checkpoint",
        CommandKind::Goal => "goal",
        CommandKind::Task => "task",
        CommandKind::Memory => "memory",
        CommandKind::Lesson => "lesson",
        CommandKind::Decide => "decide",
        CommandKind::Log => "log",
        CommandKind::Delete => "delete",
        CommandKind::Reset => "reset",
        CommandKind::Stats => "stats",
        CommandKind::Instructions => "instructions",
        CommandKind::Verify => "verify",
        CommandKind::Audit => "audit",
        CommandKind::Think => "think",
        CommandKind::Check => "check",
        CommandKind::Update => "update",
        CommandKind::Ops => "ops",
    }
}

/// The mode an output flag selects, if the argument is one.
pub open spec fn flag_mode(a: Seq<char>) -> Option<OutputMode> {
    if a == "--toon"@ {
        Some(OutputMode::Toon)
    } else if a == "--json"@ {
        Some(OutputMode::Json)
    } else {
        None
    }
}

/// The mode the flags among `args` select: the last flag wins, and without
/// one output is for humans.
pub open spec fn mode_of(args: Seq<Seq<char>>) -> OutputMode
    decreases args.len(),
{
    if args.len() == 0 {
        OutputMode::Human
    } else {
        match flag_mode(args.last()) {
            Some(m) => m,
            None => mode_of(args.drop_last()),
        }
    }
}

/// `args` without the output flags.
pub open spec fn without_flags(args: Seq<Seq<char>>) -> Seq<Seq<char>>
    decreases args.len(),
{
    if args.len() == 0 {
        Seq::empty()
    } else {
        let rest = without_flags(args.drop_last());
        if flag_mode(args.last()) is Some {
            rest
        } else {
            rest.push(args.last())
        }
    }
}

pub open spec fn texts(v: Seq<String>) -> Seq<Seq<char>> {
    v.map_values(|s: String| s@)
}

/// Takes the output flags `--toon` and `--json` out of a command line. The
/// first argument, the program's name, is always kept.
pub fn extract_output_mode(args: Vec<String>) -> (r: (OutputMode, Vec<String>))
    ensures
        args@.len() == 0 ==> r.0 == OutputMode::Human && r.1@.len() == 0,
        args@.len() > 0 ==> r.0 == mode_of(texts(args@).drop_first()) && texts(r.1@) == seq![args@[0]@]
            + without_flags(texts(args@).drop_first()),
{
    let mut mode = OutputMode::Human;
    let mut keep: Vec<String> = Vec::new();
    if args.len() == 0 {
        return (mode, keep);
    }
    keep.push(args[0].clone());
    let ghost all = texts(args@).drop_first();
    let mut i: usize = 1;
    while i < args.len()
        invariant
            1 <= i <= args@.len(),
            all == texts(args@).drop_first(),
            mode == mode_of(all.subrange(0, i - 1)),
            texts(keep@) == seq![args@[0]@] + without_flags(all.subrange(0, i - 1)),
        decreases args@.len() - i,
    {
        proof {
            let pre = all.subrange(0, i as int);
            assert(pre.drop_last() =~= all.subrange(0, i - 1));
            assert(pre.last() == args@[i as int]@);
        }
        let a = args[i].as_str();
        if text_eq(a, "--toon") {
            mode = OutputMode::Toon;
        } else if text_eq(a, "--json") {
            mode = OutputMode::Json;
        } else {
            let ghost before = keep@;
            keep.push(args[i].clone());
            proof {
                assert(texts(keep@) =~= texts(before).push(args@[i as int]@));
                assert(flag_mode(args@[i as int]@) is None);
                assert(texts(keep@) =~= seq![args@[0]@] + without_flags(all.subrange(0, i as int)));
            }
        }
        i = i + 1;
    }
    assert(all.subrange(0, args@.len() - 1) =~= all);
    (mode, keep)
}

pub open spec fn usable(o: Option<&str>) -> bool {
    match o {
        Some(s) => !blank(s@),
        None => false,
    }
}

/// The agent a command acts for: the `IMI_AGENT_ID` setting when it is not
/// blank, else the agent named on the command line when not blank, else the
/// user's name (`USER`, then `USERNAME`), else `agent`.
pub open spec fn agent_text(configured: Option<&str>, explicit: Option<&str>, user: Option<&str>, username: Option<&str>) -> Seq<char> {
    if usable(configured) {
        configured.unwrap()@
    } else if usable(explicit) {
        explicit.unwrap()@
    } else if user is Some {
        user.unwrap()@
    } else if username is Some {
        username.unwrap()@
    } else {
        "agent"@
    }
}

pub fn current_agent(configured: Option<&str>, explicit: Option<&str>, user: Option<&str>, username: Option<&str>) -> (r: String)
    ensures
        r@ == agent_text(configured, explicit, user, username),
{
    if let Some(v) = configured {
        if !is_blank(v) {
            return String::from_str(v);
        }
    }
    if let Some(v) = explicit {
        if !is_blank(v) {
            return String::from_str(v);
        }
    }
    match (user, username) {
        (Some(u), _) => String::from_str(u),
        (None, Some(u)) => String::from_str(u),
        (None, None) => String::from_str("agent"),
    }
}

/// Working instructions for Cursor.
pub fn instructions_cursor() -> &'static str {
    "# IMI Ops\n\nEvery session:\nimi status\nimi context\n\nWhen working:\nimi start <task_id>\nimi complete <task_id> \"summary\"\nimi memory add <goal_id> <key> \"insight\""
}

/// Working instructions for Copilot.
pub fn instructions_copilot() -> &'static str {
    "# IMI Ops for Copilot\n\nAt session start run:\nimi status\nimi context\n\nWhen you take work:\nimi start <task_id>\n\nWhen done:\nimi complete <task_id> \"summary\"\nimi memory add <goal_id> <key> \"what you learned\""
}

/// Working instructions for Windsurf.
pub fn instructions_windsurf() -> &'static str {
    "# IMI Ops for Windsurf\n\nBoot:\nimi status\nimi context\n\nExecution loop:\nimi next\nimi start <task_id>\nimi complete <task_id> \"summary\"\nimi memory add <goal_id> <key> \"insight\""
}

} // verus!
