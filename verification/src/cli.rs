//! The command line: the action and the options that follow it.
use vstd::prelude::*;

use crate::config::SystemKind;
use crate::domain::{BatchPolicy, RunOptions, RunSummary};
use crate::library::LibrarySummary;
use crate::migration::MigrationSummary;
use crate::error::{message, message_with, PipelineError, Result};
use crate::status::ProfileStatus;
use crate::numbers::{all_digits, decimal, decimal_chars, parse_usize, spec_parse_usize};
use crate::text::{append_chars, chars_eq, chars_of, lit, spec_upper, string_of, to_upper};

verus! {

/// What the program is asked to do.
#[derive(Clone, Copy, Debug, PartialEq, Eq)]
pub enum Action {
    Doctor,
    ExampleConfig,
    Help,
    Inventory,
    Migrate3dsLibrary,
    Prune,
    Publish,
    Run,
    Serve,
    Start,
    Status,
    Stop,
    Validate,
}

/// A parsed command line.
#[derive(Clone, Debug, PartialEq, Eq)]
pub struct Cli {
    pub action: Action,
    pub config: String,
    pub profile: String,
    pub limit: Option<usize>,
    pub only: Option<String>,
    pub reverify: bool,
    pub wait_for_source: bool,
    pub confirm_prune: bool,
}

/// A parsed command line, as plain values.
pub struct CliView {
    pub action: Action,
    pub config: Seq<char>,
    pub profile: Seq<char>,
    pub limit: Option<usize>,
    pub only: Option<Seq<char>>,
    pub reverify: bool,
    pub wait_for_source: bool,
    pub confirm_prune: bool,
}

impl View for Cli {
    type V = CliView;

    open spec fn view(&self) -> CliView {
        CliView {
            action: self.action,
            config: self.config@,
            profile: self.profile@,
            limit: self.limit,
            only: match self.only {
                Some(o) => Some(o@),
                None => None,
            },
            reverify: self.reverify,
            wait_for_source: self.wait_for_source,
            confirm_prune: self.confirm_prune,
        }
    }
}

/// The action that the first argument names; no argument asks for help.
pub open spec fn spec_action(first: Option<Seq<char>>) -> core::result::Result<Action, Seq<char>> {
    match first {
        None => Ok(Action::Help),
        Some(a) => if a == "help"@ || a == "-h"@ || a == "--help"@ {
            Ok(Action::Help)
        } else if a == "doctor"@ {
            Ok(Action::Doctor)
        } else if a == "example-config"@ {
            Ok(Action::ExampleConfig)
        } else if a == "inventory"@ || a == "dry-run"@ {
            Ok(Action::Inventory)
        } else if a == "migrate-3ds-library"@ {
            Ok(Action::Migrate3dsLibrary)
        } else if a == "publish"@ {
            Ok(Action::Publish)
        } else if a == "prune"@ {
            Ok(Action::Prune)
        } else if a == "run"@ {
            Ok(Action::Run)
        } else if a == "serve"@ {
            Ok(Action::Serve)
        } else if a == "start"@ || a == "resume"@ {
            Ok(Action::Start)
        } else if a == "status"@ {
            Ok(Action::Status)
        } else if a == "stop"@ {
            Ok(Action::Stop)
        } else if a == "validate"@ {
            Ok(Action::Validate)
        } else {
            Err("unknown command: "@ + a)
        },
    }
}

/// The action that the first argument names.
pub fn parse_action(first: Option<&String>) -> (r: Result<Action>)
    ensures
        match spec_action(
            match first {
                Some(a) => Some(a@),
                None => None,
            },
        ) {
            Ok(a) => r == Ok::<Action, PipelineError>(a),
            Err(msg) => r matches Err(PipelineError::Message(m)) && m@ == msg,
        },
{
    let a = match first {
        None => return Ok(Action::Help),
        Some(a) => chars_of(a.as_str()),
    };
    if chars_eq(&a, &lit("help")) || chars_eq(&a, &lit("-h")) || chars_eq(&a, &lit("--help")) {
        Ok(Action::Help)
    } else if chars_eq(&a, &lit("doctor")) {
        Ok(Action::Doctor)
    } else if chars_eq(&a, &lit("example-config")) {
        Ok(Action::ExampleConfig)
    } else if chars_eq(&a, &lit("inventory")) || chars_eq(&a, &lit("dry-run")) {
        Ok(Action::Inventory)
    } else if chars_eq(&a, &lit("migrate-3ds-library")) {
        Ok(Action::Migrate3dsLibrary)
    } else if chars_eq(&a, &lit("publish")) {
        Ok(Action::Publish)
    } else if chars_eq(&a, &lit("prune")) {
        Ok(Action::Prune)
    } else if chars_eq(&a, &lit("run")) {
        Ok(Action::Run)
    } else if chars_eq(&a, &lit("serve")) {
        Ok(Action::Serve)
    } else if chars_eq(&a, &lit("start")) || chars_eq(&a, &lit("resume")) {
        Ok(Action::Start)
    } else if chars_eq(&a, &lit("status")) {
        Ok(Action::Status)
    } else if chars_eq(&a, &lit("stop")) {
        Ok(Action::Stop)
    } else if chars_eq(&a, &lit("validate")) {
        Ok(Action::Validate)
    } else {
        Err(message_with("unknown command: ", &a))
    }
}

/// A batch limit given on the command line: a positive number.
pub open spec fn spec_limit(value: Seq<char>) -> core::result::Result<usize, Seq<char>> {
    match spec_parse_usize(value) {
        None => Err("invalid batch limit: "@ + value),
        Some(n) => if n == 0 {
            Err("batch limit must exceed zero"@)
        } else {
            Ok(n)
        },
    }
}

/// Parses a batch limit; it must be a positive number.
pub fn parse_limit(value: &str) -> (r: Result<usize>)
    ensures
        match spec_limit(value@) {
            Ok(n) => r == Ok::<usize, PipelineError>(n),
            Err(msg) => r matches Err(PipelineError::Message(m)) && m@ == msg,
        },
{
    let v = chars_of(value);
    match parse_usize(&v) {
        None => Err(message_with("invalid batch limit: ", &v)),
        Some(n) => if n == 0 {
            Err(message("batch limit must exceed zero"))
        } else {
            Ok(n)
        },
    }
}

/// The value that follows an option, at `index`.
pub fn value(arguments: &Vec<String>, index: usize, option: &str) -> (r: Result<String>)
    ensures
        index < arguments@.len() ==> (r matches Ok(v) && v@ == arguments@[index as int]@),
        index >= arguments@.len() ==> (r matches Err(PipelineError::Message(m)) && m@ == option@
            + " requires a value"@),
{
    if index < arguments.len() {
        Ok(arguments[index].clone())
    } else {
        let mut m = chars_of(option);
        crate::text::append_chars(&mut m, &lit(" requires a value"));
        Err(PipelineError::Message(string_of(&m)))
    }
}

/// The command line after reading the options from `i` on, or the message of the first
/// error.
pub open spec fn parse_options(args: Seq<Seq<char>>, i: int, cli: CliView) -> core::result::Result<
    CliView,
    Seq<char>,
>
    decreases args.len() - i,
{
    if i < 0 || i >= args.len() {
        Ok(cli)
    } else {
        let a = args[i];
        if a == "--config"@ || a == "--profile"@ || a == "--limit"@ || a == "--only"@ {
            if i + 1 >= args.len() {
                Err(a + " requires a value"@)
            } else {
                let v = args[i + 1];
                if a == "--config"@ {
                    parse_options(args, i + 2, CliView { config: v, ..cli })
                } else if a == "--profile"@ {
                    parse_options(args, i + 2, CliView { profile: v, ..cli })
                } else if a == "--limit"@ {
                    match spec_limit(v) {
                        Err(m) => Err(m),
                        Ok(n) => parse_options(args, i + 2, CliView { limit: Some(n), ..cli }),
                    }
                } else {
                    parse_options(args, i + 2, CliView { only: Some(spec_upper(v)), ..cli })
                }
            }
        } else if a == "--reverify"@ {
            parse_options(args, i + 1, CliView { reverify: true, ..cli })
        } else if a == "--no-wait"@ {
            parse_options(args, i + 1, CliView { wait_for_source: false, ..cli })
        } else if a == "--confirm-prune"@ {
            parse_options(args, i + 1, CliView { confirm_prune: true, ..cli })
        } else if all_digits(a) {
            match spec_limit(a) {
                Err(m) => Err(m),
                Ok(n) => parse_options(args, i + 1, CliView { limit: Some(n), ..cli }),
            }
        } else {
            Err("unknown option: "@ + a)
        }
    }
}

/// What the arguments after the program name yield: the action, then the options over the
/// defaults (the given configuration path, profile `wiiu`, waiting for sources).
pub open spec fn spec_cli(args: Seq<Seq<char>>, default_config: Seq<char>) -> core::result::Result<
    CliView,
    Seq<char>,
> {
    let first = if args.len() > 0 {
        Some(args[0])
    } else {
        None
    };
    match spec_action(first) {
        Err(m) => Err(m),
        Ok(action) => parse_options(
            args,
            1,
            CliView {
                action,
                config: default_config,
                profile: "wiiu"@,
                limit: None,
                only: None,
                reverify: false,
                wait_for_source: true,
                confirm_prune: false,
            },
        ),
    }
}

/// The views of the arguments.
pub open spec fn arg_views(args: Seq<String>) -> Seq<Seq<char>> {
    args.map_values(|a: String| a@)
}

impl Cli {
    /// Parses the arguments that follow the program name; `default_config` is the
    /// configuration path used when `--config` is not given.
    ///
    /// Fails on an unknown command or option, an option without its value, or a limit
    /// that is not a positive number.
    pub fn from_args(args: &Vec<String>, default_config: &str) -> (r: Result<Cli>)
        ensures
            match spec_cli(arg_views(args@), default_config@) {
                Ok(c) => r matches Ok(x) && x@ == c,
                Err(msg) => r matches Err(PipelineError::Message(m)) && m@ == msg,
            },
    {
        let ghost av = arg_views(args@);
        let first = if args.len() > 0 {
            Some(&args[0])
        } else {
            None
        };
        proof {
            if args@.len() > 0 {
                assert(av[0] == args@[0]@);
            }
        }
        let action = match parse_action(first) {
            Ok(a) => a,
            Err(e) => return Err(e),
        };
        let mut cli = Cli {
            action,
            config: default_config.to_owned(),
            profile: "wiiu".to_owned(),
            limit: None,
            only: None,
            reverify: false,
            wait_for_source: true,
            confirm_prune: false,
        };
        let mut index: usize = 1;
        while index < args.len()
            invariant
                1 <= index,
                av == arg_views(args@),
                spec_cli(av, default_config@) == parse_options(av, index as int, cli@),
            decreases args@.len() - index,
        {
            let a = chars_of(args[index].as_str());
            assert(av[index as int] == a@);
            let takes_value = chars_eq(&a, &lit("--config")) || chars_eq(&a, &lit("--profile"))
                || chars_eq(&a, &lit("--limit")) || chars_eq(&a, &lit("--only"));
            if takes_value {
                let option = string_of(&a);
                let v = match value(args, index + 1, option.as_str()) {
                    Ok(v) => v,
                    Err(e) => return Err(e),
                };
                assert(av[index + 1] == v@);
                if chars_eq(&a, &lit("--config")) {
                    cli.config = v;
                } else if chars_eq(&a, &lit("--profile")) {
                    cli.profile = v;
                } else if chars_eq(&a, &lit("--limit")) {
                    match parse_limit(v.as_str()) {
                        Ok(n) => cli.limit = Some(n),
                        Err(e) => return Err(e),
                    }
                } else {
                    let up = to_upper(&chars_of(v.as_str()));
                    cli.only = Some(string_of(&up));
                }
                index += 2;
            } else if chars_eq(&a, &lit("--reverify")) {
                cli.reverify = true;
                index += 1;
            } else if chars_eq(&a, &lit("--no-wait")) {
                cli.wait_for_source = false;
                index += 1;
            } else if chars_eq(&a, &lit("--confirm-prune")) {
                cli.confirm_prune = true;
                index += 1;
            } else {
                let mut digits = true;
                let mut k: usize = 0;
                while k < a.len()
                    invariant
                        k <= a@.len(),
                        digits == (forall|j: int|
                            0 <= j < k ==> crate::text::is_digit(#[trigger] a@[j])),
                    decreases a@.len() - k,
                {
                    if !('0' <= a[k] && a[k] <= '9') {
                        digits = false;
                    }
                    k += 1;
                }
                if digits {
                    let text = string_of(&a);
                    match parse_limit(text.as_str()) {
                        Ok(n) => cli.limit = Some(n),
                        Err(e) => return Err(e),
                    }
                    index += 1;
                } else {
                    return Err(message_with("unknown option: ", &a));
                }
            }
        }
        Ok(cli)
    }
}

/// What running a command leaves to do.
#[derive(Clone, Debug, PartialEq, Eq)]
pub enum Execution {
    /// The command is done.
    Complete,
    /// The status service is to be served with this configuration and executable.
    Serve { config: String, executable: String },
}

/// The run options of a command line for a profile: its limit (the profile's when none is
/// given), job, re-verification and waiting.
pub fn options(cli: &Cli, profile_batch_limit: usize) -> (r: Result<RunOptions>)
    ensures
        ({
            let limit = match cli.limit {
                Some(n) => n,
                None => profile_batch_limit,
            };
            &&& (r is Ok <==> limit > 0)
            &&& r matches Ok(o) ==> {
                &&& o.limit.spec_limit() == limit
                &&& o.only_job == cli.only
                &&& o.reverify == cli.reverify
                &&& o.wait_for_source == cli.wait_for_source
            }
            &&& r matches Err(e) ==> e matches PipelineError::InvalidConfig(m) && m@
                == "batch limit must exceed zero"@
        }),
{
    let limit = match cli.limit {
        Some(n) => n,
        None => profile_batch_limit,
    };
    let policy = match BatchPolicy::new(limit) {
        Ok(p) => p,
        Err(e) => return Err(e),
    };
    Ok(RunOptions {
        limit: policy,
        only_job: cli.only.clone(),
        reverify: cli.reverify,
        wait_for_source: cli.wait_for_source,
    })
}

/// A label followed by a count.
fn count_line(label: &str, n: usize) -> (r: String)
    ensures
        r@ == label@ + decimal_chars(n as nat),
{
    let mut v = chars_of(label);
    append_chars(&mut v, &decimal(n as u64));
    string_of(&v)
}

/// A label followed by a text.
fn text_line(label: &str, value: &[char]) -> (r: String)
    ensures
        r@ == label@ + value@,
{
    let mut v = chars_of(label);
    append_chars(&mut v, value);
    string_of(&v)
}

/// An optional text, or `none`.
pub open spec fn or_none(o: Option<String>) -> Seq<char> {
    match o {
        Some(s) => s@,
        None => "none"@,
    }
}

/// An optional text, or `none`.
fn text_or_none(o: &Option<String>) -> (r: Vec<char>)
    ensures
        r@ == or_none(*o),
{
    match o {
        Some(s) => chars_of(s.as_str()),
        None => lit("none"),
    }
}

/// The lines of the status report of a profile, in the order they are printed.
pub fn status_lines(status: &ProfileStatus) -> (r: Vec<String>)
    ensures
        r@.len() == 11 + (if status.publication is Some {
            2int
        } else {
            0int
        }) + (if status.prune is Some {
            2int
        } else {
            0int
        }),
        r@[0]@ == "profile="@ + status.profile@,
        r@[1]@ == "service="@ + status.service@,
        r@[2]@ == "activity="@ + status.activity@,
        r@[3]@ == "current="@ + status.current@,
        r@[4]@ == "batch_limit="@ + decimal_chars(status.batch_limit as nat),
        r@[5]@ == "groups="@ + decimal_chars(status.completed_groups as nat) + "/"@
            + decimal_chars(status.total_groups as nat),
        r@[6]@ == "output_files="@ + decimal_chars(status.output_files as nat),
        r@[7]@ == "source_archives_moved_to_done="@ + decimal_chars(
            status.source_archives_moved_to_done as nat,
        ),
        r@[8]@ == "current_run_failures="@ + decimal_chars(status.current_run_failures as nat),
        status.publication matches Some(p) ==> {
            &&& r@[9]@ == "publication="@ + decimal_chars(p.published as nat) + "/"@
                + decimal_chars(p.total as nat) + " remaining="@ + decimal_chars(
                p.remaining as nat,
            ) + " ready="@ + decimal_chars(p.ready as nat) + " partial="@ + decimal_chars(
                p.partial_files as nat,
            ) + " phase="@ + p.phase@
            &&& r@[10]@ == "publication_current="@ + or_none(p.current_game)
        },
        status.prune matches Some(p) ==> ({
            let k = if status.publication is Some {
                11int
            } else {
                9int
            };
            &&& r@[k]@ == "prune="@ + decimal_chars(p.removed as nat) + "/"@ + decimal_chars(
                p.total as nat,
            ) + " remaining="@ + decimal_chars(p.remaining as nat) + " phase="@ + p.phase@
            &&& r@[k + 1]@ == "prune_current="@ + or_none(p.current_game)
        }),
        r@[r@.len() - 2]@ == "active_worker="@ + or_none(status.active_worker),
        r@[r@.len() - 1]@ == "log="@ + status.log@,
{
    let mut out: Vec<String> = Vec::new();
    out.push(text_line("profile=", &chars_of(status.profile.as_str())));
    out.push(text_line("service=", &chars_of(status.service.as_str())));
    out.push(text_line("activity=", &chars_of(status.activity.as_str())));
    out.push(text_line("current=", &chars_of(status.current.as_str())));
    out.push(count_line("batch_limit=", status.batch_limit));
    let mut g = lit("groups=");
    append_chars(&mut g, &decimal(status.completed_groups as u64));
    append_chars(&mut g, &lit("/"));
    append_chars(&mut g, &decimal(status.total_groups as u64));
    out.push(string_of(&g));
    out.push(count_line("output_files=", status.output_files));
    out.push(count_line("source_archives_moved_to_done=", status.source_archives_moved_to_done));
    out.push(count_line("current_run_failures=", status.current_run_failures));
    if let Some(p) = &status.publication {
        let mut l = lit("publication=");
        append_chars(&mut l, &decimal(p.published as u64));
        append_chars(&mut l, &lit("/"));
        append_chars(&mut l, &decimal(p.total as u64));
        append_chars(&mut l, &lit(" remaining="));
        append_chars(&mut l, &decimal(p.remaining as u64));
        append_chars(&mut l, &lit(" ready="));
        append_chars(&mut l, &decimal(p.ready as u64));
        append_chars(&mut l, &lit(" partial="));
        append_chars(&mut l, &decimal(p.partial_files as u64));
        append_chars(&mut l, &lit(" phase="));
        append_chars(&mut l, &chars_of(p.phase.as_str()));
        out.push(string_of(&l));
        out.push(text_line("publication_current=", &text_or_none(&p.current_game)));
    }
    if let Some(p) = &status.prune {
        let mut l = lit("prune=");
        append_chars(&mut l, &decimal(p.removed as u64));
        append_chars(&mut l, &lit("/"));
        append_chars(&mut l, &decimal(p.total as u64));
        append_chars(&mut l, &lit(" remaining="));
        append_chars(&mut l, &decimal(p.remaining as u64));
        append_chars(&mut l, &lit(" phase="));
        append_chars(&mut l, &chars_of(p.phase.as_str()));
        out.push(string_of(&l));
        out.push(text_line("prune_current=", &text_or_none(&p.current_game)));
    }
    out.push(text_line("active_worker=", &text_or_none(&status.active_worker)));
    out.push(text_line("log=", &chars_of(status.log.as_str())));
    out
}


/// Why a command cannot act on a profile of `system`, if it cannot: publish and prune act
/// on PSP profiles only, the 3DS library migration on 3DS profiles only, and PS2 profiles
/// have no preflight or inventory from the command line.
pub open spec fn spec_command_problem(action: Action, system: SystemKind) -> Option<Seq<char>> {
    match action {
        Action::Publish => if system != SystemKind::PlayStationPortable {
            Some("publish is currently implemented only for PSP"@)
        } else {
            None
        },
        Action::Prune => if system != SystemKind::PlayStationPortable {
            Some("prune is currently implemented only for PSP"@)
        } else {
            None
        },
        Action::Migrate3dsLibrary => if system != SystemKind::Nintendo3ds {
            Some("migrate-3ds-library requires a Nintendo 3DS profile"@)
        } else {
            None
        },
        Action::Doctor | Action::Inventory => if system == SystemKind::PlayStation2 {
            Some("PS2 adapter is not implemented yet"@)
        } else {
            None
        },
        _ => None,
    }
}

/// Checks that a command can act on a profile of `system`.
pub fn check_command_system(action: Action, system: SystemKind) -> (r: Result<()>)
    ensures
        match spec_command_problem(action, system) {
            None => r is Ok,
            Some(m) => r matches Err(PipelineError::Message(x)) && x@ == m,
        },
{
    match action {
        Action::Publish => match system {
            SystemKind::PlayStationPortable => Ok(()),
            _ => Err(message("publish is currently implemented only for PSP")),
        },
        Action::Prune => match system {
            SystemKind::PlayStationPortable => Ok(()),
            _ => Err(message("prune is currently implemented only for PSP")),
        },
        Action::Migrate3dsLibrary => match system {
            SystemKind::Nintendo3ds => Ok(()),
            _ => Err(message("migrate-3ds-library requires a Nintendo 3DS profile")),
        },
        Action::Doctor | Action::Inventory => match system {
            SystemKind::PlayStation2 => Err(message("PS2 adapter is not implemented yet")),
            _ => Ok(()),
        },
        _ => Ok(()),
    }
}

/// Checks, before anything is read, that a prune was confirmed on the command line.
pub fn check_prune_confirmed(cli: &Cli) -> (r: Result<()>)
    ensures
        r is Ok <==> (cli.action != Action::Prune || cli.confirm_prune),
        r matches Err(e) ==> e matches PipelineError::Message(m) && m@
            == "prune permanently deletes processed source ISOs; pass --confirm-prune"@,
{
    match cli.action {
        Action::Prune => if cli.confirm_prune {
            Ok(())
        } else {
            Err(message("prune permanently deletes processed source ISOs; pass --confirm-prune"))
        },
        _ => Ok(()),
    }
}

/// The report of a publish or prune batch.
pub fn library_report(action: Action, s: &LibrarySummary) -> (r: String)
    ensures
        r@ == (if action == Action::Prune {
            "pruned_jobs="@
        } else {
            "published="@
        }) + decimal_chars(s.completed_jobs as nat) + " failed="@ + decimal_chars(
            s.failed_jobs as nat,
        ) + (if action == Action::Prune {
            " source_files_removed="@
        } else {
            " staging_files_removed="@
        }) + decimal_chars(s.files_removed as nat) + " bytes_reclaimed="@ + decimal_chars(
            s.bytes_reclaimed as nat,
        ),
{
    let prune = match action {
        Action::Prune => true,
        _ => false,
    };
    let mut v = if prune {
        lit("pruned_jobs=")
    } else {
        lit("published=")
    };
    append_chars(&mut v, &decimal(s.completed_jobs as u64));
    append_chars(&mut v, &lit(" failed="));
    append_chars(&mut v, &decimal(s.failed_jobs as u64));
    if prune {
        append_chars(&mut v, &lit(" source_files_removed="));
    } else {
        append_chars(&mut v, &lit(" staging_files_removed="));
    }
    append_chars(&mut v, &decimal(s.files_removed as u64));
    append_chars(&mut v, &lit(" bytes_reclaimed="));
    append_chars(&mut v, &decimal(s.bytes_reclaimed));
    string_of(&v)
}

/// The report of a 3DS library migration batch.
pub fn migration_report(s: &MigrationSummary) -> (r: String)
    ensures
        r@ == "converted="@ + decimal_chars(s.converted as nat) + " already_complete="@
            + decimal_chars(s.already_complete as nat) + " failed="@ + decimal_chars(
            s.failed as nat,
        ),
{
    let mut v = lit("converted=");
    append_chars(&mut v, &decimal(s.converted as u64));
    append_chars(&mut v, &lit(" already_complete="));
    append_chars(&mut v, &decimal(s.already_complete as u64));
    append_chars(&mut v, &lit(" failed="));
    append_chars(&mut v, &decimal(s.failed as u64));
    string_of(&v)
}

/// The report of a run.
pub fn run_report(s: &RunSummary) -> (r: String)
    ensures
        r@ == "completed="@ + decimal_chars(s.completed as nat) + " failed="@ + decimal_chars(
            s.failed as nat,
        ) + " waiting="@ + decimal_chars(s.waiting as nat),
{
    let mut v = lit("completed=");
    append_chars(&mut v, &decimal(s.completed as u64));
    append_chars(&mut v, &lit(" failed="));
    append_chars(&mut v, &decimal(s.failed as u64));
    append_chars(&mut v, &lit(" waiting="));
    append_chars(&mut v, &decimal(s.waiting as u64));
    string_of(&v)
}

} // verus!
