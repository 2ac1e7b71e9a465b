//! The profile worker: the decisions of a run over a profile's jobs, and the user service
//! that runs it.
use vstd::prelude::*;

use crate::domain::{BatchPolicy, RunSummary};
use crate::error::{PipelineError, Result};
use crate::numbers::{decimal, decimal_chars};
use crate::text::{append_chars, chars_eq, chars_of, lit, spec_trim, string_of, trim};

verus! {

/// The name of a profile's user service.
pub fn unit_name(profile_id: &str) -> (r: String)
    ensures
        r@ == "rom-pipeline-"@ + profile_id@ + ".service"@,
{
    let mut v = lit("rom-pipeline-");
    append_chars(&mut v, &chars_of(profile_id));
    append_chars(&mut v, &lit(".service"));
    string_of(&v)
}

/// The state of a service as `systemctl is-active` prints it; nothing means `inactive`.
pub open spec fn spec_service_state(stdout: Seq<char>) -> Seq<char> {
    if spec_trim(stdout).len() == 0 {
        "inactive"@
    } else {
        spec_trim(stdout)
    }
}

/// The state of a service from what `systemctl is-active` printed.
pub fn service_state_text(stdout: &str) -> (r: String)
    ensures
        r@ == spec_service_state(stdout@),
{
    let t = trim(&chars_of(stdout));
    if t.len() == 0 {
        "inactive".to_owned()
    } else {
        string_of(&t)
    }
}

/// Whether to launch a worker for `action`, given the service's state: not when it is
/// active (an error when the action must not run beside another).
pub fn launch_decision(state: &str, reject_active: bool, profile_id: &str, action: &str) -> (r:
    Result<bool>)
    ensures
        state@ != "active"@ ==> r == Ok::<bool, PipelineError>(true),
        state@ == "active"@ && !reject_active ==> r == Ok::<bool, PipelineError>(false),
        state@ == "active"@ && reject_active ==> (r matches Err(PipelineError::Message(m)) && m@
            == "profile "@ + profile_id@ + " is active; stop or wait for it before "@ + action@),
{
    if chars_eq(&chars_of(state), &lit("active")) {
        if reject_active {
            let mut m = lit("profile ");
            append_chars(&mut m, &chars_of(profile_id));
            append_chars(&mut m, &lit(" is active; stop or wait for it before "));
            append_chars(&mut m, &chars_of(action));
            return Err(PipelineError::Message(string_of(&m)));
        }
        return Ok(false);
    }
    Ok(true)
}

/// `s` without every trailing copy of `suffix` (`str::trim_end_matches`).
pub open spec fn trim_suffix(s: Seq<char>, suffix: Seq<char>) -> Seq<char>
    decreases s.len(),
{
    if suffix.len() > 0 && suffix.len() <= s.len() && s.skip(s.len() - suffix.len()) == suffix {
        trim_suffix(s.take(s.len() - suffix.len()), suffix)
    } else {
        s
    }
}

/// `s` without every trailing copy of `suffix`.
pub fn trim_end_matches(s: &[char], suffix: &[char]) -> (r: Vec<char>)
    ensures
        r@ == trim_suffix(s@, suffix@),
{
    let mut end = s.len();
    assert(s@.take(end as int) =~= s@);
    loop
        invariant
            end <= s@.len(),
            trim_suffix(s@, suffix@) == trim_suffix(s@.take(end as int), suffix@),
        decreases end,
    {
        let head = vstd::slice::slice_subrange(s, 0, end);
        assert(head@ =~= s@.take(end as int));
        if suffix.len() > 0 && suffix.len() <= end && crate::text::ends_with(head, suffix) {
            let ghost t = s@.take(end as int);
            assert(t.take(t.len() - suffix@.len()) =~= s@.take(end - suffix@.len()));
            end = end - suffix.len();
        } else {
            return crate::text::copy_range(s, 0, end);
        }
    }
}

/// The arguments of the `systemd-run` command that starts a profile's worker for `action`.
pub fn launch_arguments(
    executable: &str,
    config_path: &str,
    profile_id: &str,
    limit: BatchPolicy,
    action: &str,
) -> (r: Vec<String>)
    ensures
        r@.len() == if action@ == "prune"@ {
            15int
        } else {
            14int
        },
        r@[0]@ == "--user"@,
        r@[1]@ == "--unit="@ + trim_suffix(
            "rom-pipeline-"@ + profile_id@ + ".service"@,
            ".service"@,
        ),
        r@[2]@ == "--description=ROM Pipeline conversion worker"@,
        r@[3]@ == "--property=Nice=10"@,
        r@[4]@ == "--property=IOSchedulingClass=best-effort"@,
        r@[5]@ == "--property=IOSchedulingPriority=6"@,
        r@[6]@ == executable@,
        r@[7]@ == action@,
        r@[8]@ == "--config"@,
        r@[9]@ == config_path@,
        r@[10]@ == "--profile"@,
        r@[11]@ == profile_id@,
        r@[12]@ == "--limit"@,
        r@[13]@ == decimal_chars(limit.spec_limit() as nat),
        action@ == "prune"@ ==> r@[14]@ == "--confirm-prune"@,
{
    let unit = unit_name(profile_id);
    let unit_chars = chars_of(unit.as_str());
    let base = trim_end_matches(&unit_chars, &lit(".service"));
    let mut u = lit("--unit=");
    append_chars(&mut u, &base);
    let mut out: Vec<String> = Vec::new();
    out.push("--user".to_owned());
    out.push(string_of(&u));
    out.push("--description=ROM Pipeline conversion worker".to_owned());
    out.push("--property=Nice=10".to_owned());
    out.push("--property=IOSchedulingClass=best-effort".to_owned());
    out.push("--property=IOSchedulingPriority=6".to_owned());
    out.push(executable.to_owned());
    out.push(action.to_owned());
    out.push("--config".to_owned());
    out.push(config_path.to_owned());
    out.push("--profile".to_owned());
    out.push(profile_id.to_owned());
    out.push("--limit".to_owned());
    out.push(string_of(&decimal(limit.limit() as u64)));
    if chars_eq(&chars_of(action), &lit("prune")) {
        out.push("--confirm-prune".to_owned());
    }
    out
}

/// The command named when a worker fails to start.
pub fn launch_failure_command(action: &str) -> (r: String)
    ensures
        r@ == "systemd-run ROM Pipeline "@ + action@ + " worker"@,
{
    let mut v = lit("systemd-run ROM Pipeline ");
    append_chars(&mut v, &chars_of(action));
    append_chars(&mut v, &lit(" worker"));
    string_of(&v)
}

/// The share of a source's size that its output saves, in whole percent; no saving when
/// the output is not smaller or the source is empty.
pub open spec fn spec_savings_percent(source: u64, output: u64) -> u64 {
    if source == 0 || output >= source {
        0
    } else {
        let scaled = (source - output) * 100;
        (if scaled > u64::MAX {
            u64::MAX as int
        } else {
            scaled
        } / source as int) as u64
    }
}

/// The share of a source's size that its output saves, in whole percent.
pub fn savings_percent(source: u64, output: u64) -> (r: u64)
    ensures
        r == spec_savings_percent(source, output),
        r <= 100,
{
    if source == 0 || output >= source {
        0
    } else {
        let saved = source - output;
        let scaled: u64 = if saved > u64::MAX / 100 {
            u64::MAX
        } else {
            saved * 100
        };
        proof {
            if saved * 100 <= u64::MAX {
                assert(scaled == saved * 100);
                assert(scaled / source <= 100) by (nonlinear_arith)
                    requires
                        scaled == saved * 100,
                        saved <= source,
                        source > 0,
                ;
            } else {
                assert(scaled == u64::MAX);
                assert(scaled / source <= 100) by (nonlinear_arith)
                    requires
                        scaled <= saved * 100,
                        saved <= source,
                        source > 0,
                ;
            }
        }
        scaled / source
    }
}

/// Whether a PS2 job keeps its source image in place of the CHD: the profile keeps
/// sources whose compression is not worthwhile, and the CHD saves less than the minimum.
pub fn keeps_source(settings: &crate::config::Ps2Settings, source_size: u64, chd_size: u64) -> (r:
    bool)
    ensures
        r == (settings.preserve_when_compression_is_not_worthwhile && spec_savings_percent(
            source_size,
            chd_size,
        ) < settings.minimum_savings_percent as u64),
{
    let savings = savings_percent(source_size, chd_size);
    settings.preserve_when_compression_is_not_worthwhile && savings
        < settings.minimum_savings_percent as u64
}

/// Where a pass over a profile's jobs stands.
#[derive(Clone, Copy, Debug, PartialEq, Eq)]
pub struct Pass {
    /// The index of the job the pass is at.
    pub next: usize,
    /// How many jobs so far wait for their sources.
    pub waiting: usize,
    /// Whether a ready job was processed.
    pub made_progress: bool,
}

/// How processing a ready job ended.
#[derive(Clone, Debug, PartialEq, Eq)]
pub enum ProcessReport {
    Completed,
    Interrupted,
    /// Processing failed, with the error's description.
    Failed(String),
}

/// What was observed of the job a pass is at, in the order the runner asks: whether a stop
/// was requested, whether the job is complete (and how moving its sources went), whether
/// its sources are ready, and how processing it went.
#[derive(Clone, Debug, PartialEq, Eq)]
pub enum JobReport {
    StopRequested,
    Complete { reconcile_error: Option<String> },
    Waiting,
    ReadinessFailed(String),
    Ready(ProcessReport),
}

/// What the runner writes down for a job.
#[derive(Clone, Debug, PartialEq, Eq)]
pub enum Note {
    /// A failure to record against the job.
    Failure(String),
    /// The job was interrupted: the current activity and the log line to write.
    Interrupted { current: String, log: String },
}

/// Where a pass goes next.
#[derive(Clone, Copy, Debug, PartialEq, Eq)]
pub enum PassStep {
    /// On to the job at `next`.
    Continue,
    /// A stop was requested; the pass ends.
    Stopped,
    /// The batch limit was reached.
    BatchComplete,
    /// Every job was seen and none waits for sources.
    Finished,
    /// Every job was seen and some wait for sources.
    Pending { waiting: usize, made_progress: bool },
}

/// How a pass ends once every job was seen.
pub open spec fn spec_pass_end(waiting: usize, made_progress: bool) -> PassStep {
    if waiting == 0 {
        PassStep::Finished
    } else {
        PassStep::Pending { waiting, made_progress }
    }
}

impl Pass {
    /// A pass at the first job.
    pub fn new() -> (r: Pass)
        ensures
            r.next == 0,
            r.waiting == 0,
            !r.made_progress,
    {
        Pass { next: 0, waiting: 0, made_progress: false }
    }

    /// How a pass ends once every job was seen.
    pub fn end(&self) -> (r: PassStep)
        ensures
            r == spec_pass_end(self.waiting, self.made_progress),
    {
        if self.waiting == 0 {
            PassStep::Finished
        } else {
            PassStep::Pending { waiting: self.waiting, made_progress: self.made_progress }
        }
    }

    /// Takes in what was observed of the job at `next` (whose ID is `job_id`), counts it
    /// in the summary, and says what to write down and where the pass goes.
    ///
    /// A completed job counts toward the batch limit, and the pass ends as soon as the
    /// limit is reached; every failure is counted and recorded, and the pass goes on.
    pub fn step(
        &mut self,
        summary: &mut RunSummary,
        job_count: usize,
        limit: BatchPolicy,
        report: JobReport,
        job_id: &str,
        log_dir: &str,
    ) -> (r: (Option<Note>, PassStep))
        requires
            old(self).next < job_count,
            old(summary).completed < limit.spec_limit(),
            old(summary).failed < usize::MAX,
            old(self).waiting < usize::MAX,
        ensures
            final(summary).waiting == old(summary).waiting,
            final(summary).completed == old(summary).completed + if report == JobReport::Ready(
                ProcessReport::Completed,
            ) {
                1int
            } else {
                0int
            },
            final(summary).failed == old(summary).failed + match report {
                JobReport::Complete { reconcile_error: Some(_) } => 1int,
                JobReport::ReadinessFailed(_) => 1int,
                JobReport::Ready(ProcessReport::Failed(_)) => 1int,
                _ => 0int,
            },
            r.1 == PassStep::BatchComplete <==> (report == JobReport::Ready(
                ProcessReport::Completed,
            ) && final(summary).completed == limit.spec_limit()),
            r.1 != PassStep::BatchComplete ==> final(summary).completed < limit.spec_limit(),
            report == JobReport::StopRequested ==> r.1 == PassStep::Stopped && r.0 is None,
            report == JobReport::Ready(ProcessReport::Interrupted) ==> r.1 == PassStep::Stopped,
            (r.1 == PassStep::Stopped) ==> (report == JobReport::StopRequested || report
                == JobReport::Ready(ProcessReport::Interrupted)),
            final(self).waiting == old(self).waiting + if report == JobReport::Waiting {
                1int
            } else {
                0int
            },
            final(self).made_progress == (old(self).made_progress || report is Ready),
            r.1 == PassStep::Continue ==> final(self).next == old(self).next + 1
                && final(self).next < job_count,
            (r.1 is Finished || r.1 is Pending) ==> old(self).next + 1 == job_count && r.1
                == spec_pass_end(final(self).waiting, final(self).made_progress),
            match report {
                JobReport::Complete { reconcile_error: Some(e) } => r.0 matches Some(
                    Note::Failure(m),
                ) && m@ == "verified output exists but source move failed: "@ + e@,
                JobReport::ReadinessFailed(e) => r.0 matches Some(Note::Failure(m)) && m@
                    == "source readiness failed: "@ + e@,
                JobReport::Ready(ProcessReport::Failed(e)) => r.0 matches Some(Note::Failure(m))
                    && m@ == "processing failed: "@ + e@ + "; see "@ + log_dir@ + "/groups/"@
                    + job_id@ + ".log"@,
                JobReport::Ready(ProcessReport::Interrupted) => r.0 matches Some(
                    Note::Interrupted { current, log },
                ) && current@ == "stopped cleanly; group="@ + job_id@ + " will retry on resume"@
                    && log@ == "STOPPED cleanly; group="@ + job_id@ + " remains resumable"@,
                _ => r.0 is None,
            },
    {
        let limit_value = limit.limit();
        let mut note: Option<Note> = None;
        match report {
            JobReport::StopRequested => {
                return (None, PassStep::Stopped);
            },
            JobReport::Complete { reconcile_error } => {
                if let Some(e) = reconcile_error {
                    summary.failed = summary.failed + 1;
                    let mut m = lit("verified output exists but source move failed: ");
                    append_chars(&mut m, &chars_of(e.as_str()));
                    note = Some(Note::Failure(string_of(&m)));
                }
            },
            JobReport::Waiting => {
                self.waiting = self.waiting + 1;
            },
            JobReport::ReadinessFailed(e) => {
                summary.failed = summary.failed + 1;
                let mut m = lit("source readiness failed: ");
                append_chars(&mut m, &chars_of(e.as_str()));
                note = Some(Note::Failure(string_of(&m)));
            },
            JobReport::Ready(outcome) => {
                self.made_progress = true;
                match outcome {
                    ProcessReport::Completed => {
                        summary.completed = summary.completed + 1;
                    },
                    ProcessReport::Interrupted => {
                        let id = chars_of(job_id);
                        let mut current = lit("stopped cleanly; group=");
                        append_chars(&mut current, &id);
                        append_chars(&mut current, &lit(" will retry on resume"));
                        let mut log = lit("STOPPED cleanly; group=");
                        append_chars(&mut log, &id);
                        append_chars(&mut log, &lit(" remains resumable"));
                        return (
                            Some(
                                Note::Interrupted {
                                    current: string_of(&current),
                                    log: string_of(&log),
                                },
                            ),
                            PassStep::Stopped,
                        );
                    },
                    ProcessReport::Failed(e) => {
                        summary.failed = summary.failed + 1;
                        let mut m = lit("processing failed: ");
                        append_chars(&mut m, &chars_of(e.as_str()));
                        append_chars(&mut m, &lit("; see "));
                        append_chars(&mut m, &chars_of(log_dir));
                        append_chars(&mut m, &lit("/groups/"));
                        append_chars(&mut m, &chars_of(job_id));
                        append_chars(&mut m, &lit(".log"));
                        note = Some(Note::Failure(string_of(&m)));
                    },
                }
                if summary.completed >= limit_value {
                    return (note, PassStep::BatchComplete);
                }
            },
        }
        self.next = self.next + 1;
        if self.next == job_count {
            let end = self.end();
            return (note, end);
        }
        (note, PassStep::Continue)
    }
}

/// What a run does once a pass ended.
#[derive(Debug, PartialEq, Eq)]
pub enum RunAction {
    /// Write the current activity and the log line, and end the run with `outcome`.
    Finish { current: String, log: String, outcome: Result<()> },
    /// Wait for the sources of this many jobs, then pass again.
    WaitForSources(usize),
    /// Pass again at once.
    PassAgain,
}

/// What a run does after a pass that ended with `step`; the number of waiting jobs is
/// recorded in the summary.
pub fn after_pass(step: PassStep, summary: &mut RunSummary, limit: BatchPolicy, wait_for_source: bool)
    -> (r: RunAction)
    requires
        step != PassStep::Continue,
    ensures
        final(summary).completed == old(summary).completed,
        final(summary).failed == old(summary).failed,
        step matches PassStep::Pending { waiting, .. } ==> final(summary).waiting == waiting,
        !(step is Pending) ==> final(summary).waiting == old(summary).waiting,
        step == PassStep::BatchComplete ==> (r matches RunAction::Finish { current, log, outcome }
            && current@ == "batch complete converted="@ + decimal_chars(
            old(summary).completed as nat,
        ) + " limit="@ + decimal_chars(limit.spec_limit() as nat) && log@
            == "BATCH COMPLETE converted="@ + decimal_chars(old(summary).completed as nat)
            + " limit="@ + decimal_chars(limit.spec_limit() as nat) && outcome is Ok),
        step == PassStep::Stopped ==> (r matches RunAction::Finish { current, log, outcome }
            && current@ == "stopped cleanly"@ && log@ == "STOPPED cleanly before next group"@
            && outcome is Ok),
        step == PassStep::Finished && old(summary).failed == 0 ==> (r matches RunAction::Finish {
            current,
            log,
            outcome,
        } && current@ == "finished failures=0"@ && log@
            == "FINISHED all inventoried groups successfully"@ && outcome is Ok),
        step == PassStep::Finished && old(summary).failed > 0 ==> (r matches RunAction::Finish {
            current,
            log,
            outcome,
        } && current@ == "finished failures="@ + decimal_chars(old(summary).failed as nat) && log@
            == "FINISHED with failures="@ + decimal_chars(old(summary).failed as nat) && (outcome
            matches Err(PipelineError::Message(m)) && m@ == "pipeline finished with "@
            + decimal_chars(old(summary).failed as nat) + " failures"@)),
        step matches PassStep::Pending { waiting, made_progress } ==> {
            &&& !wait_for_source ==> (r matches RunAction::Finish { current, log, outcome }
                && current@ == "waiting groups="@ + decimal_chars(waiting as nat) && log@
                == "INCOMPLETE waiting_groups="@ + decimal_chars(waiting as nat)
                + " and no-wait was requested"@ && outcome is Ok)
            &&& wait_for_source && !made_progress ==> r == RunAction::WaitForSources(waiting)
            &&& wait_for_source && made_progress ==> r == RunAction::PassAgain
        },
{
    match step {
        PassStep::BatchComplete => {
            let c = decimal(summary.completed as u64);
            let l = decimal(limit.limit() as u64);
            let mut current = lit("batch complete converted=");
            append_chars(&mut current, &c);
            append_chars(&mut current, &lit(" limit="));
            append_chars(&mut current, &l);
            let mut log = lit("BATCH COMPLETE converted=");
            append_chars(&mut log, &c);
            append_chars(&mut log, &lit(" limit="));
            append_chars(&mut log, &l);
            RunAction::Finish {
                current: string_of(&current),
                log: string_of(&log),
                outcome: Ok(()),
            }
        },
        PassStep::Stopped => RunAction::Finish {
            current: "stopped cleanly".to_owned(),
            log: "STOPPED cleanly before next group".to_owned(),
            outcome: Ok(()),
        },
        PassStep::Finished => {
            let f = decimal(summary.failed as u64);
            let mut current = lit("finished failures=");
            append_chars(&mut current, &f);
            if summary.failed > 0 {
                let mut log = lit("FINISHED with failures=");
                append_chars(&mut log, &f);
                let mut m = lit("pipeline finished with ");
                append_chars(&mut m, &f);
                append_chars(&mut m, &lit(" failures"));
                RunAction::Finish {
                    current: string_of(&current),
                    log: string_of(&log),
                    outcome: Err(PipelineError::Message(string_of(&m))),
                }
            } else {
                proof {
                    assert(decimal_chars(0) == seq!['0']);
                    reveal_strlit("finished failures=0");
                    reveal_strlit("finished failures=");
                }
                assert(current@ =~= "finished failures=0"@);
                RunAction::Finish {
                    current: string_of(&current),
                    log: "FINISHED all inventoried groups successfully".to_owned(),
                    outcome: Ok(()),
                }
            }
        },
        PassStep::Pending { waiting, made_progress } => {
            summary.waiting = waiting;
            if !wait_for_source {
                let w = decimal(waiting as u64);
                let mut current = lit("waiting groups=");
                append_chars(&mut current, &w);
                let mut log = lit("INCOMPLETE waiting_groups=");
                append_chars(&mut log, &w);
                append_chars(&mut log, &lit(" and no-wait was requested"));
                RunAction::Finish {
                    current: string_of(&current),
                    log: string_of(&log),
                    outcome: Ok(()),
                }
            } else if !made_progress {
                RunAction::WaitForSources(waiting)
            } else {
                RunAction::PassAgain
            }
        },
        PassStep::Continue => RunAction::PassAgain,
    }
}

/// The error of a run whose sources stopped arriving while jobs still wait.
pub fn inactive_source_error(waiting: usize) -> (r: PipelineError)
    ensures
        r matches PipelineError::Message(m) && m@ == "source download is inactive but "@
            + decimal_chars(waiting as nat) + " groups remain unavailable"@,
{
    let mut m = lit("source download is inactive but ");
    append_chars(&mut m, &decimal(waiting as u64));
    append_chars(&mut m, &lit(" groups remain unavailable"));
    PipelineError::Message(string_of(&m))
}

/// The current activity and the log line of a run that waits for its sources.
pub fn waiting_messages(waiting: usize, sleep_seconds: u64) -> (r: (String, String))
    ensures
        r.0@ == "waiting for source groups="@ + decimal_chars(waiting as nat),
        r.1@ == "WAITING for source downloads groups="@ + decimal_chars(waiting as nat)
            + " sleep="@ + decimal_chars(sleep_seconds as nat) + "s"@,
{
    let w = decimal(waiting as u64);
    let mut current = lit("waiting for source groups=");
    append_chars(&mut current, &w);
    let mut log = lit("WAITING for source downloads groups=");
    append_chars(&mut log, &w);
    append_chars(&mut log, &lit(" sleep="));
    append_chars(&mut log, &decimal(sleep_seconds));
    append_chars(&mut log, &lit("s"));
    (string_of(&current), string_of(&log))
}


/// Where resuming a PS2 job from what an earlier attempt left stands.
#[derive(Clone, Copy, Debug, PartialEq, Eq)]
pub enum ResumeStep {
    /// Nothing observed yet; the first observation is whether a preserved copy exists.
    Start,
    /// A preserved copy exists; its size is being read.
    ReadingPreservedSize,
    /// The preserved copy has the source's size; the two digests are being compared.
    ComparingPreserved,
    /// No preserved copy; whether a CHD exists is being checked.
    CheckingChd,
    /// A CHD exists; it is being verified.
    VerifyingChd,
    /// The CHD is being checked by a round trip to the source.
    CheckingRoundTrip,
    /// The verified CHD's size is being read.
    ReadingChdSize,
    /// The CHD saves too little and is being removed, with the work folder reset.
    DiscardingChd,
    /// Resuming ended.
    Done,
}

/// What the outside work of one resume step found.
#[derive(Debug, PartialEq, Eq)]
pub enum ResumeObservation {
    PreservedExists(bool),
    PreservedSize(u64),
    /// Whether the preserved copy's digest equals the source's.
    PreservedDigestsEqual(bool),
    ChdExists(bool),
    ChdVerified(Result<()>),
    RoundTrip(Result<()>),
    ChdSize(u64),
    Discarded(Result<()>),
}

/// How resuming ended.
#[derive(Clone, Debug, PartialEq, Eq)]
pub enum ResumeEnd {
    /// The preserved copy matches the source: complete the job with it.
    CompletePreserved,
    /// The verified CHD is kept: complete the job with it; it saves `savings` percent.
    CompleteChd { savings: u64 },
    /// Nothing to resume from: convert afresh.
    Fresh,
    /// The preserved copy does not match its source.
    PreservedMismatch,
    /// A step failed.
    Failed(PipelineError),
    /// An observation arrived that the step does not wait for.
    OutOfOrder,
}

/// The outside work that a resume step asks for next.
#[derive(Clone, Debug, PartialEq, Eq)]
pub enum ResumeAction {
    /// Read the preserved copy's size (after writing the `resume-verify-preserved` activity).
    ReadPreservedSize,
    /// Compare the digests of the preserved copy and the source.
    ComparePreserved,
    /// Check whether a CHD exists.
    CheckChd,
    /// Verify the CHD (after writing the `resume-verify-chd` activity).
    VerifyChd,
    /// Check the CHD by a round trip to the source.
    CheckRoundTrip,
    /// Read the CHD's size.
    ReadChdSize,
    /// Remove the CHD and reset the work folder.
    DiscardChd,
    /// Resuming ended.
    Finish(ResumeEnd),
}

/// One step of resuming a PS2 job whose source has `source_size` bytes.
///
/// A preserved copy is used when it has the source's size and digest, and is otherwise an
/// error. Without one, an existing CHD is verified (and round-tripped when the profile asks
/// for it); it is used unless the profile keeps sources whose compression is not
/// worthwhile and it saves too little, in which case it is removed, the work folder reset,
/// and the job converted afresh.
pub open spec fn spec_resume_step(
    settings: crate::config::Ps2Settings,
    source_size: u64,
    step: ResumeStep,
    seen: ResumeObservation,
) -> (ResumeStep, ResumeAction) {
    let out_of_order = (ResumeStep::Done, ResumeAction::Finish(ResumeEnd::OutOfOrder));
    match step {
        ResumeStep::Start => match seen {
            ResumeObservation::PreservedExists(e) => if e {
                (ResumeStep::ReadingPreservedSize, ResumeAction::ReadPreservedSize)
            } else {
                (ResumeStep::CheckingChd, ResumeAction::CheckChd)
            },
            _ => out_of_order,
        },
        ResumeStep::ReadingPreservedSize => match seen {
            ResumeObservation::PreservedSize(n) => if n == source_size {
                (ResumeStep::ComparingPreserved, ResumeAction::ComparePreserved)
            } else {
                (ResumeStep::Done, ResumeAction::Finish(ResumeEnd::PreservedMismatch))
            },
            _ => out_of_order,
        },
        ResumeStep::ComparingPreserved => match seen {
            ResumeObservation::PreservedDigestsEqual(e) => (
                ResumeStep::Done,
                ResumeAction::Finish(
                    if e {
                        ResumeEnd::CompletePreserved
                    } else {
                        ResumeEnd::PreservedMismatch
                    },
                ),
            ),
            _ => out_of_order,
        },
        ResumeStep::CheckingChd => match seen {
            ResumeObservation::ChdExists(e) => if e {
                (ResumeStep::VerifyingChd, ResumeAction::VerifyChd)
            } else {
                (ResumeStep::Done, ResumeAction::Finish(ResumeEnd::Fresh))
            },
            _ => out_of_order,
        },
        ResumeStep::VerifyingChd => match seen {
            ResumeObservation::ChdVerified(Ok(())) => if settings.verify_round_trip {
                (ResumeStep::CheckingRoundTrip, ResumeAction::CheckRoundTrip)
            } else {
                (ResumeStep::ReadingChdSize, ResumeAction::ReadChdSize)
            },
            ResumeObservation::ChdVerified(Err(e)) => (
                ResumeStep::Done,
                ResumeAction::Finish(ResumeEnd::Failed(e)),
            ),
            _ => out_of_order,
        },
        ResumeStep::CheckingRoundTrip => match seen {
            ResumeObservation::RoundTrip(Ok(())) => (ResumeStep::ReadingChdSize, ResumeAction::ReadChdSize),
            ResumeObservation::RoundTrip(Err(e)) => (
                ResumeStep::Done,
                ResumeAction::Finish(ResumeEnd::Failed(e)),
            ),
            _ => out_of_order,
        },
        ResumeStep::ReadingChdSize => match seen {
            ResumeObservation::ChdSize(n) => if settings.preserve_when_compression_is_not_worthwhile
                && spec_savings_percent(source_size, n) < settings.minimum_savings_percent as u64 {
                (ResumeStep::DiscardingChd, ResumeAction::DiscardChd)
            } else {
                (
                    ResumeStep::Done,
                    ResumeAction::Finish(
                        ResumeEnd::CompleteChd { savings: spec_savings_percent(source_size, n) },
                    ),
                )
            },
            _ => out_of_order,
        },
        ResumeStep::DiscardingChd => match seen {
            ResumeObservation::Discarded(Ok(())) => (ResumeStep::Done, ResumeAction::Finish(ResumeEnd::Fresh)),
            ResumeObservation::Discarded(Err(e)) => (
                ResumeStep::Done,
                ResumeAction::Finish(ResumeEnd::Failed(e)),
            ),
            _ => out_of_order,
        },
        ResumeStep::Done => out_of_order,
    }
}

/// One step of resuming a PS2 job whose source has `source_size` bytes.
pub fn ps2_resume_step(
    settings: &crate::config::Ps2Settings,
    source_size: u64,
    step: ResumeStep,
    seen: ResumeObservation,
) -> (r: (ResumeStep, ResumeAction))
    ensures
        r == spec_resume_step(*settings, source_size, step, seen),
{
    let out_of_order = (ResumeStep::Done, ResumeAction::Finish(ResumeEnd::OutOfOrder));
    match step {
        ResumeStep::Start => match seen {
            ResumeObservation::PreservedExists(e) => if e {
                (ResumeStep::ReadingPreservedSize, ResumeAction::ReadPreservedSize)
            } else {
                (ResumeStep::CheckingChd, ResumeAction::CheckChd)
            },
            _ => out_of_order,
        },
        ResumeStep::ReadingPreservedSize => match seen {
            ResumeObservation::PreservedSize(n) => if n == source_size {
                (ResumeStep::ComparingPreserved, ResumeAction::ComparePreserved)
            } else {
                (ResumeStep::Done, ResumeAction::Finish(ResumeEnd::PreservedMismatch))
            },
            _ => out_of_order,
        },
        ResumeStep::ComparingPreserved => match seen {
            ResumeObservation::PreservedDigestsEqual(e) => (
                ResumeStep::Done,
                ResumeAction::Finish(
                    if e {
                        ResumeEnd::CompletePreserved
                    } else {
                        ResumeEnd::PreservedMismatch
                    },
                ),
            ),
            _ => out_of_order,
        },
        ResumeStep::CheckingChd => match seen {
            ResumeObservation::ChdExists(e) => if e {
                (ResumeStep::VerifyingChd, ResumeAction::VerifyChd)
            } else {
                (ResumeStep::Done, ResumeAction::Finish(ResumeEnd::Fresh))
            },
            _ => out_of_order,
        },
        ResumeStep::VerifyingChd => match seen {
            ResumeObservation::ChdVerified(Ok(())) => if settings.verify_round_trip {
                (ResumeStep::CheckingRoundTrip, ResumeAction::CheckRoundTrip)
            } else {
                (ResumeStep::ReadingChdSize, ResumeAction::ReadChdSize)
            },
            ResumeObservation::ChdVerified(Err(e)) => (
                ResumeStep::Done,
                ResumeAction::Finish(ResumeEnd::Failed(e)),
            ),
            _ => out_of_order,
        },
        ResumeStep::CheckingRoundTrip => match seen {
            ResumeObservation::RoundTrip(Ok(())) => (ResumeStep::ReadingChdSize, ResumeAction::ReadChdSize),
            ResumeObservation::RoundTrip(Err(e)) => (
                ResumeStep::Done,
                ResumeAction::Finish(ResumeEnd::Failed(e)),
            ),
            _ => out_of_order,
        },
        ResumeStep::ReadingChdSize => match seen {
            ResumeObservation::ChdSize(n) => {
                let savings = savings_percent(source_size, n);
                if settings.preserve_when_compression_is_not_worthwhile && savings
                    < settings.minimum_savings_percent as u64 {
                    (ResumeStep::DiscardingChd, ResumeAction::DiscardChd)
                } else {
                    (ResumeStep::Done, ResumeAction::Finish(ResumeEnd::CompleteChd { savings }))
                }
            },
            _ => out_of_order,
        },
        ResumeStep::DiscardingChd => match seen {
            ResumeObservation::Discarded(Ok(())) => (ResumeStep::Done, ResumeAction::Finish(ResumeEnd::Fresh)),
            ResumeObservation::Discarded(Err(e)) => (
                ResumeStep::Done,
                ResumeAction::Finish(ResumeEnd::Failed(e)),
            ),
            _ => out_of_order,
        },
        ResumeStep::Done => out_of_order,
    }
}

/// The error of a preserved PS2 copy that does not match its source.
pub fn preserved_mismatch(path: &str) -> (r: PipelineError)
    ensures
        r matches PipelineError::Message(m) && m@
            == "existing preserved PS2 output does not match its source: "@ + path@,
{
    let mut m = lit("existing preserved PS2 output does not match its source: ");
    append_chars(&mut m, &chars_of(path));
    PipelineError::Message(string_of(&m))
}

/// The log line of a job resumed from its preserved copy.
pub fn resumed_preserved_log(name: &str) -> (r: String)
    ensures
        r@ == "RESUMED verified PS2 preserved output="@ + name@,
{
    let mut m = lit("RESUMED verified PS2 preserved output=");
    append_chars(&mut m, &chars_of(name));
    string_of(&m)
}

/// The log line of a job resumed from its verified CHD.
pub fn resumed_chd_log(savings: u64, output_name: &str) -> (r: String)
    ensures
        r@ == "RESUMED verified PS2 CHD savings="@ + decimal_chars(savings as nat) + " output="@
            + output_name@,
{
    let mut m = lit("RESUMED verified PS2 CHD savings=");
    append_chars(&mut m, &decimal(savings));
    append_chars(&mut m, &lit(" output="));
    append_chars(&mut m, &chars_of(output_name));
    string_of(&m)
}

} // verus!
