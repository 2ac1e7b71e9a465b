//! Library actions: publishing verified outputs to the final library and pruning the
//! sources of published jobs, in bounded batches.
use vstd::prelude::*;

use crate::domain::{BatchPolicy, Job};
use crate::error::{PipelineError, Result};
use crate::numbers::{decimal, decimal_chars};
use crate::state::{join, spec_join, CompletionRecord};
use crate::text::{append_chars, chars_of, lit, spec_upper, string_of, to_upper};

verus! {

/// What a library action did.
#[derive(Clone, Copy, Debug, Default, PartialEq, Eq)]
pub struct LibrarySummary {
    pub completed_jobs: usize,
    pub failed_jobs: usize,
    pub files_removed: usize,
    pub bytes_reclaimed: u64,
}

/// What acting on one job changed.
#[derive(Clone, Copy, Debug, PartialEq, Eq)]
pub enum Change {
    Unchanged,
    Applied { files_removed: usize, bytes_reclaimed: u64 },
}

/// The systems whose outputs are published to a final library.
#[derive(Clone, Copy, Debug, PartialEq, Eq, Structural)]
pub enum LibrarySystem {
    GameCube,
    Nintendo3ds,
    PlayStationPortable,
}

/// How acting on one job went.
#[derive(Clone, Debug, PartialEq, Eq)]
pub enum JobResult {
    /// The job has no completion marker.
    NoRecord,
    /// The job's sources changed since it completed.
    FingerprintChanged,
    /// The action ran.
    Done(Change),
    /// A stop was requested during the action.
    Interrupted,
    /// The action failed, with the error's description.
    Failed(String),
}

/// Whether a library action takes on another job: no stop was requested and fewer jobs
/// than the limit completed.
pub fn takes_next_job(stop_requested: bool, summary: &LibrarySummary, limit: BatchPolicy) -> (r: bool)
    ensures
        r == (!stop_requested && summary.completed_jobs < limit.spec_limit()),
{
    !stop_requested && summary.completed_jobs < limit.limit()
}

/// Whether a completion marker was made from the job's current sources.
pub fn fingerprint_current(record: &CompletionRecord, job: &Job) -> (r: bool)
    ensures
        r == (record.component_fingerprint matches Some(f) && f@
            == crate::domain::spec_fingerprint(job.sources@)),
{
    match &record.component_fingerprint {
        Some(f) => {
            let current = job.component_fingerprint();
            crate::text::chars_eq(&chars_of(f.as_str()), &chars_of(current.as_str()))
        },
        None => false,
    }
}

/// The summary after one job's result.
pub open spec fn spec_count_job(s: LibrarySummary, result: JobResult) -> LibrarySummary {
    match result {
        JobResult::FingerprintChanged => LibrarySummary { failed_jobs: (s.failed_jobs + 1) as usize, ..s },
        JobResult::Failed(_) => LibrarySummary { failed_jobs: (s.failed_jobs + 1) as usize, ..s },
        JobResult::Done(Change::Applied { files_removed, bytes_reclaimed }) => LibrarySummary {
            completed_jobs: (s.completed_jobs + 1) as usize,
            files_removed: (s.files_removed + files_removed) as usize,
            bytes_reclaimed: (s.bytes_reclaimed + bytes_reclaimed) as u64,
            ..s
        },
        _ => s,
    }
}

/// The counts stay within their types after one job's result.
pub open spec fn count_fits(s: LibrarySummary, result: JobResult) -> bool {
    &&& s.failed_jobs < usize::MAX
    &&& s.completed_jobs < usize::MAX
    &&& result matches JobResult::Done(Change::Applied { files_removed, bytes_reclaimed })
        ==> s.files_removed + files_removed <= usize::MAX && s.bytes_reclaimed + bytes_reclaimed
        <= u64::MAX
}

/// Counts one job's result; says whether the action stops here (it was interrupted) and
/// which failure to record against the job.
pub fn count_job(summary: &mut LibrarySummary, result: JobResult, action: &str) -> (r: (
    bool,
    Option<String>,
))
    requires
        count_fits(*old(summary), result),
    ensures
        *final(summary) == spec_count_job(*old(summary), result),
        r.0 == (result == JobResult::Interrupted),
        result == JobResult::FingerprintChanged ==> (r.1 matches Some(m) && m@
            == "completion component fingerprint changed"@),
        result matches JobResult::Failed(e) ==> (r.1 matches Some(m) && m@ == action@
            + " failed: "@ + e@),
        !(result is FingerprintChanged || result is Failed) ==> r.1 is None,
{
    match result {
        JobResult::NoRecord => (false, None),
        JobResult::FingerprintChanged => {
            summary.failed_jobs = summary.failed_jobs + 1;
            (false, Some("completion component fingerprint changed".to_owned()))
        },
        JobResult::Done(Change::Unchanged) => (false, None),
        JobResult::Done(Change::Applied { files_removed, bytes_reclaimed }) => {
            summary.completed_jobs = summary.completed_jobs + 1;
            summary.files_removed = summary.files_removed + files_removed;
            summary.bytes_reclaimed = summary.bytes_reclaimed + bytes_reclaimed;
            (false, None)
        },
        JobResult::Interrupted => (true, None),
        JobResult::Failed(e) => {
            summary.failed_jobs = summary.failed_jobs + 1;
            let mut m = chars_of(action);
            append_chars(&mut m, &lit(" failed: "));
            append_chars(&mut m, &chars_of(e.as_str()));
            (false, Some(string_of(&m)))
        },
    }
}

/// A library action completes at most its limit of jobs: it takes a job only below the
/// limit, and one job's result completes at most one job.
pub proof fn lemma_library_limit(s: LibrarySummary, result: JobResult, limit: BatchPolicy)
    requires
        s.completed_jobs < limit.spec_limit(),
        count_fits(s, result),
    ensures
        spec_count_job(s, result).completed_jobs <= limit.spec_limit(),
        spec_count_job(s, result).completed_jobs <= s.completed_jobs + 1,
        spec_count_job(s, result).failed_jobs >= s.failed_jobs,
{
}

/// The counts of a summary, as the current activity and the log show them.
pub open spec fn counts_text(s: LibrarySummary) -> Seq<char> {
    " completed="@ + decimal_chars(s.completed_jobs as nat) + " failed="@ + decimal_chars(
        s.failed_jobs as nat,
    ) + " files_removed="@ + decimal_chars(s.files_removed as nat) + " bytes_reclaimed="@
        + decimal_chars(s.bytes_reclaimed as nat)
}

/// The counts of a summary.
fn counts(s: &LibrarySummary) -> (r: Vec<char>)
    ensures
        r@ == counts_text(*s),
{
    let mut v = lit(" completed=");
    append_chars(&mut v, &decimal(s.completed_jobs as u64));
    append_chars(&mut v, &lit(" failed="));
    append_chars(&mut v, &decimal(s.failed_jobs as u64));
    append_chars(&mut v, &lit(" files_removed="));
    append_chars(&mut v, &decimal(s.files_removed as u64));
    append_chars(&mut v, &lit(" bytes_reclaimed="));
    append_chars(&mut v, &decimal(s.bytes_reclaimed));
    v
}

/// The current activity once a library action ended (the 3DS action always reports a
/// complete batch).
pub fn action_current(system: LibrarySystem, action: &str, stopped: bool, summary: &LibrarySummary)
    -> (r: String)
    ensures
        r@ == action@ + (if stopped && system != LibrarySystem::Nintendo3ds {
            " stopped cleanly"@
        } else {
            " batch complete"@
        }) + counts_text(*summary),
{
    let mut v = chars_of(action);
    if stopped && system != LibrarySystem::Nintendo3ds {
        append_chars(&mut v, &lit(" stopped cleanly"));
    } else {
        append_chars(&mut v, &lit(" batch complete"));
    }
    append_chars(&mut v, &counts(summary));
    string_of(&v)
}

/// The log line once a library action ended; the 3DS action writes none.
pub fn action_log(system: LibrarySystem, action: &str, stopped: bool, summary: &LibrarySummary)
    -> (r: Option<String>)
    ensures
        system == LibrarySystem::Nintendo3ds ==> r is None,
        system == LibrarySystem::PlayStationPortable ==> (r matches Some(l) && l@ == spec_upper(
            action@,
        ) + (if stopped {
            " STOPPED"@
        } else {
            " COMPLETE"@
        }) + counts_text(*summary)),
        system == LibrarySystem::GameCube ==> (r matches Some(l) && l@ == spec_upper(action@)
            + " GameCube"@ + (if stopped {
            " STOPPED"@
        } else {
            " COMPLETE"@
        }) + counts_text(*summary)),
{
    if system == LibrarySystem::Nintendo3ds {
        return None;
    }
    let mut v = to_upper(&chars_of(action));
    if system == LibrarySystem::GameCube {
        append_chars(&mut v, &lit(" GameCube"));
    }
    if stopped {
        append_chars(&mut v, &lit(" STOPPED"));
    } else {
        append_chars(&mut v, &lit(" COMPLETE"));
    }
    append_chars(&mut v, &counts(summary));
    Some(string_of(&v))
}

/// The name of a system in the library's messages.
pub open spec fn library_label(system: LibrarySystem) -> Seq<char> {
    match system {
        LibrarySystem::GameCube => "GameCube"@,
        LibrarySystem::Nintendo3ds => "3DS"@,
        LibrarySystem::PlayStationPortable => "PSP"@,
    }
}

/// The name of a system in the library's messages.
fn label_chars(system: LibrarySystem) -> (r: Vec<char>)
    ensures
        r@ == library_label(system),
{
    match system {
        LibrarySystem::GameCube => lit("GameCube"),
        LibrarySystem::Nintendo3ds => lit("3DS"),
        LibrarySystem::PlayStationPortable => lit("PSP"),
    }
}

/// The name of a system in the library's messages.
pub fn library_label_text(system: LibrarySystem) -> (r: String)
    ensures
        r@ == library_label(system),
{
    string_of(&label_chars(system))
}

/// Where an output lies in the final library.
///
/// Fails when the profile has no final library.
pub fn library_path(system: LibrarySystem, library_dir: &Option<String>, output_name: &str) -> (r:
    Result<String>)
    ensures
        library_dir matches Some(d) ==> (r matches Ok(p) && p@ == spec_join(d@, output_name@)),
        library_dir is None ==> (r matches Err(PipelineError::InvalidConfig(m)) && m@
            == library_label(system) + " library_dir is required"@),
{
    match library_dir {
        Some(d) => Ok(join(d, &chars_of(output_name))),
        None => {
            let mut m = label_chars(system);
            append_chars(&mut m, &lit(" library_dir is required"));
            Err(PipelineError::InvalidConfig(string_of(&m)))
        },
    }
}

/// The log of one job: `<log_dir>/groups/<id>.log`.
pub fn group_log(log_dir: &String, job_id: &str) -> (r: String)
    ensures
        r@ == spec_join(spec_join(log_dir@, "groups"@), job_id@ + ".log"@),
{
    let groups = join(log_dir, &lit("groups"));
    let mut name = chars_of(job_id);
    append_chars(&mut name, &lit(".log"));
    join(&groups, &name)
}

/// The current activity of a step of a library action on a job.
pub fn step_activity(job_id: &str, step: &str, output_name: &str) -> (r: String)
    ensures
        r@ == "group="@ + job_id@ + " step="@ + step@ + " output="@ + output_name@,
{
    let mut v = lit("group=");
    append_chars(&mut v, &chars_of(job_id));
    append_chars(&mut v, &lit(" step="));
    append_chars(&mut v, &chars_of(step));
    append_chars(&mut v, &lit(" output="));
    append_chars(&mut v, &chars_of(output_name));
    string_of(&v)
}

/// Why a job may not be pruned, if it may not: the message `check_prunable` fails with.
pub open spec fn prune_problem(
    system: LibrarySystem,
    job_id: Seq<char>,
    has_record: bool,
    fingerprint_ok: bool,
    in_library: bool,
    library: Seq<char>,
) -> Option<Seq<char>> {
    if !has_record {
        Some(
            if system == LibrarySystem::Nintendo3ds {
                "prune requires all 3DS jobs complete; missing "@ + job_id
            } else {
                "prune requires all "@ + library_label(system)
                    + " jobs to be complete; missing marker for "@ + job_id
            },
        )
    } else if system != LibrarySystem::Nintendo3ds && !fingerprint_ok {
        Some("prune requires a current completion fingerprint for "@ + job_id)
    } else if !(fingerprint_ok && in_library) {
        Some(
            match system {
                LibrarySystem::Nintendo3ds => "prune requires every verified 3DS CIA in the final library; missing "@,
                LibrarySystem::GameCube => "prune requires every GameCube RVZ in the final library; missing "@,
                LibrarySystem::PlayStationPortable => "prune requires every PSP CHD in the final library; missing "@,
            } + library,
        )
    } else {
        None
    }
}

/// Checks that a job may be pruned: it completed from its current sources, and its output
/// lies in the final library with the recorded size (`in_library`). The 3DS action names
/// both problems with one message.
pub fn check_prunable(
    system: LibrarySystem,
    job_id: &str,
    record: &Option<CompletionRecord>,
    fingerprint_ok: bool,
    in_library: bool,
    library: &str,
) -> (r: Result<()>)
    ensures
        record is None ==> (r matches Err(PipelineError::Message(m)) && m@ == if system
            == LibrarySystem::Nintendo3ds {
            "prune requires all 3DS jobs complete; missing "@ + job_id@
        } else {
            "prune requires all "@ + library_label(system) + " jobs to be complete; missing marker for "@
                + job_id@
        }),
        record is Some && system != LibrarySystem::Nintendo3ds && !fingerprint_ok ==> (r matches Err(
            PipelineError::Message(m),
        ) && m@ == "prune requires a current completion fingerprint for "@ + job_id@),
        record is Some && (system == LibrarySystem::Nintendo3ds || fingerprint_ok) && !(
        fingerprint_ok && in_library) ==> (r matches Err(PipelineError::Message(m)) && m@
            == match system {
            LibrarySystem::Nintendo3ds => "prune requires every verified 3DS CIA in the final library; missing "@,
            LibrarySystem::GameCube => "prune requires every GameCube RVZ in the final library; missing "@,
            LibrarySystem::PlayStationPortable => "prune requires every PSP CHD in the final library; missing "@,
        } + library@),
        record is Some && fingerprint_ok && in_library ==> r is Ok,
        match prune_problem(system, job_id@, record is Some, fingerprint_ok, in_library, library@) {
            None => r is Ok,
            Some(m) => r matches Err(PipelineError::Message(x)) && x@ == m,
        },
{
    if record.is_none() {
        let mut m = if system == LibrarySystem::Nintendo3ds {
            lit("prune requires all 3DS jobs complete; missing ")
        } else {
            let mut p = lit("prune requires all ");
            append_chars(&mut p, &label_chars(system));
            append_chars(&mut p, &lit(" jobs to be complete; missing marker for "));
            p
        };
        append_chars(&mut m, &chars_of(job_id));
        return Err(PipelineError::Message(string_of(&m)));
    }
    if system != LibrarySystem::Nintendo3ds && !fingerprint_ok {
        let mut m = lit("prune requires a current completion fingerprint for ");
        append_chars(&mut m, &chars_of(job_id));
        return Err(PipelineError::Message(string_of(&m)));
    }
    if !(fingerprint_ok && in_library) {
        let mut m = match system {
            LibrarySystem::Nintendo3ds => lit(
                "prune requires every verified 3DS CIA in the final library; missing ",
            ),
            LibrarySystem::GameCube => lit(
                "prune requires every GameCube RVZ in the final library; missing ",
            ),
            LibrarySystem::PlayStationPortable => lit(
                "prune requires every PSP CHD in the final library; missing ",
            ),
        };
        append_chars(&mut m, &chars_of(library));
        return Err(PipelineError::Message(string_of(&m)));
    }
    Ok(())
}

/// Adds a pruned file's size to the running count.
///
/// Fails when the count would overflow.
pub fn add_pruned_bytes(bytes: u64, size: u64) -> (r: Result<u64>)
    ensures
        bytes + size <= u64::MAX ==> r == Ok::<u64, PipelineError>((bytes + size) as u64),
        bytes + size > u64::MAX ==> (r matches Err(PipelineError::Message(m)) && m@
            == "pruned byte count overflow"@),
{
    match bytes.checked_add(size) {
        Some(b) => Ok(b),
        None => Err(PipelineError::Message("pruned byte count overflow".to_owned())),
    }
}

/// What pruning a job's sources changed: nothing when no file was removed.
pub fn prune_change(files: usize, bytes: u64) -> (r: Change)
    ensures
        files == 0 ==> r == Change::Unchanged,
        files > 0 ==> r == (Change::Applied { files_removed: files, bytes_reclaimed: bytes }),
{
    if files == 0 {
        Change::Unchanged
    } else {
        Change::Applied { files_removed: files, bytes_reclaimed: bytes }
    }
}


/// Where publishing one completed output to the final library stands.
#[derive(Clone, Copy, Debug, PartialEq, Eq)]
pub enum PublishStep {
    /// Nothing observed yet; the first observation is whether the library file exists.
    Start,
    /// The library file exists; its size is being read.
    ReadingLibrarySize,
    /// The library file exists; it is being verified against the record.
    VerifyingLibrary,
    /// The verified library file's time is being set to the recorded one.
    TimingLibrary,
    /// The library file is in place; whether a staging copy remains is being checked.
    CheckingStagingOfPublished,
    /// The library file is in place; the staging copy is being removed. `adopted` tells
    /// whether the library file was there before this action.
    RemovingStaging { adopted: bool },
    /// No library file; whether the staging file exists is being checked.
    CheckingStaging,
    /// The staging file is being verified against the record.
    VerifyingStaging,
    /// The library folder and a fresh `.partial` path are being prepared.
    PreparingPartial,
    /// The staging file is being copied to `.partial`.
    Copying,
    /// The `.partial` copy is being verified against the record.
    VerifyingPartial,
    /// The verified `.partial` copy's time is being set to the recorded one.
    TimingPartial,
    /// The verified `.partial` copy is being renamed into the library.
    Renaming,
    /// Publication ended.
    Done,
}

/// What the outside work of one publication step found.
#[derive(Debug, PartialEq, Eq)]
pub enum PublishObservation {
    LibraryExists(bool),
    LibrarySize(u64),
    LibraryVerified(Result<()>),
    TimeSet(Result<()>),
    StagingExists(bool),
    StagingVerified(Result<()>),
    Prepared(Result<()>),
    Copied(Result<()>),
    PartialVerified(Result<()>),
    Renamed(Result<()>),
    /// The staging copy was removed; the number of bytes it held.
    StagingRemoved(Result<u64>),
}

/// How publishing one output ended.
#[derive(Clone, Debug, PartialEq, Eq)]
pub enum PublishEnd {
    /// The library file was already in place and the staging copy of this many bytes was
    /// removed.
    Adopted(u64),
    /// The library file was already in place and no staging copy remained.
    Unchanged,
    /// The output was published and the staging copy of this many bytes was removed.
    Published(u64),
    /// A step failed; `remove_partial` asks to delete the `.partial` copy.
    Failed { error: PipelineError, remove_partial: bool },
    /// The library file does not have the recorded size.
    SizeMismatch,
    /// Neither the library file nor the staging file exists.
    StagingMissing,
    /// An observation arrived that the step does not wait for.
    OutOfOrder,
}

/// The outside work that a publication step asks for next.
#[derive(Clone, Debug, PartialEq, Eq)]
pub enum PublishAction {
    /// Verify the library file (size, digest, tool); `announce` asks to write the
    /// `publish-check-existing` activity first.
    VerifyLibrary { announce: bool },
    /// Read the library file's size.
    ReadLibrarySize,
    /// Set the library file's time to the recorded one.
    SetLibraryTime,
    /// Check whether the staging file exists; `announce_skip` asks to write the
    /// `publish-skip-existing` activity first.
    CheckStaging { announce_skip: bool },
    /// Remove the staging copy, reporting its size.
    RemoveStaging,
    /// Verify the staging file (size, digest, tool).
    VerifyStaging,
    /// Remove a stale `.partial` file; `create_parent` asks to create the library folder
    /// first.
    PreparePartial { create_parent: bool },
    /// Copy the staging file to `.partial`.
    CopyToPartial,
    /// Verify the `.partial` copy (size, digest, tool).
    VerifyPartial,
    /// Set the `.partial` copy's time to the recorded one.
    SetPartialTime,
    /// Rename the `.partial` copy into the library.
    RenameIntoLibrary,
    /// Publication ended.
    Finish(PublishEnd),
}

/// A failure ending that keeps or removes the `.partial` copy.
pub open spec fn failed(e: PipelineError, remove_partial: bool) -> (PublishStep, PublishAction) {
    (PublishStep::Done, PublishAction::Finish(PublishEnd::Failed { error: e, remove_partial }))
}

/// One step of publication: from where it stands and what was observed, where it goes and
/// which outside work comes next.
///
/// An existing library file is size-checked (GameCube) or verified (PSP, then its time is
/// set; 3DS), and then only a remaining staging copy is removed. Otherwise the staging
/// file must exist and verify; it is copied through `.partial`, the copy is verified (and
/// its time set, except for 3DS), renamed into the library, and the staging copy removed.
/// A failed copy or copy check deletes the `.partial` file, except for 3DS.
pub open spec fn spec_publish_step(
    system: LibrarySystem,
    size: u64,
    step: PublishStep,
    seen: PublishObservation,
) -> (PublishStep, PublishAction) {
    let n3ds = system == LibrarySystem::Nintendo3ds;
    let out_of_order = (PublishStep::Done, PublishAction::Finish(PublishEnd::OutOfOrder));
    match step {
        PublishStep::Start => match seen {
            PublishObservation::LibraryExists(e) => if !e {
                (PublishStep::CheckingStaging, PublishAction::CheckStaging { announce_skip: false })
            } else if system == LibrarySystem::GameCube {
                (PublishStep::ReadingLibrarySize, PublishAction::ReadLibrarySize)
            } else {
                (
                    PublishStep::VerifyingLibrary,
                    PublishAction::VerifyLibrary {
                        announce: system == LibrarySystem::PlayStationPortable,
                    },
                )
            },
            _ => out_of_order,
        },
        PublishStep::ReadingLibrarySize => match seen {
            PublishObservation::LibrarySize(n) => if n == size {
                (
                    PublishStep::CheckingStagingOfPublished,
                    PublishAction::CheckStaging { announce_skip: true },
                )
            } else {
                (PublishStep::Done, PublishAction::Finish(PublishEnd::SizeMismatch))
            },
            _ => out_of_order,
        },
        PublishStep::VerifyingLibrary => match seen {
            PublishObservation::LibraryVerified(Ok(())) => if system
                == LibrarySystem::PlayStationPortable {
                (PublishStep::TimingLibrary, PublishAction::SetLibraryTime)
            } else {
                (
                    PublishStep::CheckingStagingOfPublished,
                    PublishAction::CheckStaging { announce_skip: false },
                )
            },
            PublishObservation::LibraryVerified(Err(e)) => failed(e, false),
            _ => out_of_order,
        },
        PublishStep::TimingLibrary => match seen {
            PublishObservation::TimeSet(Ok(())) => (
                PublishStep::CheckingStagingOfPublished,
                PublishAction::CheckStaging { announce_skip: false },
            ),
            PublishObservation::TimeSet(Err(e)) => failed(e, false),
            _ => out_of_order,
        },
        PublishStep::CheckingStagingOfPublished => match seen {
            PublishObservation::StagingExists(e) => if e {
                (PublishStep::RemovingStaging { adopted: true }, PublishAction::RemoveStaging)
            } else {
                (PublishStep::Done, PublishAction::Finish(PublishEnd::Unchanged))
            },
            _ => out_of_order,
        },
        PublishStep::CheckingStaging => match seen {
            PublishObservation::StagingExists(e) => if e {
                (PublishStep::VerifyingStaging, PublishAction::VerifyStaging)
            } else {
                (PublishStep::Done, PublishAction::Finish(PublishEnd::StagingMissing))
            },
            _ => out_of_order,
        },
        PublishStep::VerifyingStaging => match seen {
            PublishObservation::StagingVerified(Ok(())) => (
                PublishStep::PreparingPartial,
                PublishAction::PreparePartial { create_parent: !n3ds },
            ),
            PublishObservation::StagingVerified(Err(e)) => failed(e, false),
            _ => out_of_order,
        },
        PublishStep::PreparingPartial => match seen {
            PublishObservation::Prepared(Ok(())) => (PublishStep::Copying, PublishAction::CopyToPartial),
            PublishObservation::Prepared(Err(e)) => failed(e, false),
            _ => out_of_order,
        },
        PublishStep::Copying => match seen {
            PublishObservation::Copied(Ok(())) => (PublishStep::VerifyingPartial, PublishAction::VerifyPartial),
            PublishObservation::Copied(Err(e)) => failed(e, !n3ds),
            _ => out_of_order,
        },
        PublishStep::VerifyingPartial => match seen {
            PublishObservation::PartialVerified(Ok(())) => if n3ds {
                (PublishStep::Renaming, PublishAction::RenameIntoLibrary)
            } else {
                (PublishStep::TimingPartial, PublishAction::SetPartialTime)
            },
            PublishObservation::PartialVerified(Err(e)) => failed(e, !n3ds),
            _ => out_of_order,
        },
        PublishStep::TimingPartial => match seen {
            PublishObservation::TimeSet(Ok(())) => (PublishStep::Renaming, PublishAction::RenameIntoLibrary),
            PublishObservation::TimeSet(Err(e)) => failed(e, false),
            _ => out_of_order,
        },
        PublishStep::Renaming => match seen {
            PublishObservation::Renamed(Ok(())) => (
                PublishStep::RemovingStaging { adopted: false },
                PublishAction::RemoveStaging,
            ),
            PublishObservation::Renamed(Err(e)) => failed(e, false),
            _ => out_of_order,
        },
        PublishStep::RemovingStaging { adopted } => match seen {
            PublishObservation::StagingRemoved(Ok(b)) => (
                PublishStep::Done,
                PublishAction::Finish(
                    if adopted {
                        PublishEnd::Adopted(b)
                    } else {
                        PublishEnd::Published(b)
                    },
                ),
            ),
            PublishObservation::StagingRemoved(Err(e)) => failed(e, false),
            _ => out_of_order,
        },
        PublishStep::Done => out_of_order,
    }
}

/// A failure ending.
fn fail(e: PipelineError, remove_partial: bool) -> (r: (PublishStep, PublishAction))
    ensures
        r == failed(e, remove_partial),
{
    (PublishStep::Done, PublishAction::Finish(PublishEnd::Failed { error: e, remove_partial }))
}

/// One step of publishing `record`'s output to the final library of `system`.
pub fn publish_step(
    system: LibrarySystem,
    step: PublishStep,
    record: &CompletionRecord,
    seen: PublishObservation,
) -> (r: (PublishStep, PublishAction))
    ensures
        r == spec_publish_step(system, record.size, step, seen),
{
    let n3ds = system == LibrarySystem::Nintendo3ds;
    let out_of_order = (PublishStep::Done, PublishAction::Finish(PublishEnd::OutOfOrder));
    match step {
        PublishStep::Start => match seen {
            PublishObservation::LibraryExists(e) => if !e {
                (PublishStep::CheckingStaging, PublishAction::CheckStaging { announce_skip: false })
            } else if system == LibrarySystem::GameCube {
                (PublishStep::ReadingLibrarySize, PublishAction::ReadLibrarySize)
            } else {
                (
                    PublishStep::VerifyingLibrary,
                    PublishAction::VerifyLibrary {
                        announce: system == LibrarySystem::PlayStationPortable,
                    },
                )
            },
            _ => out_of_order,
        },
        PublishStep::ReadingLibrarySize => match seen {
            PublishObservation::LibrarySize(n) => if n == record.size {
                (
                    PublishStep::CheckingStagingOfPublished,
                    PublishAction::CheckStaging { announce_skip: true },
                )
            } else {
                (PublishStep::Done, PublishAction::Finish(PublishEnd::SizeMismatch))
            },
            _ => out_of_order,
        },
        PublishStep::VerifyingLibrary => match seen {
            PublishObservation::LibraryVerified(Ok(())) => if system
                == LibrarySystem::PlayStationPortable {
                (PublishStep::TimingLibrary, PublishAction::SetLibraryTime)
            } else {
                (
                    PublishStep::CheckingStagingOfPublished,
                    PublishAction::CheckStaging { announce_skip: false },
                )
            },
            PublishObservation::LibraryVerified(Err(e)) => fail(e, false),
            _ => out_of_order,
        },
        PublishStep::TimingLibrary => match seen {
            PublishObservation::TimeSet(Ok(())) => (
                PublishStep::CheckingStagingOfPublished,
                PublishAction::CheckStaging { announce_skip: false },
            ),
            PublishObservation::TimeSet(Err(e)) => fail(e, false),
            _ => out_of_order,
        },
        PublishStep::CheckingStagingOfPublished => match seen {
            PublishObservation::StagingExists(e) => if e {
                (PublishStep::RemovingStaging { adopted: true }, PublishAction::RemoveStaging)
            } else {
                (PublishStep::Done, PublishAction::Finish(PublishEnd::Unchanged))
            },
            _ => out_of_order,
        },
        PublishStep::CheckingStaging => match seen {
            PublishObservation::StagingExists(e) => if e {
                (PublishStep::VerifyingStaging, PublishAction::VerifyStaging)
            } else {
                (PublishStep::Done, PublishAction::Finish(PublishEnd::StagingMissing))
            },
            _ => out_of_order,
        },
        PublishStep::VerifyingStaging => match seen {
            PublishObservation::StagingVerified(Ok(())) => (
                PublishStep::PreparingPartial,
                PublishAction::PreparePartial { create_parent: !n3ds },
            ),
            PublishObservation::StagingVerified(Err(e)) => fail(e, false),
            _ => out_of_order,
        },
        PublishStep::PreparingPartial => match seen {
            PublishObservation::Prepared(Ok(())) => (PublishStep::Copying, PublishAction::CopyToPartial),
            PublishObservation::Prepared(Err(e)) => fail(e, false),
            _ => out_of_order,
        },
        PublishStep::Copying => match seen {
            PublishObservation::Copied(Ok(())) => (PublishStep::VerifyingPartial, PublishAction::VerifyPartial),
            PublishObservation::Copied(Err(e)) => fail(e, !n3ds),
            _ => out_of_order,
        },
        PublishStep::VerifyingPartial => match seen {
            PublishObservation::PartialVerified(Ok(())) => if n3ds {
                (PublishStep::Renaming, PublishAction::RenameIntoLibrary)
            } else {
                (PublishStep::TimingPartial, PublishAction::SetPartialTime)
            },
            PublishObservation::PartialVerified(Err(e)) => fail(e, !n3ds),
            _ => out_of_order,
        },
        PublishStep::TimingPartial => match seen {
            PublishObservation::TimeSet(Ok(())) => (PublishStep::Renaming, PublishAction::RenameIntoLibrary),
            PublishObservation::TimeSet(Err(e)) => fail(e, false),
            _ => out_of_order,
        },
        PublishStep::Renaming => match seen {
            PublishObservation::Renamed(Ok(())) => (
                PublishStep::RemovingStaging { adopted: false },
                PublishAction::RemoveStaging,
            ),
            PublishObservation::Renamed(Err(e)) => fail(e, false),
            _ => out_of_order,
        },
        PublishStep::RemovingStaging { adopted } => match seen {
            PublishObservation::StagingRemoved(Ok(b)) => (
                PublishStep::Done,
                PublishAction::Finish(
                    if adopted {
                        PublishEnd::Adopted(b)
                    } else {
                        PublishEnd::Published(b)
                    },
                ),
            ),
            PublishObservation::StagingRemoved(Err(e)) => fail(e, false),
            _ => out_of_order,
        },
        PublishStep::Done => out_of_order,
    }
}


/// The name of a system's library outputs in messages.
pub open spec fn output_kind(system: LibrarySystem) -> Seq<char> {
    match system {
        LibrarySystem::GameCube => "GameCube RVZ"@,
        LibrarySystem::Nintendo3ds => "3DS CIA"@,
        LibrarySystem::PlayStationPortable => "CHD"@,
    }
}

/// The name of a system's library outputs in messages.
fn output_kind_chars(system: LibrarySystem) -> (r: Vec<char>)
    ensures
        r@ == output_kind(system),
{
    match system {
        LibrarySystem::GameCube => lit("GameCube RVZ"),
        LibrarySystem::Nintendo3ds => lit("3DS CIA"),
        LibrarySystem::PlayStationPortable => lit("CHD"),
    }
}

/// The log line of a publication that removed a staging copy.
pub open spec fn publish_log(system: LibrarySystem, adopted: bool, output_name: Seq<char>) -> Option<
    Seq<char>,
> {
    match system {
        LibrarySystem::GameCube => Some(
            (if adopted {
                "PUBLISH skipped existing GameCube library RVZ and removed staging copy: "@
            } else {
                "PUBLISH verified GameCube library RVZ and removed staging copy: "@
            }) + output_name,
        ),
        LibrarySystem::PlayStationPortable => Some(
            (if adopted {
                "PUBLISH adopted verified library output and removed staging copy: "@
            } else {
                "PUBLISH verified final library output and removed staging copy: "@
            }) + output_name,
        ),
        LibrarySystem::Nintendo3ds => if adopted {
            None
        } else {
            Some("PUBLISH verified 3DS CIA and removed staging copy: "@ + output_name)
        },
    }
}

/// What a publication ending returns, and the log line it writes: removing a staging copy
/// counts one file and its bytes; an existing library file of the wrong size, or a missing
/// staging file, is an error.
pub fn publish_outcome(
    system: LibrarySystem,
    library: &str,
    staging: &str,
    output_name: &str,
    end: PublishEnd,
) -> (r: (Result<Change>, Option<String>))
    ensures
        match end {
            PublishEnd::Adopted(b) => r.0 == Ok::<Change, PipelineError>(
                Change::Applied { files_removed: 1, bytes_reclaimed: b },
            ) && match publish_log(system, true, output_name@) {
                Some(l) => r.1 matches Some(x) && x@ == l,
                None => r.1 is None,
            },
            PublishEnd::Published(b) => r.0 == Ok::<Change, PipelineError>(
                Change::Applied { files_removed: 1, bytes_reclaimed: b },
            ) && match publish_log(system, false, output_name@) {
                Some(l) => r.1 matches Some(x) && x@ == l,
                None => r.1 is None,
            },
            PublishEnd::Unchanged => r.0 == Ok::<Change, PipelineError>(Change::Unchanged)
                && r.1 is None,
            PublishEnd::Failed { error, .. } => r.0 == Err::<Change, PipelineError>(error)
                && r.1 is None,
            PublishEnd::SizeMismatch => (r.0 matches Err(PipelineError::Message(m)) && m@
                == "recorded "@ + output_kind(system) + " size mismatch: "@ + library@) && r.1 is None,
            PublishEnd::StagingMissing => (r.0 matches Err(PipelineError::MissingPath(p)) && p@
                == staging@) && r.1 is None,
            PublishEnd::OutOfOrder => (r.0 matches Err(PipelineError::Message(m)) && m@
                == "publication step out of order"@) && r.1 is None,
        },
{
    match end {
        PublishEnd::Adopted(b) | PublishEnd::Published(b) => {
            let adopted = match end {
                PublishEnd::Adopted(_) => true,
                _ => false,
            };
            let head = match system {
                LibrarySystem::GameCube => if adopted {
                    Some(lit("PUBLISH skipped existing GameCube library RVZ and removed staging copy: "))
                } else {
                    Some(lit("PUBLISH verified GameCube library RVZ and removed staging copy: "))
                },
                LibrarySystem::PlayStationPortable => if adopted {
                    Some(lit("PUBLISH adopted verified library output and removed staging copy: "))
                } else {
                    Some(lit("PUBLISH verified final library output and removed staging copy: "))
                },
                LibrarySystem::Nintendo3ds => if adopted {
                    None
                } else {
                    Some(lit("PUBLISH verified 3DS CIA and removed staging copy: "))
                },
            };
            let log = match head {
                Some(mut h) => {
                    append_chars(&mut h, &chars_of(output_name));
                    Some(string_of(&h))
                },
                None => None,
            };
            (Ok(Change::Applied { files_removed: 1, bytes_reclaimed: b }), log)
        },
        PublishEnd::Unchanged => (Ok(Change::Unchanged), None),
        PublishEnd::Failed { error, .. } => (Err(error), None),
        PublishEnd::SizeMismatch => {
            let mut m = lit("recorded ");
            append_chars(&mut m, &output_kind_chars(system));
            append_chars(&mut m, &lit(" size mismatch: "));
            append_chars(&mut m, &chars_of(library));
            (Err(PipelineError::Message(string_of(&m))), None)
        },
        PublishEnd::StagingMissing => (Err(PipelineError::MissingPath(staging.to_owned())), None),
        PublishEnd::OutOfOrder => (Err(crate::error::message("publication step out of order")), None),
    }
}

/// Checks the size of a recorded output (3DS names size and digest with one message).
pub fn check_recorded_size(system: LibrarySystem, path: &str, record: &CompletionRecord, size: u64)
    -> (r: Result<()>)
    ensures
        size == record.size ==> r is Ok,
        size != record.size ==> (r matches Err(PipelineError::Message(m)) && m@ == if system
            == LibrarySystem::Nintendo3ds {
            "recorded 3DS CIA mismatch: "@ + path@
        } else {
            "recorded "@ + output_kind(system) + " size mismatch: "@ + path@
        }),
{
    if size == record.size {
        return Ok(());
    }
    let mut m = if system == LibrarySystem::Nintendo3ds {
        lit("recorded 3DS CIA mismatch: ")
    } else {
        let mut h = lit("recorded ");
        append_chars(&mut h, &output_kind_chars(system));
        append_chars(&mut h, &lit(" size mismatch: "));
        h
    };
    append_chars(&mut m, &chars_of(path));
    Err(PipelineError::Message(string_of(&m)))
}

/// Checks the SHA-256 digest (hexadecimal) of a recorded output.
pub fn check_recorded_digest(system: LibrarySystem, path: &str, record: &CompletionRecord, digest: &str)
    -> (r: Result<()>)
    ensures
        digest@ == record.sha256@ ==> r is Ok,
        digest@ != record.sha256@ ==> (r matches Err(PipelineError::Message(m)) && m@ == if system
            == LibrarySystem::Nintendo3ds {
            "recorded 3DS CIA mismatch: "@ + path@
        } else {
            "recorded "@ + output_kind(system) + " hash mismatch: "@ + path@
        }),
{
    if crate::text::chars_eq(&chars_of(digest), &chars_of(record.sha256.as_str())) {
        return Ok(());
    }
    let mut m = if system == LibrarySystem::Nintendo3ds {
        lit("recorded 3DS CIA mismatch: ")
    } else {
        let mut h = lit("recorded ");
        append_chars(&mut h, &output_kind_chars(system));
        append_chars(&mut h, &lit(" hash mismatch: "));
        h
    };
    append_chars(&mut m, &chars_of(path));
    Err(PipelineError::Message(string_of(&m)))
}


/// Where publication stands after a sequence of observations, from the start.
pub open spec fn publish_walk(system: LibrarySystem, size: u64, obs: Seq<PublishObservation>) -> PublishStep
    decreases obs.len(),
{
    if obs.len() == 0 {
        PublishStep::Start
    } else {
        spec_publish_step(system, size, publish_walk(system, size, obs.drop_last()), obs.last()).0
    }
}

/// The outside work asked for after the observation at `k`.
pub open spec fn publish_action_at(
    system: LibrarySystem,
    size: u64,
    obs: Seq<PublishObservation>,
    k: int,
) -> PublishAction {
    spec_publish_step(system, size, publish_walk(system, size, obs.take(k)), obs[k]).1
}

/// Some observation among the first `n` is `o`.
pub open spec fn seen_before(obs: Seq<PublishObservation>, n: int, o: PublishObservation) -> bool {
    exists|j: int| 0 <= j < n && #[trigger] obs[j] == o
}

/// What the steps of publication remember of the observations that led to them.
proof fn lemma_publish_history(system: LibrarySystem, size: u64, obs: Seq<PublishObservation>)
    ensures
        ({
            let s = publish_walk(system, size, obs);
            let n = obs.len() as int;
            &&& (s == PublishStep::TimingPartial || s == PublishStep::Renaming || s
                == PublishStep::RemovingStaging { adopted: false }) ==> seen_before(
                obs,
                n,
                PublishObservation::PartialVerified(Ok(())),
            )
            &&& s == PublishStep::RemovingStaging { adopted: false } ==> seen_before(
                obs,
                n,
                PublishObservation::Renamed(Ok(())),
            )
            &&& (s == PublishStep::CheckingStagingOfPublished || s == PublishStep::TimingLibrary
                || s == PublishStep::RemovingStaging { adopted: true }) ==> (seen_before(
                obs,
                n,
                PublishObservation::LibrarySize(size),
            ) || seen_before(obs, n, PublishObservation::LibraryVerified(Ok(()))))
        }),
    decreases obs.len(),
{
    if obs.len() > 0 {
        let p = obs.drop_last();
        let n = obs.len() as int;
        lemma_publish_history(system, size, p);
        let last = obs.last();
        assert(obs[n - 1] == last);
        let o1 = PublishObservation::PartialVerified(Ok(()));
        let o2 = PublishObservation::Renamed(Ok(()));
        let o3 = PublishObservation::LibrarySize(size);
        let o4 = PublishObservation::LibraryVerified(Ok(()));
        assert(publish_walk(system, size, obs) == spec_publish_step(
            system,
            size,
            publish_walk(system, size, p),
            last,
        ).0);
        if last == o1 || last == o2 || last == o3 || last == o4 {
            assert(seen_before(obs, n, last));
        }
        let w = publish_walk(system, size, p);
        match last {
            PublishObservation::LibrarySize(m) => {
                if m == size {
                    assert(seen_before(obs, n, o3));
                }
            },
            PublishObservation::LibraryVerified(r) => {
                if let Ok(u) = r {
                    assert(u == ());
                    assert(last == o4);
                }
            },
            PublishObservation::PartialVerified(r) => {
                if let Ok(u) = r {
                    assert(u == ());
                    assert(last == o1);
                }
            },
            PublishObservation::Renamed(r) => {
                if let Ok(u) = r {
                    assert(u == ());
                    assert(last == o2);
                }
            },
            _ => {},
        }
        if seen_before(p, n - 1, o1) {
            let j = choose|j: int| 0 <= j < n - 1 && #[trigger] p[j] == o1;
            assert(obs[j] == o1);
        }
        if seen_before(p, n - 1, o2) {
            let j = choose|j: int| 0 <= j < n - 1 && #[trigger] p[j] == o2;
            assert(obs[j] == o2);
        }
        if seen_before(p, n - 1, o3) {
            let j = choose|j: int| 0 <= j < n - 1 && #[trigger] p[j] == o3;
            assert(obs[j] == o3);
        }
        if seen_before(p, n - 1, o4) {
            let j = choose|j: int| 0 <= j < n - 1 && #[trigger] p[j] == o4;
            assert(obs[j] == o4);
        }
    }
}

/// Publication renames a copy into the library only after that copy passed its check:
/// the `.partial` verification succeeded at or before the observation that leads to the
/// rename.
pub proof fn lemma_rename_after_verified_partial(
    system: LibrarySystem,
    size: u64,
    obs: Seq<PublishObservation>,
    k: int,
)
    requires
        0 <= k < obs.len(),
        publish_action_at(system, size, obs, k) == PublishAction::RenameIntoLibrary,
    ensures
        seen_before(obs, k + 1, PublishObservation::PartialVerified(Ok(()))),
{
    let p = obs.take(k);
    lemma_publish_history(system, size, p);
    if seen_before(p, k, PublishObservation::PartialVerified(Ok(()))) {
        let j = choose|j: int| 0 <= j < k && #[trigger] p[j] == PublishObservation::PartialVerified(Ok(()));
        assert(obs[j] == p[j]);
    }
    assert(obs.take(k + 1).drop_last() =~= p);
    let q = obs.take(k + 1);
    lemma_publish_history(system, size, q);
    assert(publish_walk(system, size, q) == spec_publish_step(system, size, publish_walk(system, size, p), obs[k]).0);
    if seen_before(q, k + 1, PublishObservation::PartialVerified(Ok(()))) {
        let j = choose|j: int| 0 <= j < k + 1 && #[trigger] q[j] == PublishObservation::PartialVerified(Ok(()));
        assert(obs[j] == q[j]);
    }
}

/// Publication removes the staging copy only once the library holds the output: an
/// existing library file had the recorded size or passed verification, or the verified
/// copy was renamed into the library.
pub proof fn lemma_staging_removed_after_library(
    system: LibrarySystem,
    size: u64,
    obs: Seq<PublishObservation>,
    k: int,
)
    requires
        0 <= k < obs.len(),
        publish_action_at(system, size, obs, k) == PublishAction::RemoveStaging,
    ensures
        seen_before(obs, k + 1, PublishObservation::LibrarySize(size)) || seen_before(
            obs,
            k + 1,
            PublishObservation::LibraryVerified(Ok(())),
        ) || (seen_before(obs, k + 1, PublishObservation::Renamed(Ok(()))) && seen_before(
            obs,
            k + 1,
            PublishObservation::PartialVerified(Ok(())),
        )),
{
    let p = obs.take(k);
    lemma_publish_history(system, size, p);
    let o1 = PublishObservation::PartialVerified(Ok(()));
    let o3 = PublishObservation::LibrarySize(size);
    let o4 = PublishObservation::LibraryVerified(Ok(()));
    if seen_before(p, k, o1) {
        let j = choose|j: int| 0 <= j < k && #[trigger] p[j] == o1;
        assert(obs[j] == p[j]);
    }
    if seen_before(p, k, o3) {
        let j = choose|j: int| 0 <= j < k && #[trigger] p[j] == o3;
        assert(obs[j] == p[j]);
    }
    if seen_before(p, k, o4) {
        let j = choose|j: int| 0 <= j < k && #[trigger] p[j] == o4;
        assert(obs[j] == p[j]);
    }
    assert(obs.take(k + 1).drop_last() =~= p);
    let q = obs.take(k + 1);
    lemma_publish_history(system, size, q);
    assert(publish_walk(system, size, q) == spec_publish_step(system, size, publish_walk(system, size, p), obs[k]).0);
    let o2 = PublishObservation::Renamed(Ok(()));
    if seen_before(q, k + 1, o1) {
        let j = choose|j: int| 0 <= j < k + 1 && #[trigger] q[j] == o1;
        assert(obs[j] == q[j]);
    }
    if seen_before(q, k + 1, o2) {
        let j = choose|j: int| 0 <= j < k + 1 && #[trigger] q[j] == o2;
        assert(obs[j] == q[j]);
    }
    if seen_before(q, k + 1, o3) {
        let j = choose|j: int| 0 <= j < k + 1 && #[trigger] q[j] == o3;
        assert(obs[j] == q[j]);
    }
    if seen_before(q, k + 1, o4) {
        let j = choose|j: int| 0 <= j < k + 1 && #[trigger] q[j] == o4;
        assert(obs[j] == q[j]);
    }
}


/// What was found of one job before pruning: its marker, whether the marker's fingerprint
/// is current, and whether its output lies in the final library (at `library`) with the
/// recorded size.
pub struct PruneObservation {
    pub job_id: String,
    pub record: Option<CompletionRecord>,
    pub fingerprint_ok: bool,
    pub in_library: bool,
    pub library: String,
}

/// Why the job of an observation may not be pruned, if it may not.
pub open spec fn observed_problem(system: LibrarySystem, o: PruneObservation) -> Option<Seq<char>> {
    prune_problem(system, o.job_id@, o.record is Some, o.fingerprint_ok, o.in_library, o.library@)
}

/// Checks, before any source is pruned, that every job of the profile may be pruned; fails
/// with the problem of the first job that may not.
pub fn check_all_prunable(system: LibrarySystem, jobs: &Vec<PruneObservation>) -> (r: Result<()>)
    ensures
        r is Ok <==> forall|i: int| 0 <= i < jobs@.len() ==> observed_problem(system, #[trigger] jobs@[i]) is None,
        r is Err ==> (r matches Err(PipelineError::Message(x)) && exists|i: int|
            0 <= i < jobs@.len() && (forall|j: int|
                0 <= j < i ==> observed_problem(system, #[trigger] jobs@[j]) is None)
                && observed_problem(system, #[trigger] jobs@[i]) == Some(x@)),
{
    let mut i: usize = 0;
    while i < jobs.len()
        invariant
            i <= jobs@.len(),
            forall|j: int| 0 <= j < i ==> observed_problem(system, #[trigger] jobs@[j]) is None,
        decreases jobs@.len() - i,
    {
        let o = &jobs[i];
        match check_prunable(system, o.job_id.as_str(), &o.record, o.fingerprint_ok, o.in_library, o.library.as_str()) {
            Ok(()) => {},
            Err(e) => {
                return Err(e);
            },
        }
        i += 1;
    }
    Ok(())
}

} // verus!
