//! Deploying a Vita title to an SD2Vita card: the CRC-32 of deployed files, the check of
//! each deployed file against its archive entry, and the order of a deployment.
use vstd::prelude::*;

use crate::error::{PipelineError, Result};
use crate::config::{components, path_components};
use crate::text::{append_chars, chars_eq, chars_of, lit, string_of, views};
use crate::domain::JobOutcome;
use crate::numbers::{decimal, decimal_chars};
use crate::state::{join, spec_join};
use crate::vita::{entry_views, ArchiveEntry, ArchiveLayout, EntryView, LayoutView};

verus! {

#[verifier::external_type_specification]
#[verifier::external_body]
pub struct ExCrc32Hasher(crc32fast::Hasher);

/// The CRC-32 (IEEE) of a byte sequence.
pub uninterp spec fn spec_crc32(data: Seq<u8>) -> u32;

/// The bytes a CRC-32 computation has been fed so far, in order.
pub uninterp spec fn crc_bytes(h: crc32fast::Hasher) -> Seq<u8>;

/// Trusted: `crc32fast::Hasher::new` starts a computation that has been fed nothing.
pub assume_specification[ crc32fast::Hasher::new ]() -> (r: crc32fast::Hasher)
    ensures
        crc_bytes(r) == Seq::<u8>::empty(),
;

/// Trusted: `crc32fast::Hasher::update` feeds `buf` after the bytes fed before. It counts
/// the bytes in a `u64`, which must not overflow.
pub assume_specification[ crc32fast::Hasher::update ](h: &mut crc32fast::Hasher, buf: &[u8])
    requires
        crc_bytes(*old(h)).len() + buf@.len() <= u64::MAX,
    ensures
        crc_bytes(*final(h)) == crc_bytes(*old(h)) + buf@,
;

/// Trusted: `crc32fast::Hasher::finalize` returns the CRC-32 of every byte fed (the same
/// value `crc32fast::hash` gives of those bytes at once).
pub assume_specification[ crc32fast::Hasher::finalize ](h: crc32fast::Hasher) -> (r: u32)
    ensures
        r == spec_crc32(crc_bytes(h)),
;


/// A CRC-32 computation over bytes that arrive in pieces (a file read block by block),
/// with the count of bytes fed.
pub struct Crc32Stream {
    hasher: crc32fast::Hasher,
    fed: u64,
}

impl Crc32Stream {
    /// The count matches the bytes fed.
    pub closed spec fn wf(self) -> bool {
        self.fed == crc_bytes(self.hasher).len()
    }

    /// The bytes fed so far.
    pub closed spec fn bytes(self) -> Seq<u8> {
        crc_bytes(self.hasher)
    }

    /// A computation that has been fed nothing.
    pub fn new() -> (r: Crc32Stream)
        ensures
            r.wf(),
            r.bytes() == Seq::<u8>::empty(),
    {
        Crc32Stream { hasher: crc32fast::Hasher::new(), fed: 0 }
    }

    /// How many bytes were fed.
    pub fn fed(&self) -> (r: u64)
        requires
            self.wf(),
        ensures
            r == self.bytes().len(),
    {
        self.fed
    }

    /// Feeds the next piece of the bytes.
    pub fn feed(&mut self, chunk: &[u8])
        requires
            old(self).wf(),
            old(self).bytes().len() + chunk@.len() <= u64::MAX,
        ensures
            final(self).wf(),
            final(self).bytes() == old(self).bytes() + chunk@,
    {
        self.hasher.update(chunk);
        self.fed = self.fed + chunk.len() as u64;
    }

    /// The CRC-32 of every byte fed.
    pub fn finish(self) -> (r: u32)
        ensures
            r == spec_crc32(self.bytes()),
    {
        self.hasher.finalize()
    }
}

/// Why a deployed file does not match its archive entry, if it does not: it must be a
/// regular file of the entry's size, and, when its CRC-32 was computed, of the entry's CRC.
pub open spec fn deployed_file_problem(e: EntryView, is_file: bool, size: u64, crc: Option<u32>) -> Option<
    Seq<char>,
> {
    if !is_file || size != e.size {
        Some("deployed Vita file mismatch: "@)
    } else if crc matches Some(c) && c != e.crc32 {
        Some("deployed Vita CRC mismatch: "@)
    } else {
        None
    }
}

/// Checks a deployed file (shown as `path`) against its archive entry, from what was found
/// of it: whether it is a regular file, its size, and its CRC-32 when that was computed.
pub fn check_deployed_file(entry: &ArchiveEntry, path: &str, is_file: bool, size: u64, crc: Option<u32>)
    -> (r: Result<()>)
    ensures
        match deployed_file_problem(entry@, is_file, size, crc) {
            None => r is Ok,
            Some(m) => r matches Err(PipelineError::Message(x)) && x@ == m + path@,
        },
{
    let mut m = if !is_file || size != entry.size {
        lit("deployed Vita file mismatch: ")
    } else {
        match crc {
            Some(c) => if c != entry.crc32 {
                lit("deployed Vita CRC mismatch: ")
            } else {
                return Ok(());
            },
            None => return Ok(()),
        }
    };
    append_chars(&mut m, &chars_of(path));
    Err(PipelineError::Message(string_of(&m)))
}

/// Checks a Vita ZIP against its manifest entry: a regular file of the expected size.
pub fn check_vita_zip(path: &str, expected_size: u64, is_file: bool, size: u64) -> (r: Result<()>)
    ensures
        is_file && size == expected_size ==> r is Ok,
        !(is_file && size == expected_size) ==> (r matches Err(PipelineError::Message(m)) && m@
            == "Vita ZIP size mismatch: "@ + path@),
{
    if is_file && size == expected_size {
        return Ok(());
    }
    let mut m = lit("Vita ZIP size mismatch: ");
    append_chars(&mut m, &chars_of(path));
    Err(PipelineError::Message(string_of(&m)))
}


/// Some listed file lies under the top-level folder `patch`.
pub open spec fn lists_patch(es: Seq<EntryView>) -> bool {
    exists|k: int|
        0 <= k < es.len() && path_components(#[trigger] es[k].path).len() > 0 && path_components(
            es[k].path,
        )[0] == "patch"@
}

/// Whether a recorded deployment's folders stand on the card, without rechecking its
/// files: the title's `app` folder, and its `patch` folder when the record lists files
/// under `patch`.
pub fn roots_present(entries: &Vec<ArchiveEntry>, app_dir: bool, patch_dir: bool) -> (r: bool)
    ensures
        r == (app_dir && (!lists_patch(entry_views(entries@)) || patch_dir)),
{
    let ghost es = entry_views(entries@);
    let patch = lit("patch");
    let mut listed = false;
    let mut i: usize = 0;
    while i < entries.len()
        invariant
            i <= entries@.len(),
            es == entry_views(entries@),
            patch@ == "patch"@,
            listed == exists|k: int|
                0 <= k < i && path_components(#[trigger] es[k].path).len() > 0 && path_components(
                    es[k].path,
                )[0] == "patch"@,
        decreases entries@.len() - i,
    {
        let cs = components(&entries[i].path);
        assert(es[i as int].path == entries@[i as int].path@);
        assert(views(cs@) == path_components(es[i as int].path));
        if cs.len() > 0 && chars_eq(&cs[0], &patch) {
            assert(views(cs@)[0] == cs@[0]@);
            listed = true;
        } else {
            assert(cs.len() > 0 ==> views(cs@)[0] == cs@[0]@);
        }
        i += 1;
    }
    app_dir && (!listed || patch_dir)
}

/// What rechecking a recorded deployment's files says of it: installed when every file
/// checks out, not installed when a file is missing, and otherwise the error.
pub fn installed_after_check(checked: Result<()>) -> (r: Result<bool>)
    ensures
        match checked {
            Ok(()) => r == Ok::<bool, PipelineError>(true),
            Err(PipelineError::MissingPath(_)) => r == Ok::<bool, PipelineError>(false),
            Err(e) => r == Err::<bool, PipelineError>(e),
        },
{
    match checked {
        Ok(()) => Ok(true),
        Err(PipelineError::MissingPath(_)) => Ok(false),
        Err(e) => Err(e),
    }
}

/// Where deploying a Vita title stands, once its archive was inspected.
#[derive(Clone, Copy, Debug, PartialEq, Eq)]
pub enum DeployStep {
    /// The archive is being tested.
    Testing,
    /// A stop request is being checked; `staged` tells whether the title was extracted to
    /// the staging folder.
    CheckingStop { staged: bool },
    /// The card's free space is being read.
    CheckingSpace,
    /// The title's folders on the card are being looked up.
    CheckingRoots,
    /// The title's folders already on the card are being checked file by file.
    VerifyingExisting,
    /// The staging folder is being reset.
    PreparingStaging,
    /// The title is being extracted to the staging folder.
    Extracting,
    /// The staged files are being checked file by file.
    VerifyingStaged,
    /// The staged folders are being renamed into place.
    PublishingRoots,
    /// The deployment is being checked and recorded.
    Completing,
    /// Deployment ended.
    Done,
}

/// What the outside work of one deployment step found.
#[derive(Debug, PartialEq, Eq)]
pub enum DeployObservation {
    Tested(Result<()>),
    StopRequested(bool),
    /// The card's free bytes and the profile's reserve.
    Space(Result<(u64, u64)>),
    /// Whether `app/<title>` and `patch/<title>` on the card are folders, and whether they
    /// exist at all.
    Roots { app_dir: bool, patch_dir: bool, app_exists: bool, patch_exists: bool },
    FilesVerified(Result<()>),
    StagingPrepared(Result<()>),
    Extracted(Result<()>),
    StagedVerified(Result<()>),
    RootsPublished(Result<()>),
    Completed(Result<()>),
}

/// How a deployment ended.
#[derive(Clone, Debug, PartialEq, Eq)]
pub enum DeployEnd {
    Completed,
    /// A stop was requested after extraction; the staging folder is removed.
    Interrupted,
    /// A step failed; `remove_staging` asks to remove the staging folder.
    Failed { error: PipelineError, remove_staging: bool },
    /// The space needed with the reserve does not fit in a `u64`.
    SpaceOverflow,
    /// The card has too little free space.
    SpaceShort { required: u64, available: u64 },
    /// A folder of the title (the patch folder when `patch`) exists without a complete
    /// deployment.
    PartialExists { patch: bool },
    /// An observation arrived that the step does not wait for.
    OutOfOrder,
}

/// The outside work that a deployment step asks for next.
#[derive(Clone, Debug, PartialEq, Eq)]
pub enum DeployAction {
    CheckStop,
    /// Read the card's free space and the profile's reserve.
    ReadSpace,
    /// Look up the title's folders on the card.
    CheckRoots,
    /// Check the title's files on the card (after writing the `adopt-existing-vita-title`
    /// activity).
    VerifyExisting,
    /// Reset and create the staging folder.
    PrepareStaging,
    /// Extract the title to the staging folder (after writing the `extract-to-sd2vita`
    /// activity).
    Extract,
    /// Check the staged files (after writing the `verify-sd2vita-copy` activity).
    VerifyStaged,
    /// Rename the staged folders into place, the patch folder first.
    PublishRoots,
    /// Check the title's files on the card, write its deployment record and completion
    /// marker; first remove the staging folder when `remove_staging`.
    Complete { remove_staging: bool },
    Finish(DeployEnd),
}

/// A failure ending.
pub open spec fn deploy_failed(e: PipelineError, remove_staging: bool) -> (DeployStep, DeployAction) {
    (DeployStep::Done, DeployAction::Finish(DeployEnd::Failed { error: e, remove_staging }))
}

/// One step of deploying a title of layout `lv`.
///
/// After the archive tested good and no stop was requested, the card must have room for
/// the unpacked title and the reserve. Folders of the title already on the card are
/// adopted when they are complete and their files check out; a folder without a complete
/// deployment is never overwritten. Otherwise the title is extracted to a staging folder;
/// a stop then removes the staging folder and ends the deployment; the staged files are
/// checked before the folders are renamed into place, and the deployment is recorded.
pub open spec fn spec_deploy_step(lv: LayoutView, step: DeployStep, seen: DeployObservation) -> (
    DeployStep,
    DeployAction,
) {
    let out_of_order = (DeployStep::Done, DeployAction::Finish(DeployEnd::OutOfOrder));
    match step {
        DeployStep::Testing => match seen {
            DeployObservation::Tested(Ok(())) => (
                DeployStep::CheckingStop { staged: false },
                DeployAction::CheckStop,
            ),
            DeployObservation::Tested(Err(e)) => deploy_failed(e, false),
            _ => out_of_order,
        },
        DeployStep::CheckingStop { staged } => match seen {
            DeployObservation::StopRequested(stop) => if !stop {
                if staged {
                    (DeployStep::VerifyingStaged, DeployAction::VerifyStaged)
                } else {
                    (DeployStep::CheckingSpace, DeployAction::ReadSpace)
                }
            } else if staged {
                (DeployStep::Done, DeployAction::Finish(DeployEnd::Interrupted))
            } else {
                deploy_failed(PipelineError::Interrupted, false)
            },
            _ => out_of_order,
        },
        DeployStep::CheckingSpace => match seen {
            DeployObservation::Space(Ok((available, reserve))) => if lv.unpacked_bytes + reserve > u64::MAX {
                (DeployStep::Done, DeployAction::Finish(DeployEnd::SpaceOverflow))
            } else if available < lv.unpacked_bytes + reserve {
                (
                    DeployStep::Done,
                    DeployAction::Finish(
                        DeployEnd::SpaceShort { required: (lv.unpacked_bytes + reserve) as u64, available },
                    ),
                )
            } else {
                (DeployStep::CheckingRoots, DeployAction::CheckRoots)
            },
            DeployObservation::Space(Err(e)) => deploy_failed(e, false),
            _ => out_of_order,
        },
        DeployStep::CheckingRoots => match seen {
            DeployObservation::Roots { app_dir, patch_dir, app_exists, patch_exists } => if app_dir && (
            !lv.has_patch || patch_dir) {
                (DeployStep::VerifyingExisting, DeployAction::VerifyExisting)
            } else if app_exists {
                (DeployStep::Done, DeployAction::Finish(DeployEnd::PartialExists { patch: false }))
            } else if lv.has_patch && patch_exists {
                (DeployStep::Done, DeployAction::Finish(DeployEnd::PartialExists { patch: true }))
            } else {
                (DeployStep::PreparingStaging, DeployAction::PrepareStaging)
            },
            _ => out_of_order,
        },
        DeployStep::VerifyingExisting => match seen {
            DeployObservation::FilesVerified(Ok(())) => (
                DeployStep::Completing,
                DeployAction::Complete { remove_staging: false },
            ),
            DeployObservation::FilesVerified(Err(e)) => deploy_failed(e, false),
            _ => out_of_order,
        },
        DeployStep::PreparingStaging => match seen {
            DeployObservation::StagingPrepared(Ok(())) => (DeployStep::Extracting, DeployAction::Extract),
            DeployObservation::StagingPrepared(Err(e)) => deploy_failed(e, false),
            _ => out_of_order,
        },
        DeployStep::Extracting => match seen {
            DeployObservation::Extracted(Ok(())) => (
                DeployStep::CheckingStop { staged: true },
                DeployAction::CheckStop,
            ),
            DeployObservation::Extracted(Err(e)) => deploy_failed(e, true),
            _ => out_of_order,
        },
        DeployStep::VerifyingStaged => match seen {
            DeployObservation::StagedVerified(Ok(())) => (DeployStep::PublishingRoots, DeployAction::PublishRoots),
            DeployObservation::StagedVerified(Err(e)) => deploy_failed(e, false),
            _ => out_of_order,
        },
        DeployStep::PublishingRoots => match seen {
            DeployObservation::RootsPublished(Ok(())) => (
                DeployStep::Completing,
                DeployAction::Complete { remove_staging: true },
            ),
            DeployObservation::RootsPublished(Err(e)) => deploy_failed(e, false),
            _ => out_of_order,
        },
        DeployStep::Completing => match seen {
            DeployObservation::Completed(Ok(())) => (DeployStep::Done, DeployAction::Finish(DeployEnd::Completed)),
            DeployObservation::Completed(Err(e)) => deploy_failed(e, false),
            _ => out_of_order,
        },
        DeployStep::Done => out_of_order,
    }
}

/// A failure ending.
fn fail(e: PipelineError, remove_staging: bool) -> (r: (DeployStep, DeployAction))
    ensures
        r == deploy_failed(e, remove_staging),
{
    (DeployStep::Done, DeployAction::Finish(DeployEnd::Failed { error: e, remove_staging }))
}

/// One step of deploying a title of layout `layout`.
pub fn deploy_step(layout: &ArchiveLayout, step: DeployStep, seen: DeployObservation) -> (r: (
    DeployStep,
    DeployAction,
))
    ensures
        r == spec_deploy_step(layout@, step, seen),
{
    let out_of_order = (DeployStep::Done, DeployAction::Finish(DeployEnd::OutOfOrder));
    match step {
        DeployStep::Testing => match seen {
            DeployObservation::Tested(Ok(())) => (
                DeployStep::CheckingStop { staged: false },
                DeployAction::CheckStop,
            ),
            DeployObservation::Tested(Err(e)) => fail(e, false),
            _ => out_of_order,
        },
        DeployStep::CheckingStop { staged } => match seen {
            DeployObservation::StopRequested(stop) => if !stop {
                if staged {
                    (DeployStep::VerifyingStaged, DeployAction::VerifyStaged)
                } else {
                    (DeployStep::CheckingSpace, DeployAction::ReadSpace)
                }
            } else if staged {
                (DeployStep::Done, DeployAction::Finish(DeployEnd::Interrupted))
            } else {
                fail(PipelineError::Interrupted, false)
            },
            _ => out_of_order,
        },
        DeployStep::CheckingSpace => match seen {
            DeployObservation::Space(Ok((available, reserve))) => if reserve > u64::MAX - layout.unpacked_bytes {
                (DeployStep::Done, DeployAction::Finish(DeployEnd::SpaceOverflow))
            } else if available < layout.unpacked_bytes + reserve {
                (
                    DeployStep::Done,
                    DeployAction::Finish(
                        DeployEnd::SpaceShort { required: layout.unpacked_bytes + reserve, available },
                    ),
                )
            } else {
                (DeployStep::CheckingRoots, DeployAction::CheckRoots)
            },
            DeployObservation::Space(Err(e)) => fail(e, false),
            _ => out_of_order,
        },
        DeployStep::CheckingRoots => match seen {
            DeployObservation::Roots { app_dir, patch_dir, app_exists, patch_exists } => if app_dir && (
            !layout.has_patch || patch_dir) {
                (DeployStep::VerifyingExisting, DeployAction::VerifyExisting)
            } else if app_exists {
                (DeployStep::Done, DeployAction::Finish(DeployEnd::PartialExists { patch: false }))
            } else if layout.has_patch && patch_exists {
                (DeployStep::Done, DeployAction::Finish(DeployEnd::PartialExists { patch: true }))
            } else {
                (DeployStep::PreparingStaging, DeployAction::PrepareStaging)
            },
            _ => out_of_order,
        },
        DeployStep::VerifyingExisting => match seen {
            DeployObservation::FilesVerified(Ok(())) => (
                DeployStep::Completing,
                DeployAction::Complete { remove_staging: false },
            ),
            DeployObservation::FilesVerified(Err(e)) => fail(e, false),
            _ => out_of_order,
        },
        DeployStep::PreparingStaging => match seen {
            DeployObservation::StagingPrepared(Ok(())) => (DeployStep::Extracting, DeployAction::Extract),
            DeployObservation::StagingPrepared(Err(e)) => fail(e, false),
            _ => out_of_order,
        },
        DeployStep::Extracting => match seen {
            DeployObservation::Extracted(Ok(())) => (
                DeployStep::CheckingStop { staged: true },
                DeployAction::CheckStop,
            ),
            DeployObservation::Extracted(Err(e)) => fail(e, true),
            _ => out_of_order,
        },
        DeployStep::VerifyingStaged => match seen {
            DeployObservation::StagedVerified(Ok(())) => (DeployStep::PublishingRoots, DeployAction::PublishRoots),
            DeployObservation::StagedVerified(Err(e)) => fail(e, false),
            _ => out_of_order,
        },
        DeployStep::PublishingRoots => match seen {
            DeployObservation::RootsPublished(Ok(())) => (
                DeployStep::Completing,
                DeployAction::Complete { remove_staging: true },
            ),
            DeployObservation::RootsPublished(Err(e)) => fail(e, false),
            _ => out_of_order,
        },
        DeployStep::Completing => match seen {
            DeployObservation::Completed(Ok(())) => (DeployStep::Done, DeployAction::Finish(DeployEnd::Completed)),
            DeployObservation::Completed(Err(e)) => fail(e, false),
            _ => out_of_order,
        },
        DeployStep::Done => out_of_order,
    }
}

/// What a deployment ending returns: the job's outcome, or the error; `device` is the card's
/// root and `title` the title ID.
pub fn deploy_outcome(end: DeployEnd, device: &String, title: &str) -> (r: Result<JobOutcome>)
    ensures
        match end {
            DeployEnd::Completed => r == Ok::<JobOutcome, PipelineError>(JobOutcome::Completed),
            DeployEnd::Interrupted => r == Ok::<JobOutcome, PipelineError>(JobOutcome::Interrupted),
            DeployEnd::Failed { error, .. } => r == Err::<JobOutcome, PipelineError>(error),
            DeployEnd::SpaceOverflow => r matches Err(PipelineError::Message(m)) && m@
                == "Vita space requirement overflowed"@,
            DeployEnd::SpaceShort { required, available } => r matches Err(PipelineError::Message(m))
                && m@ == "SD2Vita needs "@ + decimal_chars(required as nat)
                + " bytes including reserve; only "@ + decimal_chars(available as nat)
                + " bytes are free"@,
            DeployEnd::PartialExists { patch } => r matches Err(PipelineError::Message(m)) && m@
                == "incomplete Vita deployment already exists; refusing to overwrite "@ + spec_join(
                spec_join(device@, if patch { "patch"@ } else { "app"@ }),
                title@,
            ),
            DeployEnd::OutOfOrder => r matches Err(PipelineError::Message(m)) && m@
                == "Vita deployment step out of order"@,
        },
{
    match end {
        DeployEnd::Completed => Ok(JobOutcome::Completed),
        DeployEnd::Interrupted => Ok(JobOutcome::Interrupted),
        DeployEnd::Failed { error, .. } => Err(error),
        DeployEnd::SpaceOverflow => Err(crate::error::message("Vita space requirement overflowed")),
        DeployEnd::SpaceShort { required, available } => {
            let mut m = lit("SD2Vita needs ");
            append_chars(&mut m, &decimal(required));
            append_chars(&mut m, &lit(" bytes including reserve; only "));
            append_chars(&mut m, &decimal(available));
            append_chars(&mut m, &lit(" bytes are free"));
            Err(PipelineError::Message(string_of(&m)))
        },
        DeployEnd::PartialExists { patch } => {
            let root = if patch {
                lit("patch")
            } else {
                lit("app")
            };
            let folder = join(device, &root);
            let path = join(&folder, &chars_of(title));
            let mut m = lit("incomplete Vita deployment already exists; refusing to overwrite ");
            append_chars(&mut m, &chars_of(path.as_str()));
            Err(PipelineError::Message(string_of(&m)))
        },
        DeployEnd::OutOfOrder => Err(crate::error::message("Vita deployment step out of order")),
    }
}

/// Where a deployment stands after a sequence of observations, from the start.
pub open spec fn deploy_walk(lv: LayoutView, obs: Seq<DeployObservation>) -> DeployStep
    decreases obs.len(),
{
    if obs.len() == 0 {
        DeployStep::Testing
    } else {
        spec_deploy_step(lv, deploy_walk(lv, obs.drop_last()), obs.last()).0
    }
}

/// The outside work asked for after the observation at `k`.
pub open spec fn deploy_action_at(lv: LayoutView, obs: Seq<DeployObservation>, k: int) -> DeployAction {
    spec_deploy_step(lv, deploy_walk(lv, obs.take(k)), obs[k]).1
}

/// Some observation among the first `n` is `o`.
pub open spec fn deploy_seen(obs: Seq<DeployObservation>, n: int, o: DeployObservation) -> bool {
    exists|j: int| 0 <= j < n && #[trigger] obs[j] == o
}

/// What the steps of a deployment remember of the observations that led to them.
proof fn lemma_deploy_history(lv: LayoutView, obs: Seq<DeployObservation>)
    ensures
        ({
            let s = deploy_walk(lv, obs);
            let n = obs.len() as int;
            &&& s == DeployStep::PublishingRoots ==> deploy_seen(
                obs,
                n,
                DeployObservation::StagedVerified(Ok(())),
            )
            &&& s == DeployStep::Completing ==> (deploy_seen(
                obs,
                n,
                DeployObservation::FilesVerified(Ok(())),
            ) || (deploy_seen(obs, n, DeployObservation::StagedVerified(Ok(()))) && deploy_seen(
                obs,
                n,
                DeployObservation::RootsPublished(Ok(())),
            )))
        }),
    decreases obs.len(),
{
    if obs.len() > 0 {
        let p = obs.drop_last();
        let n = obs.len() as int;
        lemma_deploy_history(lv, p);
        let last = obs.last();
        assert(obs[n - 1] == last);
        let o1 = DeployObservation::FilesVerified(Ok(()));
        let o2 = DeployObservation::StagedVerified(Ok(()));
        let o3 = DeployObservation::RootsPublished(Ok(()));
        match last {
            DeployObservation::FilesVerified(r) => {
                if let Ok(u) = r {
                    assert(u == ());
                    assert(last == o1);
                }
            },
            DeployObservation::StagedVerified(r) => {
                if let Ok(u) = r {
                    assert(u == ());
                    assert(last == o2);
                }
            },
            DeployObservation::RootsPublished(r) => {
                if let Ok(u) = r {
                    assert(u == ());
                    assert(last == o3);
                }
            },
            _ => {},
        }
        if last == o1 || last == o2 || last == o3 {
            assert(deploy_seen(obs, n, last));
        }
        if deploy_seen(p, n - 1, o1) {
            let j = choose|j: int| 0 <= j < n - 1 && #[trigger] p[j] == o1;
            assert(obs[j] == o1);
        }
        if deploy_seen(p, n - 1, o2) {
            let j = choose|j: int| 0 <= j < n - 1 && #[trigger] p[j] == o2;
            assert(obs[j] == o2);
        }
        if deploy_seen(p, n - 1, o3) {
            let j = choose|j: int| 0 <= j < n - 1 && #[trigger] p[j] == o3;
            assert(obs[j] == o3);
        }
    }
}

/// The history of the first `k + 1` observations, as facts about all of them.
proof fn lemma_deploy_prefix(lv: LayoutView, obs: Seq<DeployObservation>, k: int, o: DeployObservation)
    requires
        0 <= k < obs.len(),
        deploy_seen(obs.take(k + 1), k + 1, o),
    ensures
        deploy_seen(obs, k + 1, o),
{
    let q = obs.take(k + 1);
    let j = choose|j: int| 0 <= j < k + 1 && #[trigger] q[j] == o;
    assert(obs[j] == q[j]);
}

/// A deployment renames the staged folders into place only after the staged files were
/// checked against the archive.
pub proof fn lemma_roots_published_after_check(lv: LayoutView, obs: Seq<DeployObservation>, k: int)
    requires
        0 <= k < obs.len(),
        deploy_action_at(lv, obs, k) == DeployAction::PublishRoots,
    ensures
        deploy_seen(obs, k + 1, DeployObservation::StagedVerified(Ok(()))),
{
    let p = obs.take(k);
    let q = obs.take(k + 1);
    assert(q.drop_last() =~= p);
    lemma_deploy_history(lv, q);
    assert(deploy_walk(lv, q) == spec_deploy_step(lv, deploy_walk(lv, p), obs[k]).0);
    lemma_deploy_prefix(lv, obs, k, DeployObservation::StagedVerified(Ok(())));
}

/// A deployment is recorded only once the title's files on the card were checked: folders
/// already there are adopted only after their files checked out, and new folders are
/// placed only after the staged files checked out.
pub proof fn lemma_recorded_after_check(lv: LayoutView, obs: Seq<DeployObservation>, k: int)
    requires
        0 <= k < obs.len(),
        deploy_action_at(lv, obs, k) matches DeployAction::Complete { .. },
    ensures
        deploy_action_at(lv, obs, k) == (DeployAction::Complete { remove_staging: false })
            ==> deploy_seen(obs, k + 1, DeployObservation::FilesVerified(Ok(()))),
        deploy_seen(obs, k + 1, DeployObservation::FilesVerified(Ok(()))) || (deploy_seen(
            obs,
            k + 1,
            DeployObservation::StagedVerified(Ok(())),
        ) && deploy_seen(obs, k + 1, DeployObservation::RootsPublished(Ok(())))),
{
    let p = obs.take(k);
    let q = obs.take(k + 1);
    assert(q.drop_last() =~= p);
    lemma_deploy_history(lv, q);
    assert(deploy_walk(lv, q) == spec_deploy_step(lv, deploy_walk(lv, p), obs[k]).0);
    let o1 = DeployObservation::FilesVerified(Ok(()));
    let o2 = DeployObservation::StagedVerified(Ok(()));
    let o3 = DeployObservation::RootsPublished(Ok(()));
    if deploy_seen(q, k + 1, o1) {
        lemma_deploy_prefix(lv, obs, k, o1);
    }
    if deploy_seen(q, k + 1, o2) {
        lemma_deploy_prefix(lv, obs, k, o2);
    }
    if deploy_seen(q, k + 1, o3) {
        lemma_deploy_prefix(lv, obs, k, o3);
    }
    if deploy_action_at(lv, obs, k) == (DeployAction::Complete { remove_staging: false }) {
        let w = deploy_walk(lv, p);
        assert(w == DeployStep::VerifyingExisting);
        assert(obs[k] == o1) by {
            if let DeployObservation::FilesVerified(r) = obs[k] {
                if let Ok(u) = r {
                    assert(u == ());
                }
            }
        }
        assert(q[k] == obs[k]);
        assert(deploy_seen(q, k + 1, o1));
        lemma_deploy_prefix(lv, obs, k, o1);
    }
}

} // verus!
