//! The lifecycle of making a PS2 job's output: a CHD is made into a `.partial` file and
//! verified (and, when the profile asks, rebuilt and compared with the source); then its
//! size decides between publishing it and keeping the source image instead, which is
//! copied, compared by digest with the source, and only then published.
use vstd::prelude::*;

use crate::config::Ps2Settings;
use crate::error::{PipelineError, Result};
use crate::service::{keeps_source, spec_savings_percent};
use crate::text::{chars_eq, chars_of};

verus! {

/// Where making a PS2 output stands.
#[derive(Clone, Copy, Debug, PartialEq, Eq)]
pub enum ChdStep {
    /// The CHD is being made into its `.partial` file.
    Creating,
    /// A stop request is being checked; `verified` tells whether the CHD was verified.
    CheckingStop { verified: bool },
    /// The `.partial` CHD is being verified.
    Verifying,
    /// The `.partial` CHD is being rebuilt and compared with the source.
    RoundTrip,
    /// The `.partial` CHD's size is being read.
    Measuring,
    /// The CHD, which saves too little, is being removed with any stale copy of the source.
    DiscardingChd { chd_size: u64 },
    /// The source image is being copied to its `.partial` file.
    Copying { chd_size: u64 },
    /// The copy's digest is being compared with the source's.
    ComparingCopy { chd_size: u64 },
    /// The copy of the source is being renamed into place.
    PublishingCopy { chd_size: u64 },
    /// The CHD is being renamed into place.
    PublishingChd { chd_size: u64 },
    /// Making the output ended.
    Done,
}

/// What the outside work of one step found.
#[derive(Debug, PartialEq, Eq)]
pub enum ChdObservation {
    Created(Result<()>),
    StopRequested(bool),
    Verified(Result<()>),
    RoundTripped(Result<()>),
    /// The `.partial` CHD's size.
    Measured(Result<u64>),
    ChdDiscarded(Result<()>),
    Copied(Result<()>),
    /// The digests of the source and of its copy.
    CopyDigests(Result<(String, String)>),
    CopyPublished(Result<()>),
    ChdPublished(Result<()>),
}

/// What a failure leaves to remove.
#[derive(Clone, Copy, Debug, PartialEq, Eq)]
pub enum ChdLeftover {
    Nothing,
    /// The `.partial` CHD.
    PartialChd,
}

/// How making the output ended.
#[derive(Clone, Debug, PartialEq, Eq)]
pub enum ChdEnd {
    /// The source image was kept in place of a CHD of `chd_size` bytes.
    Preserved { chd_size: u64 },
    /// The CHD of `chd_size` bytes was published.
    Compressed { chd_size: u64 },
    /// A step failed (a stop request fails with `Interrupted`).
    Failed { error: PipelineError, remove: ChdLeftover },
    /// The copy's digest differs from the source's; the copy is removed.
    CopyMismatch,
    /// An observation arrived that the step does not wait for.
    OutOfOrder,
}

/// The outside work that a step asks for next.
#[derive(Clone, Debug, PartialEq, Eq)]
pub enum ChdAction {
    CheckStop,
    /// Verify the `.partial` CHD (after writing the `verify-chd` activity).
    Verify,
    /// Rebuild the `.partial` CHD and compare it with the source (after writing the
    /// `roundtrip-chd` activity).
    RoundTrip,
    /// Read the `.partial` CHD's size.
    Measure,
    /// Remove the `.partial` CHD and any stale `.partial` copy of the source.
    DiscardChd,
    /// Copy the source image to its `.partial` file (after writing the `preserve-source`
    /// activity).
    CopySource,
    /// Compute the digests of the source and of its copy.
    HashCopy,
    /// Rename the copy of the source into place.
    PublishCopy,
    /// Rename the CHD into place.
    PublishChd,
    Finish(ChdEnd),
}

/// A failure ending.
pub open spec fn chd_failed(e: PipelineError, remove: ChdLeftover) -> (ChdStep, ChdAction) {
    (ChdStep::Done, ChdAction::Finish(ChdEnd::Failed { error: e, remove }))
}

/// Whether the source is kept in place of a CHD of `chd_size` bytes: the profile keeps
/// sources whose compression is not worthwhile, and the CHD saves less than the minimum.
pub open spec fn keeps_source_spec(settings: Ps2Settings, source_size: u64, chd_size: u64) -> bool {
    settings.preserve_when_compression_is_not_worthwhile && spec_savings_percent(source_size, chd_size)
        < settings.minimum_savings_percent as u64
}

/// One step of making the output of a source of `source_size` bytes.
pub open spec fn spec_chd_step(settings: Ps2Settings, source_size: u64, step: ChdStep, seen: ChdObservation) -> (
    ChdStep,
    ChdAction,
) {
    let nothing = ChdLeftover::Nothing;
    match (step, seen) {
        (ChdStep::Creating, ChdObservation::Created(r)) => match r {
            Ok(_) => (ChdStep::CheckingStop { verified: false }, ChdAction::CheckStop),
            Err(e) => chd_failed(e, nothing),
        },
        (ChdStep::CheckingStop { verified }, ChdObservation::StopRequested(stop)) => if stop {
            chd_failed(PipelineError::Interrupted, ChdLeftover::PartialChd)
        } else if verified {
            (ChdStep::Measuring, ChdAction::Measure)
        } else {
            (ChdStep::Verifying, ChdAction::Verify)
        },
        (ChdStep::Verifying, ChdObservation::Verified(r)) => match r {
            Ok(_) => if settings.verify_round_trip {
                (ChdStep::RoundTrip, ChdAction::RoundTrip)
            } else {
                (ChdStep::CheckingStop { verified: true }, ChdAction::CheckStop)
            },
            Err(e) => chd_failed(e, nothing),
        },
        (ChdStep::RoundTrip, ChdObservation::RoundTripped(r)) => match r {
            Ok(_) => (ChdStep::CheckingStop { verified: true }, ChdAction::CheckStop),
            Err(e) => chd_failed(e, nothing),
        },
        (ChdStep::Measuring, ChdObservation::Measured(r)) => match r {
            Ok(c) => if keeps_source_spec(settings, source_size, c) {
                (ChdStep::DiscardingChd { chd_size: c }, ChdAction::DiscardChd)
            } else {
                (ChdStep::PublishingChd { chd_size: c }, ChdAction::PublishChd)
            },
            Err(e) => chd_failed(e, nothing),
        },
        (ChdStep::DiscardingChd { chd_size }, ChdObservation::ChdDiscarded(r)) => match r {
            Ok(_) => (ChdStep::Copying { chd_size }, ChdAction::CopySource),
            Err(e) => chd_failed(e, nothing),
        },
        (ChdStep::Copying { chd_size }, ChdObservation::Copied(r)) => match r {
            Ok(_) => (ChdStep::ComparingCopy { chd_size }, ChdAction::HashCopy),
            Err(e) => chd_failed(e, nothing),
        },
        (ChdStep::ComparingCopy { chd_size }, ChdObservation::CopyDigests(r)) => match r {
            Ok((a, b)) => if a@ == b@ {
                (ChdStep::PublishingCopy { chd_size }, ChdAction::PublishCopy)
            } else {
                (ChdStep::Done, ChdAction::Finish(ChdEnd::CopyMismatch))
            },
            Err(e) => chd_failed(e, nothing),
        },
        (ChdStep::PublishingCopy { chd_size }, ChdObservation::CopyPublished(r)) => match r {
            Ok(_) => (ChdStep::Done, ChdAction::Finish(ChdEnd::Preserved { chd_size })),
            Err(e) => chd_failed(e, nothing),
        },
        (ChdStep::PublishingChd { chd_size }, ChdObservation::ChdPublished(r)) => match r {
            Ok(_) => (ChdStep::Done, ChdAction::Finish(ChdEnd::Compressed { chd_size })),
            Err(e) => chd_failed(e, nothing),
        },
        _ => (ChdStep::Done, ChdAction::Finish(ChdEnd::OutOfOrder)),
    }
}

/// A failure ending.
fn fail(e: PipelineError, remove: ChdLeftover) -> (r: (ChdStep, ChdAction))
    ensures
        r == chd_failed(e, remove),
{
    (ChdStep::Done, ChdAction::Finish(ChdEnd::Failed { error: e, remove }))
}

/// One step of making the output of a source of `source_size` bytes.
pub fn chd_step(settings: &Ps2Settings, source_size: u64, step: ChdStep, seen: ChdObservation) -> (r: (
    ChdStep,
    ChdAction,
))
    ensures
        r == spec_chd_step(*settings, source_size, step, seen),
{
    let nothing = ChdLeftover::Nothing;
    match (step, seen) {
        (ChdStep::Creating, ChdObservation::Created(r)) => match r {
            Ok(_) => (ChdStep::CheckingStop { verified: false }, ChdAction::CheckStop),
            Err(e) => fail(e, nothing),
        },
        (ChdStep::CheckingStop { verified }, ChdObservation::StopRequested(stop)) => if stop {
            fail(PipelineError::Interrupted, ChdLeftover::PartialChd)
        } else if verified {
            (ChdStep::Measuring, ChdAction::Measure)
        } else {
            (ChdStep::Verifying, ChdAction::Verify)
        },
        (ChdStep::Verifying, ChdObservation::Verified(r)) => match r {
            Ok(_) => if settings.verify_round_trip {
                (ChdStep::RoundTrip, ChdAction::RoundTrip)
            } else {
                (ChdStep::CheckingStop { verified: true }, ChdAction::CheckStop)
            },
            Err(e) => fail(e, nothing),
        },
        (ChdStep::RoundTrip, ChdObservation::RoundTripped(r)) => match r {
            Ok(_) => (ChdStep::CheckingStop { verified: true }, ChdAction::CheckStop),
            Err(e) => fail(e, nothing),
        },
        (ChdStep::Measuring, ChdObservation::Measured(r)) => match r {
            Ok(c) => if keeps_source(settings, source_size, c) {
                (ChdStep::DiscardingChd { chd_size: c }, ChdAction::DiscardChd)
            } else {
                (ChdStep::PublishingChd { chd_size: c }, ChdAction::PublishChd)
            },
            Err(e) => fail(e, nothing),
        },
        (ChdStep::DiscardingChd { chd_size }, ChdObservation::ChdDiscarded(r)) => match r {
            Ok(_) => (ChdStep::Copying { chd_size }, ChdAction::CopySource),
            Err(e) => fail(e, nothing),
        },
        (ChdStep::Copying { chd_size }, ChdObservation::Copied(r)) => match r {
            Ok(_) => (ChdStep::ComparingCopy { chd_size }, ChdAction::HashCopy),
            Err(e) => fail(e, nothing),
        },
        (ChdStep::ComparingCopy { chd_size }, ChdObservation::CopyDigests(r)) => match r {
            Ok((a, b)) => if chars_eq(&chars_of(a.as_str()), &chars_of(b.as_str())) {
                (ChdStep::PublishingCopy { chd_size }, ChdAction::PublishCopy)
            } else {
                (ChdStep::Done, ChdAction::Finish(ChdEnd::CopyMismatch))
            },
            Err(e) => fail(e, nothing),
        },
        (ChdStep::PublishingCopy { chd_size }, ChdObservation::CopyPublished(r)) => match r {
            Ok(_) => (ChdStep::Done, ChdAction::Finish(ChdEnd::Preserved { chd_size })),
            Err(e) => fail(e, nothing),
        },
        (ChdStep::PublishingChd { chd_size }, ChdObservation::ChdPublished(r)) => match r {
            Ok(_) => (ChdStep::Done, ChdAction::Finish(ChdEnd::Compressed { chd_size })),
            Err(e) => fail(e, nothing),
        },
        _ => (ChdStep::Done, ChdAction::Finish(ChdEnd::OutOfOrder)),
    }
}

/// Where making the output stands after a sequence of observations, from the start.
pub open spec fn chd_walk(settings: Ps2Settings, source_size: u64, obs: Seq<ChdObservation>) -> ChdStep
    decreases obs.len(),
{
    if obs.len() == 0 {
        ChdStep::Creating
    } else {
        spec_chd_step(settings, source_size, chd_walk(settings, source_size, obs.drop_last()), obs.last()).0
    }
}

/// The outside work asked for after the observation at `k`.
pub open spec fn chd_action_at(settings: Ps2Settings, source_size: u64, obs: Seq<ChdObservation>, k: int) -> ChdAction {
    spec_chd_step(settings, source_size, chd_walk(settings, source_size, obs.take(k)), obs[k]).1
}

/// Some observation among the first `n` is `o`.
pub open spec fn chd_seen(obs: Seq<ChdObservation>, n: int, o: ChdObservation) -> bool {
    exists|j: int| 0 <= j < n && #[trigger] obs[j] == o
}

/// Among the first `n` observations, the digests of the source and of its copy agreed.
pub open spec fn copy_matched(obs: Seq<ChdObservation>, n: int) -> bool {
    exists|j: int|
        0 <= j < n && (#[trigger] obs[j] matches ChdObservation::CopyDigests(Ok((a, b))) && a@ == b@)
}

/// Whether a step lies after the CHD's verification.
pub open spec fn past_verification(s: ChdStep) -> bool {
    ||| s == (ChdStep::CheckingStop { verified: true })
    ||| s is Measuring
    ||| s is DiscardingChd
    ||| s is Copying
    ||| s is ComparingCopy
    ||| s is PublishingCopy
    ||| s is PublishingChd
}

/// The checks a step can only be reached through, as facts about the observations.
pub open spec fn chd_history(settings: Ps2Settings, source_size: u64, obs: Seq<ChdObservation>, n: int, s: ChdStep) -> bool {
    &&& (past_verification(s) || s is RoundTrip) ==> chd_seen(obs, n, ChdObservation::Verified(Ok(())))
    &&& past_verification(s) && settings.verify_round_trip ==> chd_seen(
        obs,
        n,
        ChdObservation::RoundTripped(Ok(())),
    )
    &&& s is PublishingCopy ==> copy_matched(obs, n)
    &&& match kept_chd_size(s) {
        Some(c) => chd_seen(obs, n, ChdObservation::Measured(Ok(c))) && keeps_source_spec(
            settings,
            source_size,
            c,
        ),
        None => true,
    }
    &&& s matches ChdStep::PublishingChd { chd_size } ==> chd_seen(
        obs,
        n,
        ChdObservation::Measured(Ok(chd_size)),
    ) && !keeps_source_spec(settings, source_size, chd_size)
}

/// The CHD's size, in the steps that keep the source in its place.
pub open spec fn kept_chd_size(s: ChdStep) -> Option<u64> {
    match s {
        ChdStep::DiscardingChd { chd_size } => Some(chd_size),
        ChdStep::Copying { chd_size } => Some(chd_size),
        ChdStep::ComparingCopy { chd_size } => Some(chd_size),
        ChdStep::PublishingCopy { chd_size } => Some(chd_size),
        _ => None,
    }
}

/// Every step carries its history.
proof fn lemma_chd_history(settings: Ps2Settings, source_size: u64, obs: Seq<ChdObservation>)
    ensures
        chd_history(settings, source_size, obs, obs.len() as int, chd_walk(settings, source_size, obs)),
    decreases obs.len(),
{
    if obs.len() > 0 {
        let p = obs.drop_last();
        let n = obs.len() as int;
        lemma_chd_history(settings, source_size, p);
        let s = chd_walk(settings, source_size, p);
        let last = obs.last();
        assert(obs[n - 1] == last);
        assert forall|o: ChdObservation| #[trigger] chd_seen(p, n - 1, o) implies chd_seen(obs, n, o) by {
            let j = choose|j: int| 0 <= j < n - 1 && #[trigger] p[j] == o;
            assert(obs[j] == o);
        }
        if copy_matched(p, n - 1) {
            let j = choose|j: int|
                0 <= j < n - 1 && (#[trigger] p[j] matches ChdObservation::CopyDigests(Ok((a, b)))
                    && a@ == b@);
            assert(obs[j] == p[j]);
        }
        match last {
            ChdObservation::Verified(Ok(u)) => {
                assert(u == ());
                assert(chd_seen(obs, n, ChdObservation::Verified(Ok(()))));
            },
            ChdObservation::RoundTripped(Ok(u)) => {
                assert(u == ());
                assert(chd_seen(obs, n, ChdObservation::RoundTripped(Ok(()))));
            },
            ChdObservation::Measured(Ok(c)) => {
                assert(chd_seen(obs, n, ChdObservation::Measured(Ok(c))));
            },
            ChdObservation::CopyDigests(Ok((a, b))) => {
                if a@ == b@ {
                    assert(copy_matched(obs, n));
                }
            },
            _ => {},
        }
    }
}

/// The history of the first `k + 1` observations, as facts about all of them.
proof fn lemma_chd_prefix(settings: Ps2Settings, source_size: u64, obs: Seq<ChdObservation>, k: int)
    requires
        0 <= k < obs.len(),
    ensures
        chd_history(
            settings,
            source_size,
            obs,
            k + 1,
            spec_chd_step(settings, source_size, chd_walk(settings, source_size, obs.take(k)), obs[k]).0,
        ),
{
    let q = obs.take(k + 1);
    assert(q.drop_last() =~= obs.take(k));
    assert(q.last() == obs[k]);
    lemma_chd_history(settings, source_size, q);
    assert forall|o: ChdObservation| #[trigger] chd_seen(q, k + 1, o) implies chd_seen(obs, k + 1, o) by {
        let j = choose|j: int| 0 <= j < k + 1 && #[trigger] q[j] == o;
        assert(obs[j] == q[j]);
    }
    if copy_matched(q, k + 1) {
        let j = choose|j: int|
            0 <= j < k + 1 && (#[trigger] q[j] matches ChdObservation::CopyDigests(Ok((a, b))) && a@
                == b@);
        assert(obs[j] == q[j]);
    }
}

/// A PS2 output is published, as a CHD or as the kept source, only after the CHD was
/// verified and, when the profile asks for round trips, rebuilt and compared with the
/// source.
pub proof fn lemma_output_published_after_verification(
    settings: Ps2Settings,
    source_size: u64,
    obs: Seq<ChdObservation>,
    k: int,
)
    requires
        0 <= k < obs.len(),
        chd_action_at(settings, source_size, obs, k) == ChdAction::PublishChd
            || chd_action_at(settings, source_size, obs, k) == ChdAction::PublishCopy,
    ensures
        chd_seen(obs, k + 1, ChdObservation::Verified(Ok(()))),
        settings.verify_round_trip ==> chd_seen(obs, k + 1, ChdObservation::RoundTripped(Ok(()))),
{
    lemma_chd_prefix(settings, source_size, obs, k);
}

/// The source is kept in place of the CHD only when the CHD saves less than the profile's
/// minimum and the profile keeps such sources, and its copy is published only after its
/// digest matched the source's; otherwise the CHD is published.
pub proof fn lemma_output_choice(settings: Ps2Settings, source_size: u64, obs: Seq<ChdObservation>, k: int)
    requires
        0 <= k < obs.len(),
    ensures
        chd_action_at(settings, source_size, obs, k) == ChdAction::PublishCopy ==> copy_matched(obs, k + 1)
            && exists|c: u64|
            chd_seen(obs, k + 1, ChdObservation::Measured(Ok(c))) && keeps_source_spec(
                settings,
                source_size,
                c,
            ),
        chd_action_at(settings, source_size, obs, k) == ChdAction::PublishChd ==> exists|c: u64|
            chd_seen(obs, k + 1, ChdObservation::Measured(Ok(c))) && !keeps_source_spec(
                settings,
                source_size,
                c,
            ),
{
    lemma_chd_prefix(settings, source_size, obs, k);
    let t = spec_chd_step(settings, source_size, chd_walk(settings, source_size, obs.take(k)), obs[k]).0;
    if chd_action_at(settings, source_size, obs, k) == ChdAction::PublishCopy {
        let c = t->PublishingCopy_chd_size;
        assert(chd_seen(obs, k + 1, ChdObservation::Measured(Ok(c))));
    }
    if chd_action_at(settings, source_size, obs, k) == ChdAction::PublishChd {
        let c = t->PublishingChd_chd_size;
        assert(chd_seen(obs, k + 1, ChdObservation::Measured(Ok(c))));
    }
}

} // verus!
