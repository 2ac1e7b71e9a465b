//! The lifecycle of converting one 3DS ZIP to a CIA: the archive is tested, its cartridge
//! extracted and its crypto flags normalized, the CIA made and checked against the
//! cartridge's title, copied to a `.partial` file and checked again, and only then renamed
//! into place, recorded, and the source moved to `done`.
use vstd::prelude::*;

use crate::error::{PipelineError, Result};

verus! {

/// Where converting a 3DS ZIP stands.
#[derive(Clone, Copy, Debug, PartialEq, Eq)]
pub enum CiaStep {
    /// The ZIP is being tested.
    Testing,
    /// A stop request is being checked before the step `next`.
    CheckingStop { next: CiaStopNext },
    /// The cartridge is being extracted from the ZIP.
    Extracting,
    /// The cartridge's crypto flags are being normalized and checked.
    Normalizing,
    /// The CIA is being made from the cartridge.
    Converting,
    /// The CIA's title is being checked against the cartridge's.
    ValidatingCia,
    /// The output folder is being made and a stale `.partial` file removed.
    PreparingPartial,
    /// The CIA is being copied to the `.partial` file.
    Staging,
    /// The `.partial` CIA's title is being checked against the cartridge's.
    ValidatingStaged,
    /// The `.partial` CIA is being renamed into place.
    Publishing,
    /// The output is being recorded and the source moved to `done`.
    Completing,
    /// Conversion ended.
    Done,
}

/// The step that follows a stop check when no stop was requested.
#[derive(Clone, Copy, Debug, PartialEq, Eq)]
pub enum CiaStopNext {
    Extract,
    Convert,
    PreparePartial,
    Publish,
}

/// What the outside work of one step found.
#[derive(Debug, PartialEq, Eq)]
pub enum CiaObservation {
    Tested(Result<()>),
    StopRequested(bool),
    Extracted(Result<()>),
    Normalized(Result<()>),
    Converted(Result<()>),
    CiaValidated(Result<()>),
    PartialPrepared(Result<()>),
    Staged(Result<()>),
    StagedValidated(Result<()>),
    Published(Result<()>),
    Completed(Result<()>),
}

/// How a conversion ended.
#[derive(Clone, Debug, PartialEq, Eq)]
pub enum CiaEnd {
    Completed,
    /// A step failed (a stop request fails with `Interrupted`); `remove_partial` asks to
    /// delete the `.partial` CIA.
    Failed { error: PipelineError, remove_partial: bool },
    /// An observation arrived that the step does not wait for.
    OutOfOrder,
}

/// The outside work that a step asks for next.
#[derive(Clone, Debug, PartialEq, Eq)]
pub enum CiaAction {
    CheckStop,
    /// Extract the one `.3ds` or `.cci` cartridge.
    Extract,
    /// Inspect the cartridge, normalize its flags, and check it again.
    Normalize,
    /// Make the one CIA.
    Convert,
    /// Check the CIA's title.
    ValidateCia,
    /// Make the output folder and remove a stale `.partial` file.
    PreparePartial,
    /// Copy the CIA to the `.partial` file.
    Stage,
    /// Check the `.partial` CIA's title.
    ValidateStaged,
    /// Rename the `.partial` CIA into place.
    Publish,
    /// Hash the output, move the source to `done`, and write the completion marker.
    Complete,
    Finish(CiaEnd),
}

/// A failure ending.
pub open spec fn cia_failed(e: PipelineError, remove_partial: bool) -> (CiaStep, CiaAction) {
    (CiaStep::Done, CiaAction::Finish(CiaEnd::Failed { error: e, remove_partial }))
}

/// The step after outside work that ended in `r`: `next` when it succeeded, else failure.
pub open spec fn cia_advance(r: Result<()>, next: (CiaStep, CiaAction)) -> (CiaStep, CiaAction) {
    match r {
        Ok(_) => next,
        Err(e) => cia_failed(e, false),
    }
}

/// A stop check before the step `next`.
pub open spec fn cia_stop_check(next: CiaStopNext) -> (CiaStep, CiaAction) {
    (CiaStep::CheckingStop { next }, CiaAction::CheckStop)
}

/// One step of converting a 3DS ZIP.
pub open spec fn spec_cia_step(step: CiaStep, seen: CiaObservation) -> (CiaStep, CiaAction) {
    match (step, seen) {
        (CiaStep::Testing, CiaObservation::Tested(r)) => cia_advance(r, cia_stop_check(CiaStopNext::Extract)),
        (CiaStep::CheckingStop { next }, CiaObservation::StopRequested(stop)) => if stop {
            cia_failed(PipelineError::Interrupted, next == CiaStopNext::Publish)
        } else {
            match next {
                CiaStopNext::Extract => (CiaStep::Extracting, CiaAction::Extract),
                CiaStopNext::Convert => (CiaStep::Converting, CiaAction::Convert),
                CiaStopNext::PreparePartial => (CiaStep::PreparingPartial, CiaAction::PreparePartial),
                CiaStopNext::Publish => (CiaStep::Publishing, CiaAction::Publish),
            }
        },
        (CiaStep::Extracting, CiaObservation::Extracted(r)) => cia_advance(r, (CiaStep::Normalizing, CiaAction::Normalize)),
        (CiaStep::Normalizing, CiaObservation::Normalized(r)) => cia_advance(r, cia_stop_check(CiaStopNext::Convert)),
        (CiaStep::Converting, CiaObservation::Converted(r)) => cia_advance(r, (CiaStep::ValidatingCia, CiaAction::ValidateCia)),
        (CiaStep::ValidatingCia, CiaObservation::CiaValidated(r)) => cia_advance(
            r,
            cia_stop_check(CiaStopNext::PreparePartial),
        ),
        (CiaStep::PreparingPartial, CiaObservation::PartialPrepared(r)) => cia_advance(r, (CiaStep::Staging, CiaAction::Stage)),
        (CiaStep::Staging, CiaObservation::Staged(r)) => cia_advance(r, (CiaStep::ValidatingStaged, CiaAction::ValidateStaged)),
        (CiaStep::ValidatingStaged, CiaObservation::StagedValidated(r)) => cia_advance(
            r,
            cia_stop_check(CiaStopNext::Publish),
        ),
        (CiaStep::Publishing, CiaObservation::Published(r)) => cia_advance(r, (CiaStep::Completing, CiaAction::Complete)),
        (CiaStep::Completing, CiaObservation::Completed(r)) => cia_advance(
            r,
            (CiaStep::Done, CiaAction::Finish(CiaEnd::Completed)),
        ),
        _ => (CiaStep::Done, CiaAction::Finish(CiaEnd::OutOfOrder)),
    }
}

/// The step after outside work that ended in `r`.
fn advance(r: Result<()>, next: (CiaStep, CiaAction)) -> (out: (CiaStep, CiaAction))
    ensures
        out == cia_advance(r, next),
{
    match r {
        Ok(_) => next,
        Err(e) => (CiaStep::Done, CiaAction::Finish(CiaEnd::Failed { error: e, remove_partial: false })),
    }
}

/// A stop check before the step `next`.
fn stop_check(next: CiaStopNext) -> (o: (CiaStep, CiaAction))
    ensures
        o == cia_stop_check(next),
{
    (CiaStep::CheckingStop { next }, CiaAction::CheckStop)
}

/// One step of converting a 3DS ZIP.
pub fn cia_step(step: CiaStep, seen: CiaObservation) -> (r: (CiaStep, CiaAction))
    ensures
        r == spec_cia_step(step, seen),
{
    match (step, seen) {
        (CiaStep::Testing, CiaObservation::Tested(r)) => advance(r, stop_check(CiaStopNext::Extract)),
        (CiaStep::CheckingStop { next }, CiaObservation::StopRequested(stop)) => if stop {
            let remove_partial = match next {
                CiaStopNext::Publish => true,
                _ => false,
            };
            (CiaStep::Done, CiaAction::Finish(CiaEnd::Failed { error: PipelineError::Interrupted, remove_partial }))
        } else {
            match next {
                CiaStopNext::Extract => (CiaStep::Extracting, CiaAction::Extract),
                CiaStopNext::Convert => (CiaStep::Converting, CiaAction::Convert),
                CiaStopNext::PreparePartial => (CiaStep::PreparingPartial, CiaAction::PreparePartial),
                CiaStopNext::Publish => (CiaStep::Publishing, CiaAction::Publish),
            }
        },
        (CiaStep::Extracting, CiaObservation::Extracted(r)) => advance(r, (CiaStep::Normalizing, CiaAction::Normalize)),
        (CiaStep::Normalizing, CiaObservation::Normalized(r)) => advance(r, stop_check(CiaStopNext::Convert)),
        (CiaStep::Converting, CiaObservation::Converted(r)) => advance(r, (CiaStep::ValidatingCia, CiaAction::ValidateCia)),
        (CiaStep::ValidatingCia, CiaObservation::CiaValidated(r)) => advance(r, stop_check(CiaStopNext::PreparePartial)),
        (CiaStep::PreparingPartial, CiaObservation::PartialPrepared(r)) => advance(r, (CiaStep::Staging, CiaAction::Stage)),
        (CiaStep::Staging, CiaObservation::Staged(r)) => advance(r, (CiaStep::ValidatingStaged, CiaAction::ValidateStaged)),
        (CiaStep::ValidatingStaged, CiaObservation::StagedValidated(r)) => advance(r, stop_check(CiaStopNext::Publish)),
        (CiaStep::Publishing, CiaObservation::Published(r)) => advance(r, (CiaStep::Completing, CiaAction::Complete)),
        (CiaStep::Completing, CiaObservation::Completed(r)) => advance(
            r,
            (CiaStep::Done, CiaAction::Finish(CiaEnd::Completed)),
        ),
        _ => (CiaStep::Done, CiaAction::Finish(CiaEnd::OutOfOrder)),
    }
}

/// Where a conversion stands after a sequence of observations, from the start.
pub open spec fn cia_walk(obs: Seq<CiaObservation>) -> CiaStep
    decreases obs.len(),
{
    if obs.len() == 0 {
        CiaStep::Testing
    } else {
        spec_cia_step(cia_walk(obs.drop_last()), obs.last()).0
    }
}

/// The outside work asked for after the observation at `k`.
pub open spec fn cia_action_at(obs: Seq<CiaObservation>, k: int) -> CiaAction {
    spec_cia_step(cia_walk(obs.take(k)), obs[k]).1
}

/// Some observation among the first `n` is `o`.
pub open spec fn cia_seen(obs: Seq<CiaObservation>, n: int, o: CiaObservation) -> bool {
    exists|j: int| 0 <= j < n && #[trigger] obs[j] == o
}

/// How far along a conversion a step lies; a conversion only ever moves one place on, or
/// ends.
pub open spec fn cia_rank(s: CiaStep) -> int {
    match s {
        CiaStep::Testing => 0,
        CiaStep::CheckingStop { next: CiaStopNext::Extract } => 1,
        CiaStep::Extracting => 2,
        CiaStep::Normalizing => 3,
        CiaStep::CheckingStop { next: CiaStopNext::Convert } => 4,
        CiaStep::Converting => 5,
        CiaStep::ValidatingCia => 6,
        CiaStep::CheckingStop { next: CiaStopNext::PreparePartial } => 7,
        CiaStep::PreparingPartial => 8,
        CiaStep::Staging => 9,
        CiaStep::ValidatingStaged => 10,
        CiaStep::CheckingStop { next: CiaStopNext::Publish } => 11,
        CiaStep::Publishing => 12,
        CiaStep::Completing => 13,
        CiaStep::Done => 14,
    }
}

/// The checks a step can only be reached through, as facts about the observations.
pub open spec fn cia_history(obs: Seq<CiaObservation>, n: int, s: CiaStep) -> bool {
    let r = cia_rank(s);
    &&& 4 <= r <= 13 ==> cia_seen(obs, n, CiaObservation::Normalized(Ok(())))
    &&& 7 <= r <= 13 ==> cia_seen(obs, n, CiaObservation::CiaValidated(Ok(())))
    &&& 11 <= r <= 13 ==> cia_seen(obs, n, CiaObservation::StagedValidated(Ok(())))
    &&& r == 13 ==> cia_seen(obs, n, CiaObservation::Published(Ok(())))
}

/// One step moves one place on, or ends; which observation moved it into a checked place.
proof fn lemma_cia_step_rank(s: CiaStep, o: CiaObservation)
    ensures
        ({
            let t = spec_cia_step(s, o).0;
            &&& t == CiaStep::Done || cia_rank(t) == cia_rank(s) + 1
            &&& cia_rank(t) == 4 ==> o == CiaObservation::Normalized(Ok(()))
            &&& cia_rank(t) == 7 ==> o == CiaObservation::CiaValidated(Ok(()))
            &&& cia_rank(t) == 11 ==> o == CiaObservation::StagedValidated(Ok(()))
            &&& cia_rank(t) == 13 ==> o == CiaObservation::Published(Ok(()))
        }),
{
    match o {
        CiaObservation::Normalized(Ok(u)) => assert(u == ()),
        CiaObservation::CiaValidated(Ok(u)) => assert(u == ()),
        CiaObservation::StagedValidated(Ok(u)) => assert(u == ()),
        CiaObservation::Published(Ok(u)) => assert(u == ()),
        _ => {},
    }
}

/// Every step a conversion reaches carries its history.
proof fn lemma_cia_history(obs: Seq<CiaObservation>)
    ensures
        cia_history(obs, obs.len() as int, cia_walk(obs)),
    decreases obs.len(),
{
    if obs.len() > 0 {
        let p = obs.drop_last();
        let n = obs.len() as int;
        lemma_cia_history(p);
        lemma_cia_step_rank(cia_walk(p), obs.last());
        assert(obs[n - 1] == obs.last());
        let os = seq![
            CiaObservation::Normalized(Ok(())),
            CiaObservation::CiaValidated(Ok(())),
            CiaObservation::StagedValidated(Ok(())),
            CiaObservation::Published(Ok(())),
        ];
        assert forall|i: int| 0 <= i < 4 && #[trigger] cia_seen(p, n - 1, os[i]) implies cia_seen(
            obs,
            n,
            os[i],
        ) by {
            let j = choose|j: int| 0 <= j < n - 1 && #[trigger] p[j] == os[i];
            assert(obs[j] == os[i]);
        }
        assert(cia_seen(p, n - 1, os[0]) ==> cia_seen(obs, n, os[0]));
        assert(cia_seen(p, n - 1, os[1]) ==> cia_seen(obs, n, os[1]));
        assert(cia_seen(p, n - 1, os[2]) ==> cia_seen(obs, n, os[2]));
        assert(cia_seen(p, n - 1, os[3]) ==> cia_seen(obs, n, os[3]));
    }
}

/// The history of the first `k + 1` observations, as facts about all of them.
proof fn lemma_cia_prefix(obs: Seq<CiaObservation>, k: int, o: CiaObservation)
    requires
        0 <= k < obs.len(),
        cia_seen(obs.take(k + 1), k + 1, o),
    ensures
        cia_seen(obs, k + 1, o),
{
    let q = obs.take(k + 1);
    let j = choose|j: int| 0 <= j < k + 1 && #[trigger] q[j] == o;
    assert(obs[j] == q[j]);
}

/// A conversion renames the `.partial` CIA into place only after the CIA it made, and the
/// `.partial` copy of it, were both checked against the cartridge's title; the cartridge's
/// flags were normalized and checked before that.
pub proof fn lemma_cia_published_after_checks(obs: Seq<CiaObservation>, k: int)
    requires
        0 <= k < obs.len(),
        cia_action_at(obs, k) == CiaAction::Publish,
    ensures
        cia_seen(obs, k + 1, CiaObservation::Normalized(Ok(()))),
        cia_seen(obs, k + 1, CiaObservation::CiaValidated(Ok(()))),
        cia_seen(obs, k + 1, CiaObservation::StagedValidated(Ok(()))),
{
    let q = obs.take(k + 1);
    assert(q.drop_last() =~= obs.take(k));
    lemma_cia_history(q);
    assert(cia_walk(q) == spec_cia_step(cia_walk(obs.take(k)), obs[k]).0);
    lemma_cia_prefix(obs, k, CiaObservation::Normalized(Ok(())));
    lemma_cia_prefix(obs, k, CiaObservation::CiaValidated(Ok(())));
    lemma_cia_prefix(obs, k, CiaObservation::StagedValidated(Ok(())));
}

/// A conversion moves the source to `done` and records the output only after the CIA was
/// checked twice (as made, and as copied) and renamed into place.
pub proof fn lemma_cia_completed_after_publish(obs: Seq<CiaObservation>, k: int)
    requires
        0 <= k < obs.len(),
        cia_action_at(obs, k) == CiaAction::Complete,
    ensures
        cia_seen(obs, k + 1, CiaObservation::Normalized(Ok(()))),
        cia_seen(obs, k + 1, CiaObservation::CiaValidated(Ok(()))),
        cia_seen(obs, k + 1, CiaObservation::StagedValidated(Ok(()))),
        cia_seen(obs, k + 1, CiaObservation::Published(Ok(()))),
{
    let q = obs.take(k + 1);
    assert(q.drop_last() =~= obs.take(k));
    lemma_cia_history(q);
    assert(cia_walk(q) == spec_cia_step(cia_walk(obs.take(k)), obs[k]).0);
    lemma_cia_prefix(obs, k, CiaObservation::Normalized(Ok(())));
    lemma_cia_prefix(obs, k, CiaObservation::CiaValidated(Ok(())));
    lemma_cia_prefix(obs, k, CiaObservation::StagedValidated(Ok(())));
    lemma_cia_prefix(obs, k, CiaObservation::Published(Ok(())));
}

} // verus!
