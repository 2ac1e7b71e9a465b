//! The lifecycle of converting one GameCube image to RVZ: the source is verified, an RVZ
//! left by an earlier attempt is verified and adopted, or a new one is made through a
//! `.partial` file, verified, rebuilt to an ISO whose digest must equal the source's, and
//! only then published and the source moved to `done`.
use vstd::prelude::*;

use crate::error::{PipelineError, Result};
use crate::text::{append_chars, chars_eq, chars_of, lit, string_of};

verus! {

/// Where converting a GameCube image stands.
#[derive(Clone, Copy, Debug, PartialEq, Eq)]
pub enum ConversionStep {
    /// The source image is being verified.
    VerifyingSource,
    /// A stop request is being checked; `partial` tells whether a `.partial` RVZ exists.
    CheckingStop { partial: bool, next: StopNext },
    /// Whether an RVZ from an earlier attempt exists is being checked.
    CheckingOutput,
    /// The existing RVZ is being verified.
    VerifyingOutput,
    /// The existing RVZ is being rebuilt to an ISO and compared with the source.
    RoundTripOutput,
    /// A stale `.partial` file is being removed.
    Preparing,
    /// The RVZ is being made into `.partial`.
    Creating,
    /// The `.partial` RVZ is being verified.
    VerifyingPartial,
    /// The `.partial` RVZ is being rebuilt to an ISO and compared with the source.
    RoundTripPartial,
    /// The verified `.partial` RVZ is being renamed into place.
    Publishing,
    /// The output's completion is being recorded and the source moved to `done`.
    Completing,
    /// Conversion ended.
    Done,
}

/// Where a conversion goes once no stop was requested.
#[derive(Clone, Copy, Debug, PartialEq, Eq)]
pub enum StopNext {
    CheckOutput,
    VerifyPartial,
    Publish,
}

/// What the outside work of one conversion step found.
#[derive(Debug, PartialEq, Eq)]
pub enum ConversionObservation {
    SourceVerified(Result<()>),
    StopRequested(bool),
    OutputExists(bool),
    OutputVerified(Result<()>),
    RoundTrip(Result<()>),
    Prepared(Result<()>),
    Created(Result<()>),
    PartialVerified(Result<()>),
    /// The `.partial` RVZ was renamed into place; its size.
    Published(Result<u64>),
    Completed(Result<()>),
}

/// How a conversion ended.
#[derive(Clone, Debug, PartialEq, Eq)]
pub enum ConversionEnd {
    Completed,
    /// A step failed (a stop request fails with `Interrupted`); `remove_partial` asks to
    /// delete the `.partial` RVZ.
    Failed { error: PipelineError, remove_partial: bool },
    /// An observation arrived that the step does not wait for.
    OutOfOrder,
}

/// The outside work that a conversion step asks for next.
#[derive(Clone, Debug, PartialEq, Eq)]
pub enum ConversionAction {
    /// Check for a stop request.
    CheckStop,
    /// Check whether an RVZ from an earlier attempt exists.
    CheckOutput,
    /// Verify the existing RVZ (after writing the `resume-verify-rvz` activity).
    VerifyOutput,
    /// Rebuild an ISO from the RVZ (the existing one when `resume`, else `.partial`) and
    /// compare its digest with the source's.
    RoundTrip { resume: bool },
    /// Remove a stale `.partial` file.
    PreparePartial,
    /// Make the RVZ into `.partial` (after writing the `create-rvz` activity).
    CreateRvz,
    /// Verify the `.partial` RVZ (after writing the `verify-rvz` activity).
    VerifyPartial,
    /// Read the `.partial` RVZ's size and rename it into place.
    Publish,
    /// Record the completion and move the source to `done`; `resumed` tells whether the
    /// RVZ is one an earlier attempt made, and otherwise the new RVZ's size is `output_size`.
    Complete { resumed: bool, output_size: u64 },
    /// Conversion ended.
    Finish(ConversionEnd),
}

/// A failure ending.
pub open spec fn conversion_failed(e: PipelineError, remove_partial: bool) -> (ConversionStep, ConversionAction) {
    (ConversionStep::Done, ConversionAction::Finish(ConversionEnd::Failed { error: e, remove_partial }))
}

/// One step of converting a GameCube image; `round_trip` is the profile's setting.
pub open spec fn spec_conversion_step(
    round_trip: bool,
    step: ConversionStep,
    seen: ConversionObservation,
) -> (ConversionStep, ConversionAction) {
    let out_of_order = (ConversionStep::Done, ConversionAction::Finish(ConversionEnd::OutOfOrder));
    match step {
        ConversionStep::VerifyingSource => match seen {
            ConversionObservation::SourceVerified(Ok(())) => (
                ConversionStep::CheckingStop { partial: false, next: StopNext::CheckOutput },
                ConversionAction::CheckStop,
            ),
            ConversionObservation::SourceVerified(Err(e)) => conversion_failed(e, false),
            _ => out_of_order,
        },
        ConversionStep::CheckingStop { partial, next } => match seen {
            ConversionObservation::StopRequested(stop) => if stop {
                conversion_failed(PipelineError::Interrupted, partial)
            } else {
                match next {
                    StopNext::CheckOutput => (ConversionStep::CheckingOutput, ConversionAction::CheckOutput),
                    StopNext::VerifyPartial => (ConversionStep::VerifyingPartial, ConversionAction::VerifyPartial),
                    StopNext::Publish => (ConversionStep::Publishing, ConversionAction::Publish),
                }
            },
            _ => out_of_order,
        },
        ConversionStep::CheckingOutput => match seen {
            ConversionObservation::OutputExists(e) => if e {
                (ConversionStep::VerifyingOutput, ConversionAction::VerifyOutput)
            } else {
                (ConversionStep::Preparing, ConversionAction::PreparePartial)
            },
            _ => out_of_order,
        },
        ConversionStep::VerifyingOutput => match seen {
            ConversionObservation::OutputVerified(Ok(())) => if round_trip {
                (ConversionStep::RoundTripOutput, ConversionAction::RoundTrip { resume: true })
            } else {
                (ConversionStep::Completing, ConversionAction::Complete { resumed: true, output_size: 0 })
            },
            ConversionObservation::OutputVerified(Err(e)) => conversion_failed(e, false),
            _ => out_of_order,
        },
        ConversionStep::RoundTripOutput => match seen {
            ConversionObservation::RoundTrip(Ok(())) => (
                ConversionStep::Completing,
                ConversionAction::Complete { resumed: true, output_size: 0 },
            ),
            ConversionObservation::RoundTrip(Err(e)) => conversion_failed(e, false),
            _ => out_of_order,
        },
        ConversionStep::Preparing => match seen {
            ConversionObservation::Prepared(Ok(())) => (ConversionStep::Creating, ConversionAction::CreateRvz),
            ConversionObservation::Prepared(Err(e)) => conversion_failed(e, false),
            _ => out_of_order,
        },
        ConversionStep::Creating => match seen {
            ConversionObservation::Created(Ok(())) => (
                ConversionStep::CheckingStop { partial: true, next: StopNext::VerifyPartial },
                ConversionAction::CheckStop,
            ),
            ConversionObservation::Created(Err(e)) => conversion_failed(e, true),
            _ => out_of_order,
        },
        ConversionStep::VerifyingPartial => match seen {
            ConversionObservation::PartialVerified(Ok(())) => if round_trip {
                (ConversionStep::RoundTripPartial, ConversionAction::RoundTrip { resume: false })
            } else {
                (
                    ConversionStep::CheckingStop { partial: true, next: StopNext::Publish },
                    ConversionAction::CheckStop,
                )
            },
            ConversionObservation::PartialVerified(Err(e)) => conversion_failed(e, false),
            _ => out_of_order,
        },
        ConversionStep::RoundTripPartial => match seen {
            ConversionObservation::RoundTrip(Ok(())) => (
                ConversionStep::CheckingStop { partial: true, next: StopNext::Publish },
                ConversionAction::CheckStop,
            ),
            ConversionObservation::RoundTrip(Err(e)) => conversion_failed(e, false),
            _ => out_of_order,
        },
        ConversionStep::Publishing => match seen {
            ConversionObservation::Published(Ok(size)) => (
                ConversionStep::Completing,
                ConversionAction::Complete { resumed: false, output_size: size },
            ),
            ConversionObservation::Published(Err(e)) => conversion_failed(e, false),
            _ => out_of_order,
        },
        ConversionStep::Completing => match seen {
            ConversionObservation::Completed(Ok(())) => (
                ConversionStep::Done,
                ConversionAction::Finish(ConversionEnd::Completed),
            ),
            ConversionObservation::Completed(Err(e)) => conversion_failed(e, false),
            _ => out_of_order,
        },
        ConversionStep::Done => out_of_order,
    }
}

/// A failure ending.
fn fail(e: PipelineError, remove_partial: bool) -> (r: (ConversionStep, ConversionAction))
    ensures
        r == conversion_failed(e, remove_partial),
{
    (ConversionStep::Done, ConversionAction::Finish(ConversionEnd::Failed { error: e, remove_partial }))
}

/// One step of converting a GameCube image; `round_trip` is the profile's setting.
pub fn conversion_step(round_trip: bool, step: ConversionStep, seen: ConversionObservation) -> (r: (
    ConversionStep,
    ConversionAction,
))
    ensures
        r == spec_conversion_step(round_trip, step, seen),
{
    let out_of_order = (ConversionStep::Done, ConversionAction::Finish(ConversionEnd::OutOfOrder));
    match step {
        ConversionStep::VerifyingSource => match seen {
            ConversionObservation::SourceVerified(Ok(())) => (
                ConversionStep::CheckingStop { partial: false, next: StopNext::CheckOutput },
                ConversionAction::CheckStop,
            ),
            ConversionObservation::SourceVerified(Err(e)) => fail(e, false),
            _ => out_of_order,
        },
        ConversionStep::CheckingStop { partial, next } => match seen {
            ConversionObservation::StopRequested(stop) => if stop {
                fail(PipelineError::Interrupted, partial)
            } else {
                match next {
                    StopNext::CheckOutput => (ConversionStep::CheckingOutput, ConversionAction::CheckOutput),
                    StopNext::VerifyPartial => (ConversionStep::VerifyingPartial, ConversionAction::VerifyPartial),
                    StopNext::Publish => (ConversionStep::Publishing, ConversionAction::Publish),
                }
            },
            _ => out_of_order,
        },
        ConversionStep::CheckingOutput => match seen {
            ConversionObservation::OutputExists(e) => if e {
                (ConversionStep::VerifyingOutput, ConversionAction::VerifyOutput)
            } else {
                (ConversionStep::Preparing, ConversionAction::PreparePartial)
            },
            _ => out_of_order,
        },
        ConversionStep::VerifyingOutput => match seen {
            ConversionObservation::OutputVerified(Ok(())) => if round_trip {
                (ConversionStep::RoundTripOutput, ConversionAction::RoundTrip { resume: true })
            } else {
                (ConversionStep::Completing, ConversionAction::Complete { resumed: true, output_size: 0 })
            },
            ConversionObservation::OutputVerified(Err(e)) => fail(e, false),
            _ => out_of_order,
        },
        ConversionStep::RoundTripOutput => match seen {
            ConversionObservation::RoundTrip(Ok(())) => (
                ConversionStep::Completing,
                ConversionAction::Complete { resumed: true, output_size: 0 },
            ),
            ConversionObservation::RoundTrip(Err(e)) => fail(e, false),
            _ => out_of_order,
        },
        ConversionStep::Preparing => match seen {
            ConversionObservation::Prepared(Ok(())) => (ConversionStep::Creating, ConversionAction::CreateRvz),
            ConversionObservation::Prepared(Err(e)) => fail(e, false),
            _ => out_of_order,
        },
        ConversionStep::Creating => match seen {
            ConversionObservation::Created(Ok(())) => (
                ConversionStep::CheckingStop { partial: true, next: StopNext::VerifyPartial },
                ConversionAction::CheckStop,
            ),
            ConversionObservation::Created(Err(e)) => fail(e, true),
            _ => out_of_order,
        },
        ConversionStep::VerifyingPartial => match seen {
            ConversionObservation::PartialVerified(Ok(())) => if round_trip {
                (ConversionStep::RoundTripPartial, ConversionAction::RoundTrip { resume: false })
            } else {
                (
                    ConversionStep::CheckingStop { partial: true, next: StopNext::Publish },
                    ConversionAction::CheckStop,
                )
            },
            ConversionObservation::PartialVerified(Err(e)) => fail(e, false),
            _ => out_of_order,
        },
        ConversionStep::RoundTripPartial => match seen {
            ConversionObservation::RoundTrip(Ok(())) => (
                ConversionStep::CheckingStop { partial: true, next: StopNext::Publish },
                ConversionAction::CheckStop,
            ),
            ConversionObservation::RoundTrip(Err(e)) => fail(e, false),
            _ => out_of_order,
        },
        ConversionStep::Publishing => match seen {
            ConversionObservation::Published(Ok(size)) => (
                ConversionStep::Completing,
                ConversionAction::Complete { resumed: false, output_size: size },
            ),
            ConversionObservation::Published(Err(e)) => fail(e, false),
            _ => out_of_order,
        },
        ConversionStep::Completing => match seen {
            ConversionObservation::Completed(Ok(())) => (
                ConversionStep::Done,
                ConversionAction::Finish(ConversionEnd::Completed),
            ),
            ConversionObservation::Completed(Err(e)) => fail(e, false),
            _ => out_of_order,
        },
        ConversionStep::Done => out_of_order,
    }
}

/// Checks a round trip: the ISO rebuilt from an RVZ has the source's digest.
pub fn check_round_trip(source: &str, source_digest: &str, rebuilt_digest: &str) -> (r: Result<()>)
    ensures
        source_digest@ == rebuilt_digest@ ==> r is Ok,
        source_digest@ != rebuilt_digest@ ==> (r matches Err(PipelineError::Message(m)) && m@
            == "GameCube RVZ round-trip hash mismatch: "@ + source@),
{
    if chars_eq(&chars_of(source_digest), &chars_of(rebuilt_digest)) {
        return Ok(());
    }
    let mut m = lit("GameCube RVZ round-trip hash mismatch: ");
    append_chars(&mut m, &chars_of(source));
    Err(PipelineError::Message(string_of(&m)))
}

/// Where conversion stands after a sequence of observations, from the start.
pub open spec fn conversion_walk(round_trip: bool, obs: Seq<ConversionObservation>) -> ConversionStep
    decreases obs.len(),
{
    if obs.len() == 0 {
        ConversionStep::VerifyingSource
    } else {
        spec_conversion_step(round_trip, conversion_walk(round_trip, obs.drop_last()), obs.last()).0
    }
}

/// The outside work asked for after the observation at `k`.
pub open spec fn conversion_action_at(round_trip: bool, obs: Seq<ConversionObservation>, k: int) -> ConversionAction {
    spec_conversion_step(round_trip, conversion_walk(round_trip, obs.take(k)), obs[k]).1
}

/// Some observation among the first `n` is `o`.
pub open spec fn observed(obs: Seq<ConversionObservation>, n: int, o: ConversionObservation) -> bool {
    exists|j: int| 0 <= j < n && #[trigger] obs[j] == o
}

/// What the steps of conversion remember of the observations that led to them.
proof fn lemma_conversion_history(round_trip: bool, obs: Seq<ConversionObservation>)
    ensures
        ({
            let s = conversion_walk(round_trip, obs);
            let n = obs.len() as int;
            &&& s != ConversionStep::VerifyingSource && s != ConversionStep::Done ==> observed(
                obs,
                n,
                ConversionObservation::SourceVerified(Ok(())),
            )
            &&& (s == ConversionStep::RoundTripOutput || s == ConversionStep::RoundTripPartial
                || s == ConversionStep::Completing || s == ConversionStep::Publishing
                || s == (ConversionStep::CheckingStop { partial: true, next: StopNext::Publish }))
                ==> (observed(obs, n, ConversionObservation::OutputVerified(Ok(()))) || observed(
                obs,
                n,
                ConversionObservation::PartialVerified(Ok(())),
            ))
            &&& round_trip && (s == ConversionStep::Completing || s == ConversionStep::Publishing
                || s == (ConversionStep::CheckingStop { partial: true, next: StopNext::Publish }))
                ==> observed(obs, n, ConversionObservation::RoundTrip(Ok(())))
        }),
    decreases obs.len(),
{
    if obs.len() > 0 {
        let p = obs.drop_last();
        let n = obs.len() as int;
        lemma_conversion_history(round_trip, p);
        let last = obs.last();
        assert(obs[n - 1] == last);
        let o1 = ConversionObservation::SourceVerified(Ok(()));
        let o2 = ConversionObservation::OutputVerified(Ok(()));
        let o3 = ConversionObservation::PartialVerified(Ok(()));
        let o4 = ConversionObservation::RoundTrip(Ok(()));
        match last {
            ConversionObservation::SourceVerified(r) => {
                if let Ok(u) = r {
                    assert(u == ());
                    assert(last == o1);
                }
            },
            ConversionObservation::OutputVerified(r) => {
                if let Ok(u) = r {
                    assert(u == ());
                    assert(last == o2);
                }
            },
            ConversionObservation::PartialVerified(r) => {
                if let Ok(u) = r {
                    assert(u == ());
                    assert(last == o3);
                }
            },
            ConversionObservation::RoundTrip(r) => {
                if let Ok(u) = r {
                    assert(u == ());
                    assert(last == o4);
                }
            },
            _ => {},
        }
        if last == o1 || last == o2 || last == o3 || last == o4 {
            assert(observed(obs, n, last));
        }
        if observed(p, n - 1, o1) {
            let j = choose|j: int| 0 <= j < n - 1 && #[trigger] p[j] == o1;
            assert(obs[j] == o1);
        }
        if observed(p, n - 1, o2) {
            let j = choose|j: int| 0 <= j < n - 1 && #[trigger] p[j] == o2;
            assert(obs[j] == o2);
        }
        if observed(p, n - 1, o3) {
            let j = choose|j: int| 0 <= j < n - 1 && #[trigger] p[j] == o3;
            assert(obs[j] == o3);
        }
        if observed(p, n - 1, o4) {
            let j = choose|j: int| 0 <= j < n - 1 && #[trigger] p[j] == o4;
            assert(obs[j] == o4);
        }
    }
}

/// A conversion records its completion, and so moves the source to `done`, only once the
/// source was verified and the RVZ passed verification, and, when the profile asks for
/// round trips, once an ISO rebuilt from the RVZ matched the source's digest.
pub proof fn lemma_complete_after_verification(round_trip: bool, obs: Seq<ConversionObservation>, k: int)
    requires
        0 <= k < obs.len(),
        conversion_action_at(round_trip, obs, k) matches ConversionAction::Complete { .. },
    ensures
        observed(obs, k + 1, ConversionObservation::SourceVerified(Ok(()))),
        observed(obs, k + 1, ConversionObservation::OutputVerified(Ok(()))) || observed(
            obs,
            k + 1,
            ConversionObservation::PartialVerified(Ok(())),
        ),
        round_trip ==> observed(obs, k + 1, ConversionObservation::RoundTrip(Ok(()))),
{
    let p = obs.take(k);
    let q = obs.take(k + 1);
    assert(q.drop_last() =~= p);
    lemma_conversion_history(round_trip, q);
    assert(conversion_walk(round_trip, q) == spec_conversion_step(
        round_trip,
        conversion_walk(round_trip, p),
        obs[k],
    ).0);
    let o1 = ConversionObservation::SourceVerified(Ok(()));
    let o2 = ConversionObservation::OutputVerified(Ok(()));
    let o3 = ConversionObservation::PartialVerified(Ok(()));
    let o4 = ConversionObservation::RoundTrip(Ok(()));
    if observed(q, k + 1, o1) {
        let j = choose|j: int| 0 <= j < k + 1 && #[trigger] q[j] == o1;
        assert(obs[j] == q[j]);
    }
    if observed(q, k + 1, o2) {
        let j = choose|j: int| 0 <= j < k + 1 && #[trigger] q[j] == o2;
        assert(obs[j] == q[j]);
    }
    if observed(q, k + 1, o3) {
        let j = choose|j: int| 0 <= j < k + 1 && #[trigger] q[j] == o3;
        assert(obs[j] == q[j]);
    }
    if observed(q, k + 1, o4) {
        let j = choose|j: int| 0 <= j < k + 1 && #[trigger] q[j] == o4;
        assert(obs[j] == q[j]);
    }
}

} // verus!
