use rom_pipeline::cci::check_region;
use rom_pipeline::conversion::{
    check_round_trip, conversion_step, ConversionAction, ConversionEnd, ConversionObservation,
    ConversionStep,
};
use rom_pipeline::digest::{sha256_hex, Sha256Stream};
use rom_pipeline::error::PipelineError;

fn text(v: Vec<char>) -> String {
    v.into_iter().collect()
}

#[test]
fn streamed_digest_equals_digest_at_once() {
    let mut s = Sha256Stream::new();
    s.feed(b"a");
    s.feed(b"");
    s.feed(b"bc");
    assert_eq!(s.finish_hex(), "ba7816bf8f01cfea414140de5dae2223b00361a396177a9cb410ff61f20015ad");
    let mut t = Sha256Stream::new();
    t.feed(b"hello world");
    assert_eq!(text(sha256_hex(b"hello world", false)), t.finish_hex());
    let empty = Sha256Stream::new().finish();
    assert_eq!(empty.len(), 32);
    assert_eq!(empty[0], 0xe3);
}

#[test]
fn region_check_hashes_the_fed_bytes() {
    let mut s = Sha256Stream::new();
    s.feed(b"abc");
    let expected = {
        let mut t = Sha256Stream::new();
        t.feed(b"abc");
        t.finish()
    };
    assert!(check_region("ExeFS", s, &expected).is_ok());
    let mut wrong = Sha256Stream::new();
    wrong.feed(b"abd");
    assert_eq!(
        check_region("ExeFS", wrong, &expected),
        Err(PipelineError::Message(
            "main NCCH ExeFS hash mismatch; content is encrypted or corrupt".to_owned()
        ))
    );
}

fn run(round_trip: bool, observations: Vec<ConversionObservation>) -> Vec<ConversionAction> {
    let mut step = ConversionStep::VerifyingSource;
    let mut actions = Vec::new();
    for seen in observations {
        let (next, action) = conversion_step(round_trip, step, seen);
        step = next;
        actions.push(action);
    }
    actions
}

#[test]
fn new_rvz_is_verified_and_round_tripped_before_completion() {
    let actions = run(
        true,
        vec![
            ConversionObservation::SourceVerified(Ok(())),
            ConversionObservation::StopRequested(false),
            ConversionObservation::OutputExists(false),
            ConversionObservation::Prepared(Ok(())),
            ConversionObservation::Created(Ok(())),
            ConversionObservation::StopRequested(false),
            ConversionObservation::PartialVerified(Ok(())),
            ConversionObservation::RoundTrip(Ok(())),
            ConversionObservation::StopRequested(false),
            ConversionObservation::Published(Ok(40)),
            ConversionObservation::Completed(Ok(())),
        ],
    );
    assert_eq!(
        actions,
        vec![
            ConversionAction::CheckStop,
            ConversionAction::CheckOutput,
            ConversionAction::PreparePartial,
            ConversionAction::CreateRvz,
            ConversionAction::CheckStop,
            ConversionAction::VerifyPartial,
            ConversionAction::RoundTrip { resume: false },
            ConversionAction::CheckStop,
            ConversionAction::Publish,
            ConversionAction::Complete { resumed: false, output_size: 40 },
            ConversionAction::Finish(ConversionEnd::Completed),
        ]
    );
}

#[test]
fn existing_rvz_is_resumed_and_failures_end_conversion() {
    let resumed = run(
        false,
        vec![
            ConversionObservation::SourceVerified(Ok(())),
            ConversionObservation::StopRequested(false),
            ConversionObservation::OutputExists(true),
            ConversionObservation::OutputVerified(Ok(())),
        ],
    );
    assert_eq!(resumed[3], ConversionAction::Complete { resumed: true, output_size: 0 });
    let stopped = run(
        true,
        vec![
            ConversionObservation::SourceVerified(Ok(())),
            ConversionObservation::StopRequested(false),
            ConversionObservation::OutputExists(false),
            ConversionObservation::Prepared(Ok(())),
            ConversionObservation::Created(Ok(())),
            ConversionObservation::StopRequested(true),
        ],
    );
    assert_eq!(
        stopped[5],
        ConversionAction::Finish(ConversionEnd::Failed { error: PipelineError::Interrupted, remove_partial: true })
    );
    let bad = PipelineError::Message("bad".to_owned());
    let failed = run(false, vec![ConversionObservation::SourceVerified(Err(bad.clone()))]);
    assert_eq!(
        failed[0],
        ConversionAction::Finish(ConversionEnd::Failed { error: bad, remove_partial: false })
    );
}

#[test]
fn round_trip_digests_must_match() {
    assert!(check_round_trip("/src/a.iso", "ab", "ab").is_ok());
    assert_eq!(
        check_round_trip("/src/a.iso", "ab", "cd"),
        Err(PipelineError::Message("GameCube RVZ round-trip hash mismatch: /src/a.iso".to_owned()))
    );
}
