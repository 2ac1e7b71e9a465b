//! Jobs, their source artifacts, batch limits and run summaries.
use vstd::prelude::*;

use crate::digest::{name_bytes, sha256_hex, spec_sha256_hex, utf8_bytes};
use crate::error::{invalid, PipelineError, Result};

verus! {

/// The number of jobs a batch completes when nothing else is configured.
pub const DEFAULT_BATCH_LIMIT: usize = 5;

/// A positive limit on the number of jobs that one batch completes.
#[derive(Clone, Copy, Debug, PartialEq, Eq)]
pub struct BatchPolicy {
    limit: usize,
}

impl BatchPolicy {
    /// The limit is positive.
    #[verifier::type_invariant]
    spec fn positive(self) -> bool {
        self.limit > 0
    }

    /// The configured limit.
    pub closed spec fn spec_limit(self) -> usize {
        self.limit
    }

    /// Creates a batch limit; zero is rejected.
    pub fn new(limit: usize) -> (r: Result<Self>)
        ensures
            r is Ok <==> limit > 0,
            r matches Ok(p) ==> p.spec_limit() == limit,
            r matches Err(e) ==> e matches PipelineError::InvalidConfig(m) && m@
                == "batch limit must exceed zero"@,
    {
        if limit == 0 {
            Err(invalid("batch limit must exceed zero"))
        } else {
            Ok(BatchPolicy { limit })
        }
    }

    /// The limit.
    pub fn limit(self) -> (r: usize)
        ensures
            r == self.spec_limit(),
            r > 0,
    {
        proof {
            use_type_invariant(&self);
        }
        self.limit
    }
}

impl Default for BatchPolicy {
    /// The default limit of five jobs.
    fn default() -> (r: Self)
        ensures
            r.spec_limit() == DEFAULT_BATCH_LIMIT,
    {
        BatchPolicy { limit: DEFAULT_BATCH_LIMIT }
    }
}

/// The role of one source artifact within a job.
#[derive(Clone, Copy, Debug, PartialEq, Eq, PartialOrd, Ord)]
pub enum ComponentKind {
    Base,
    Update,
    Dlc,
}

/// The name of a component role.
pub open spec fn role_name(role: ComponentKind) -> Seq<char> {
    match role {
        ComponentKind::Base => "base"@,
        ComponentKind::Update => "update"@,
        ComponentKind::Dlc => "dlc"@,
    }
}

/// The rank by which roles are ordered (`Base < Update < Dlc`).
pub open spec fn role_rank(role: ComponentKind) -> u8 {
    match role {
        ComponentKind::Base => 0,
        ComponentKind::Update => 1,
        ComponentKind::Dlc => 2,
    }
}

impl ComponentKind {
    /// The name of the role.
    pub fn as_str(self) -> (r: &'static str)
        ensures
            r@ == role_name(self),
    {
        match self {
            ComponentKind::Base => "base",
            ComponentKind::Update => "update",
            ComponentKind::Dlc => "dlc",
        }
    }

    /// The rank by which roles are ordered.
    pub fn rank(self) -> (r: u8)
        ensures
            r == role_rank(self),
    {
        match self {
            ComponentKind::Base => 0,
            ComponentKind::Update => 1,
            ComponentKind::Dlc => 2,
        }
    }

    /// Whether two roles are the same.
    pub fn same(self, other: ComponentKind) -> (r: bool)
        ensures
            r == (self == other),
    {
        self.rank() == other.rank()
    }
}

/// One archive or image that a job reads.
#[derive(Clone, Debug, PartialEq, Eq)]
pub struct SourceArtifact {
    pub title_id: String,
    pub expected_size: u64,
    pub name: String,
    pub role: ComponentKind,
}

/// One unit of conversion work.
#[derive(Clone, Debug, PartialEq, Eq)]
pub struct Job {
    pub id: String,
    pub display_name: String,
    pub output_name: String,
    pub sources: Vec<SourceArtifact>,
}

/// What a source artifact holds, as plain values.
pub struct ArtifactView {
    pub title_id: Seq<char>,
    pub expected_size: u64,
    pub name: Seq<char>,
    pub role: ComponentKind,
}

impl View for SourceArtifact {
    type V = ArtifactView;

    open spec fn view(&self) -> ArtifactView {
        ArtifactView {
            title_id: self.title_id@,
            expected_size: self.expected_size,
            name: self.name@,
            role: self.role,
        }
    }
}

/// The views of a sequence of source artifacts.
pub open spec fn artifact_views(s: Seq<SourceArtifact>) -> Seq<ArtifactView> {
    s.map_values(|a: SourceArtifact| a@)
}

/// What a job holds, as plain values.
pub struct JobView {
    pub id: Seq<char>,
    pub display_name: Seq<char>,
    pub output_name: Seq<char>,
    pub sources: Seq<ArtifactView>,
}

impl View for Job {
    type V = JobView;

    open spec fn view(&self) -> JobView {
        JobView {
            id: self.id@,
            display_name: self.display_name@,
            output_name: self.output_name@,
            sources: artifact_views(self.sources@),
        }
    }
}

/// The views of a sequence of jobs.
pub open spec fn job_views(s: Seq<Job>) -> Seq<JobView> {
    s.map_values(|j: Job| j@)
}

/// The number of artifact views with a role.
pub open spec fn role_count(sources: Seq<ArtifactView>, role: ComponentKind) -> nat
    decreases sources.len(),
{
    if sources.len() == 0 {
        0
    } else {
        role_count(sources.drop_last(), role) + if sources.last().role == role {
            1nat
        } else {
            0nat
        }
    }
}

/// The number of sources with a role.
pub open spec fn count_role(sources: Seq<SourceArtifact>, role: ComponentKind) -> nat
    decreases sources.len(),
{
    if sources.len() == 0 {
        0
    } else {
        count_role(sources.drop_last(), role) + if sources.last().role == role {
            1nat
        } else {
            0nat
        }
    }
}

/// The big-endian bytes of a 64-bit number.
pub open spec fn be_bytes(n: u64) -> Seq<u8> {
    seq![
        (n >> 56u64) as u8,
        (n >> 48u64) as u8,
        (n >> 40u64) as u8,
        (n >> 32u64) as u8,
        (n >> 24u64) as u8,
        (n >> 16u64) as u8,
        (n >> 8u64) as u8,
        n as u8,
    ]
}

/// The bytes that identify one source in a component fingerprint.
pub open spec fn source_record(s: SourceArtifact) -> Seq<u8> {
    name_bytes(role_name(s.role)) + seq![0u8] + name_bytes(s.title_id@) + seq![0u8] + be_bytes(
        s.expected_size,
    ) + name_bytes(s.name@) + seq![0xffu8]
}

/// The bytes that a component fingerprint digests: every source's record, in order.
pub open spec fn fingerprint_input(sources: Seq<SourceArtifact>) -> Seq<u8>
    decreases sources.len(),
{
    if sources.len() == 0 {
        seq![]
    } else {
        fingerprint_input(sources.drop_last()) + source_record(sources.last())
    }
}

/// The component fingerprint of a job: the lowercase hexadecimal SHA-256 digest of its
/// sources' records.
pub open spec fn spec_fingerprint(sources: Seq<SourceArtifact>) -> Seq<char> {
    spec_sha256_hex(fingerprint_input(sources), false)
}

fn push_bytes(out: &mut Vec<u8>, b: &[u8])
    ensures
        final(out)@ == old(out)@ + b@,
{
    let mut i: usize = 0;
    while i < b.len()
        invariant
            i <= b@.len(),
            out@ == old(out)@ + b@.take(i as int),
        decreases b@.len() - i,
    {
        out.push(b[i]);
        assert(b@.take(i as int).push(b@[i as int]) =~= b@.take(i + 1 as int));
        assert((old(out)@ + b@.take(i as int)).push(b@[i as int]) =~= old(out)@ + b@.take(
            i + 1 as int,
        ));
        i += 1;
    }
    assert(b@.take(b@.len() as int) =~= b@);
}

/// The big-endian bytes of a 64-bit number (`u64::to_be_bytes`).
pub fn to_be_bytes(n: u64) -> (r: Vec<u8>)
    ensures
        r@ == be_bytes(n),
{
    let r = vec![
        (n >> 56u64) as u8,
        (n >> 48u64) as u8,
        (n >> 40u64) as u8,
        (n >> 32u64) as u8,
        (n >> 24u64) as u8,
        (n >> 16u64) as u8,
        (n >> 8u64) as u8,
        n as u8,
    ];
    assert(r@ =~= be_bytes(n));
    r
}

impl Job {
    /// A digest that changes with the set of sources: role, title ID, expected size and
    /// name of every source, in order.
    pub fn component_fingerprint(&self) -> (r: String)
        ensures
            r@ == spec_fingerprint(self.sources@),
    {
        let mut input: Vec<u8> = Vec::new();
        for i in 0..self.sources.len()
            invariant
                input@ == fingerprint_input(self.sources@.take(i as int)),
        {
            let source = &self.sources[i];
            let ghost before = input@;
            let role = source.role.as_str();
            push_bytes(&mut input, role.as_bytes());
            input.push(0u8);
            push_bytes(&mut input, &utf8_bytes(&source.title_id));
            input.push(0u8);
            push_bytes(&mut input, &to_be_bytes(source.expected_size));
            push_bytes(&mut input, &utf8_bytes(&source.name));
            input.push(0xffu8);
            assert(input@ =~= before + source_record(self.sources@[i as int]));
            assert(self.sources@.take(i + 1 as int).drop_last() =~= self.sources@.take(i as int));
        }
        assert(self.sources@.take(self.sources@.len() as int) =~= self.sources@);
        let digest = sha256_hex(&input, false);
        crate::text::string_of(&digest)
    }

    /// The number of sources with a role.
    pub fn component_count(&self, role: ComponentKind) -> (r: usize)
        ensures
            r == count_role(self.sources@, role),
    {
        let mut count: usize = 0;
        for i in 0..self.sources.len()
            invariant
                count == count_role(self.sources@.take(i as int), role),
                count <= i,
        {
            assert(self.sources@.take(i + 1 as int).drop_last() =~= self.sources@.take(i as int));
            if self.sources[i].role.same(role) {
                count += 1;
            }
        }
        assert(self.sources@.take(self.sources@.len() as int) =~= self.sources@);
        count
    }
}

/// Whether a job's sources are all present and complete.
#[derive(Clone, Copy, Debug, PartialEq, Eq)]
pub enum Readiness {
    Ready,
    Waiting,
}

/// How processing one job ended.
#[derive(Clone, Copy, Debug, PartialEq, Eq)]
pub enum JobOutcome {
    Completed,
    Interrupted,
}

/// What a run is asked to do.
#[derive(Clone, Debug, PartialEq, Eq)]
pub struct RunOptions {
    pub limit: BatchPolicy,
    pub only_job: Option<String>,
    pub reverify: bool,
    pub wait_for_source: bool,
}

impl Default for RunOptions {
    /// The default limit, every job, no re-verification, waiting for sources.
    fn default() -> (r: Self)
        ensures
            r.limit.spec_limit() == DEFAULT_BATCH_LIMIT,
            r.only_job is None,
            !r.reverify,
            r.wait_for_source,
    {
        RunOptions {
            limit: BatchPolicy::default(),
            only_job: None,
            reverify: false,
            wait_for_source: true,
        }
    }
}

/// What a run did.
#[derive(Clone, Debug, Default, PartialEq, Eq)]
pub struct RunSummary {
    pub completed: usize,
    pub failed: usize,
    pub waiting: usize,
}

/// Checks that a source file has the size its manifest records; `kind` names the file in
/// the message (`PS2 source`, `3DS ZIP`, ...).
pub fn check_source_size(kind: &str, artifact: &SourceArtifact, actual: u64) -> (r: Result<()>)
    ensures
        actual == artifact.expected_size ==> r is Ok,
        actual != artifact.expected_size ==> (r matches Err(PipelineError::Message(m)) && m@
            == kind@ + " size mismatch for "@ + artifact.name@ + ": expected="@
            + crate::numbers::decimal_chars(artifact.expected_size as nat) + " actual="@
            + crate::numbers::decimal_chars(actual as nat)),
{
    if actual == artifact.expected_size {
        return Ok(());
    }
    let mut m = crate::text::chars_of(kind);
    crate::text::append_chars(&mut m, &crate::text::lit(" size mismatch for "));
    crate::text::append_chars(&mut m, &crate::text::chars_of(artifact.name.as_str()));
    crate::text::append_chars(&mut m, &crate::text::lit(": expected="));
    crate::text::append_chars(&mut m, &crate::numbers::decimal(artifact.expected_size));
    crate::text::append_chars(&mut m, &crate::text::lit(" actual="));
    crate::text::append_chars(&mut m, &crate::numbers::decimal(actual));
    Err(PipelineError::Message(crate::text::string_of(&m)))
}

} // verus!
