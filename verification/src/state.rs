//! Durable pipeline state: completion markers, state paths and stop requests.
use vstd::prelude::*;

use crate::config::{paths_equal, same_path, ProfileConfig};
use crate::error::{message, text_with, PipelineError, Result};
use crate::numbers::{
    decimal, decimal_chars, lemma_decimal_round_trip, parse_u64, spec_parse_u64,
};
use crate::text::{
    append_chars, chars_of, concat, is_space, lines, newline_at, spec_find, spec_lines, spec_split,
    spec_trim_end, split_char, string_of, strip_cr, trail_space, trim_end, views,
};

verus! {

/// The marker that proves one job completed: the output's digest, size, modification
/// time and name, and the fingerprint of the component set it was made from.
#[derive(Clone, Debug, PartialEq, Eq)]
pub struct CompletionRecord {
    pub sha256: String,
    pub size: u64,
    pub modified_seconds: u64,
    pub output_name: String,
    pub component_fingerprint: Option<String>,
}

/// The abstract content of a completion marker.
pub struct RecordView {
    pub sha256: Seq<char>,
    pub size: u64,
    pub modified_seconds: u64,
    pub output_name: Seq<char>,
    pub component_fingerprint: Option<Seq<char>>,
}

impl View for CompletionRecord {
    type V = RecordView;

    open spec fn view(&self) -> RecordView {
        RecordView {
            sha256: self.sha256@,
            size: self.size,
            modified_seconds: self.modified_seconds,
            output_name: self.output_name@,
            component_fingerprint: match self.component_fingerprint {
                Some(f) => Some(f@),
                None => None,
            },
        }
    }
}

/// What reading one marker line gives: the record, or the message of the error.
pub open spec fn spec_parse_record(line: Seq<char>) -> core::result::Result<RecordView, Seq<char>> {
    let f = spec_split(spec_trim_end(line), '\t');
    if !(4 <= f.len() <= 5) {
        Err("completion marker must contain four or five tab-separated fields"@)
    } else {
        match spec_parse_u64(f[1]) {
            None => Err("invalid marker size"@),
            Some(size) => match spec_parse_u64(f[2]) {
                None => Err("invalid marker timestamp"@),
                Some(modified_seconds) => Ok(
                    RecordView {
                        sha256: f[0],
                        size,
                        modified_seconds,
                        output_name: f[3],
                        component_fingerprint: if f.len() == 5 {
                            Some(f[4])
                        } else {
                            None
                        },
                    },
                ),
            },
        }
    }
}

/// The text of a marker file: tab-separated fields and a final line feed.
pub open spec fn spec_encode_record(r: RecordView) -> Seq<char> {
    r.sha256 + seq!['\t'] + decimal_chars(r.size as nat) + seq!['\t'] + decimal_chars(
        r.modified_seconds as nat,
    ) + seq!['\t'] + r.output_name + match r.component_fingerprint {
        Some(f) => seq!['\t'] + f,
        None => Seq::<char>::empty(),
    } + seq!['\n']
}

/// What reading a marker file gives: its first line as a record.
pub open spec fn spec_parse_marker(text: Seq<char>) -> core::result::Result<RecordView, Seq<char>> {
    let l = spec_lines(text);
    if l.len() == 0 {
        Err("empty completion marker"@)
    } else {
        spec_parse_record(l[0])
    }
}

fn field_string(fields: &Vec<Vec<char>>, i: usize) -> (r: String)
    requires
        i < fields@.len(),
    ensures
        r@ == fields@[i as int]@,
{
    string_of(&fields[i])
}

impl CompletionRecord {
    /// Reads one marker line: four or five tab-separated fields after trailing white space
    /// is trimmed; the second and third are decimal numbers.
    pub fn parse(line: &str) -> (r: Result<Self>)
        ensures
            r matches Ok(rec) ==> spec_parse_record(line@) == Ok::<RecordView, Seq<char>>(rec@),
            r matches Err(e) ==> e matches PipelineError::Message(m) && spec_parse_record(line@)
                == Err::<RecordView, Seq<char>>(m@),
    {
        let chars = chars_of(line);
        let trimmed = trim_end(&chars);
        let fields = split_char(&trimmed, '\t');
        assert(views(fields@)[1] == fields@[1]@ || fields@.len() < 2);
        if !(4 <= fields.len() && fields.len() <= 5) {
            return Err(message("completion marker must contain four or five tab-separated fields"));
        }
        assert(views(fields@)[1] == fields@[1]@);
        assert(views(fields@)[2] == fields@[2]@);
        let size = match parse_u64(&fields[1]) {
            Some(v) => v,
            None => {
                return Err(message("invalid marker size"));
            },
        };
        let modified_seconds = match parse_u64(&fields[2]) {
            Some(v) => v,
            None => {
                return Err(message("invalid marker timestamp"));
            },
        };
        let component_fingerprint = if fields.len() == 5 {
            assert(views(fields@)[4] == fields@[4]@);
            Some(field_string(&fields, 4))
        } else {
            None
        };
        assert(views(fields@)[0] == fields@[0]@);
        assert(views(fields@)[3] == fields@[3]@);
        let rec = CompletionRecord {
            sha256: field_string(&fields, 0),
            size,
            modified_seconds,
            output_name: field_string(&fields, 3),
            component_fingerprint,
        };
        Ok(rec)
    }

    /// The text of the marker file for this record.
    pub fn encode(&self) -> (r: String)
        ensures
            r@ == spec_encode_record(self@),
    {
        let tab = ['\t'];
        let mut out = chars_of(self.sha256.as_str());
        append_chars(&mut out, &tab);
        append_chars(&mut out, &decimal(self.size));
        append_chars(&mut out, &tab);
        append_chars(&mut out, &decimal(self.modified_seconds));
        append_chars(&mut out, &tab);
        append_chars(&mut out, &chars_of(self.output_name.as_str()));
        let ghost before = out@;
        match &self.component_fingerprint {
            Some(f) => {
                append_chars(&mut out, &tab);
                append_chars(&mut out, &chars_of(f.as_str()));
            },
            None => {},
        }
        let nl = ['\n'];
        append_chars(&mut out, &nl);
        assert(tab@ =~= seq!['\t']);
        assert(nl@ =~= seq!['\n']);
        assert(out@ =~= spec_encode_record(self@));
        string_of(&out)
    }
}

/// Reads the completion record from the text of a marker file.
pub fn parse_marker_text(text: &str) -> (r: Result<CompletionRecord>)
    ensures
        r matches Ok(rec) ==> spec_parse_marker(text@) == Ok::<RecordView, Seq<char>>(rec@),
        r matches Err(e) ==> e matches PipelineError::Message(m) && spec_parse_marker(text@)
            == Err::<RecordView, Seq<char>>(m@),
{
    let chars = chars_of(text);
    let all = lines(&chars);
    if all.len() == 0 {
        return Err(message("empty completion marker"));
    }
    assert(views(all@)[0] == all@[0]@);
    let first = string_of(&all[0]);
    CompletionRecord::parse(first.as_str())
}

/// A field that a marker can carry: no tab and no line feed.
pub open spec fn plain_field(s: Seq<char>) -> bool {
    forall|i: int| 0 <= i < s.len() ==> s[i] != '\t' && s[i] != '\n'
}

/// The last field of a marker ends with a character that is not white space, so trimming
/// the line keeps it.
pub open spec fn solid_end(s: Seq<char>) -> bool {
    s.len() > 0 && !is_space(s.last())
}

/// A record that a marker file holds without loss.
pub open spec fn storable(r: RecordView) -> bool {
    &&& plain_field(r.sha256)
    &&& plain_field(r.output_name)
    &&& match r.component_fingerprint {
        Some(f) => plain_field(f) && solid_end(f),
        None => solid_end(r.output_name),
    }
}

pub proof fn lemma_find_first(s: Seq<char>, c: char, i: int)
    requires
        0 <= i < s.len(),
        s[i] == c,
        forall|j: int| 0 <= j < i ==> s[j] != c,
    ensures
        spec_find(s, seq![c]) == Some(i),
{
    crate::text::lemma_find(s, seq![c]);
    assert(s.subrange(i, i + 1) =~= seq![c]);
    match spec_find(s, seq![c]) {
        Some(k) => {
            assert(s.subrange(k, k + 1)[0] == s[k]);
            if k > i {
                assert(crate::text::occurs_at(s, seq![c], i));
            }
        },
        None => {
            assert(crate::text::occurs_at(s, seq![c], i));
        },
    }
}

proof fn lemma_find_none(s: Seq<char>, c: char)
    requires
        forall|j: int| 0 <= j < s.len() ==> s[j] != c,
    ensures
        spec_find(s, seq![c]) is None,
{
    crate::text::lemma_find(s, seq![c]);
    if spec_find(s, seq![c]) is Some {
        let k = spec_find(s, seq![c])->0;
        assert(s.subrange(k, k + 1)[0] == s[k]);
    }
}

proof fn lemma_split_head(a: Seq<char>, b: Seq<char>, c: char)
    requires
        forall|j: int| 0 <= j < a.len() ==> a[j] != c,
    ensures
        spec_split(a + seq![c] + b, c) == seq![a] + spec_split(b, c),
{
    let s = a + seq![c] + b;
    lemma_find_first(s, c, a.len() as int);
    assert(s.take(a.len() as int) =~= a);
    assert(s.skip(a.len() as int + 1) =~= b);
}

proof fn lemma_split_single(a: Seq<char>, c: char)
    requires
        forall|j: int| 0 <= j < a.len() ==> a[j] != c,
    ensures
        spec_split(a, c) == seq![a],
{
    lemma_find_none(a, c);
}

proof fn lemma_digits_plain(n: nat)
    ensures
        plain_field(decimal_chars(n)),
{
    lemma_decimal_round_trip(n);
    let d = decimal_chars(n);
    assert forall|i: int| 0 <= i < d.len() implies d[i] != '\t' && d[i] != '\n' by {
        assert(crate::text::is_digit(d[i]));
    }
}

/// A marker line that ends with a character that is not white space is kept whole by
/// trimming.
proof fn lemma_trim_solid(s: Seq<char>)
    requires
        solid_end(s),
    ensures
        spec_trim_end(s) == s,
{
    assert(trail_space(s) == 0);
    assert(s.take(s.len() as int) =~= s);
}

/// What writing a completion marker stores, reading it gives back, both as a marker file
/// and as one record line (`CompletionRecord::parse` of `encode`): for every record whose
/// text fields hold no tab or line feed and whose last field does not end in white space.
#[verifier::spinoff_prover]
#[verifier::rlimit(30)]
pub proof fn lemma_marker_round_trip(r: RecordView)
    requires
        storable(r),
    ensures
        spec_parse_marker(spec_encode_record(r)) == Ok::<RecordView, Seq<char>>(r),
        spec_parse_record(spec_encode_record(r)) == Ok::<RecordView, Seq<char>>(r),
{
    let d1 = decimal_chars(r.size as nat);
    let d2 = decimal_chars(r.modified_seconds as nat);
    lemma_digits_plain(r.size as nat);
    lemma_digits_plain(r.modified_seconds as nat);
    crate::numbers::lemma_parse_u64_decimal(r.size);
    crate::numbers::lemma_parse_u64_decimal(r.modified_seconds);
    let tail = match r.component_fingerprint {
        Some(f) => seq!['\t'] + f,
        None => Seq::<char>::empty(),
    };
    let line = r.sha256 + seq!['\t'] + d1 + seq!['\t'] + d2 + seq!['\t'] + r.output_name + tail;
    let text = spec_encode_record(r);
    assert(text =~= line + seq!['\n']);
    // the text holds one line
    assert forall|j: int| 0 <= j < line.len() implies line[j] != '\n' by {
        let a = r.sha256.len() as int;
        let b = a + 1 + d1.len();
        let c = b + 1 + d2.len();
        let e = c + 1 + r.output_name.len();
        if j < a {
            assert(line[j] == r.sha256[j]);
        } else if j == a {
        } else if j < b {
            assert(line[j] == d1[j - a - 1]);
        } else if j == b {
        } else if j < c {
            assert(line[j] == d2[j - b - 1]);
        } else if j == c {
        } else if j < e {
            assert(line[j] == r.output_name[j - c - 1]);
        } else {
            assert(line[j] == tail[j - e]);
            if let Some(f) = r.component_fingerprint {
                if j > e {
                    assert(tail[j - e] == f[j - e - 1]);
                }
            }
        }
    }
    lemma_find_first(text, '\n', line.len() as int);
    assert(newline_at(text) == Some(line.len() as int));
    assert(text.take(line.len() as int) =~= line);
    assert(text.skip(line.len() as int + 1) =~= Seq::<char>::empty());
    assert(spec_lines(text) == seq![strip_cr(line)] + spec_lines(Seq::<char>::empty()));
    // the line does not end in a carriage return or other white space
    let last_field = match r.component_fingerprint {
        Some(f) => f,
        None => r.output_name,
    };
    assert(line.last() == last_field.last()) by {
        match r.component_fingerprint {
            Some(f) => {
                assert(line.last() == tail.last());
                assert(tail.last() == f.last());
            },
            None => {
                assert(line =~= r.sha256 + seq!['\t'] + d1 + seq!['\t'] + d2 + seq!['\t']
                    + r.output_name);
            },
        }
    }
    assert(strip_cr(line) == line);
    assert(spec_lines(text)[0] == line);
    lemma_trim_solid(line);
    assert(text.drop_last() =~= line);
    assert(trail_space(line) == 0);
    assert(trail_space(text) == 1);
    assert(spec_trim_end(text) =~= line);
    // split the fields
    let rest1 = d1 + seq!['\t'] + d2 + seq!['\t'] + r.output_name + tail;
    let rest2 = d2 + seq!['\t'] + r.output_name + tail;
    let rest3 = r.output_name + tail;
    assert(line =~= r.sha256 + seq!['\t'] + rest1);
    assert(rest1 =~= d1 + seq!['\t'] + rest2);
    assert(rest2 =~= d2 + seq!['\t'] + rest3);
    lemma_split_head(r.sha256, rest1, '\t');
    lemma_split_head(d1, rest2, '\t');
    lemma_split_head(d2, rest3, '\t');
    match r.component_fingerprint {
        Some(f) => {
            assert(rest3 =~= r.output_name + seq!['\t'] + f);
            lemma_split_head(r.output_name, f, '\t');
            lemma_split_single(f, '\t');
            let fields = spec_split(line, '\t');
            assert(fields =~= seq![r.sha256, d1, d2, r.output_name, f]);
        },
        None => {
            assert(rest3 =~= r.output_name);
            lemma_split_single(r.output_name, '\t');
            let fields = spec_split(line, '\t');
            assert(fields =~= seq![r.sha256, d1, d2, r.output_name]);
        },
    }
}

/// `Path::join` on Unix: an absolute `name` replaces the base; otherwise a separator is
/// added unless the base is empty or already ends with one.
pub open spec fn spec_join(base: Seq<char>, name: Seq<char>) -> Seq<char> {
    if name.len() > 0 && name[0] == '/' {
        name
    } else if base.len() == 0 {
        name
    } else if base.last() == '/' {
        base + name
    } else {
        base + seq!['/'] + name
    }
}

/// `Path::join` on Unix.
pub fn join(base: &String, name: &[char]) -> (r: String)
    ensures
        r@ == spec_join(base@, name@),
{
    if name.len() > 0 && name[0] == '/' {
        return string_of(name);
    }
    let b = chars_of(base.as_str());
    if b.len() == 0 {
        return string_of(name);
    }
    let mut out = b;
    if out[out.len() - 1] != '/' {
        out.push('/');
    }
    append_chars(&mut out, name);
    string_of(&out)
}

/// The state and log directories of one profile.
#[derive(Clone, Debug)]
pub struct StateStore {
    root: String,
    log_dir: String,
}

impl StateStore {
    /// The state directory.
    pub closed spec fn spec_root(&self) -> Seq<char> {
        self.root@
    }

    /// The log directory.
    pub closed spec fn spec_log_dir(&self) -> Seq<char> {
        self.log_dir@
    }

    /// The directory of completion markers.
    pub open spec fn spec_completed_dir(&self) -> Seq<char> {
        spec_join(self.spec_root(), "completed"@)
    }

    /// A store over a state directory and a log directory.
    pub fn new(root: String, log_dir: String) -> (r: Self)
        ensures
            r.spec_root() == root@,
            r.spec_log_dir() == log_dir@,
    {
        StateStore { root, log_dir }
    }

    /// The state directory.
    pub fn root(&self) -> (r: &String)
        ensures
            r@ == self.spec_root(),
    {
        &self.root
    }

    /// The log directory.
    pub fn log_dir(&self) -> (r: &String)
        ensures
            r@ == self.spec_log_dir(),
    {
        &self.log_dir
    }

    /// `completed` under the state directory.
    pub fn completed_dir(&self) -> (r: String)
        ensures
            r@ == self.spec_completed_dir(),
    {
        join(&self.root, &chars_of("completed"))
    }

    /// The marker file of a job: `<job_id>.tsv` under the completed directory.
    pub fn marker_path(&self, job_id: &str) -> (r: String)
        ensures
            r@ == spec_join(self.spec_completed_dir(), job_id@ + ".tsv"@),
    {
        let name = concat(&chars_of(job_id), &chars_of(".tsv"));
        join(&self.completed_dir(), &name)
    }

    /// The file that holds the current activity.
    pub fn current_path(&self) -> (r: String)
        ensures
            r@ == spec_join(self.spec_root(), "current"@),
    {
        join(&self.root, &chars_of("current"))
    }

    /// The file whose presence requests a graceful stop.
    pub fn stop_path(&self) -> (r: String)
        ensures
            r@ == spec_join(self.spec_root(), "stop.requested"@),
    {
        join(&self.root, &chars_of("stop.requested"))
    }

    /// The profile lock file.
    pub fn lock_path(&self) -> (r: String)
        ensures
            r@ == spec_join(self.spec_root(), "pipeline.lock"@),
    {
        join(&self.root, &chars_of("pipeline.lock"))
    }

    /// The failures of the current run.
    pub fn current_failures_path(&self) -> (r: String)
        ensures
            r@ == spec_join(self.spec_root(), "failures.current.tsv"@),
    {
        join(&self.root, &chars_of("failures.current.tsv"))
    }

    /// The failures of every run.
    pub fn failure_history_path(&self) -> (r: String)
        ensures
            r@ == spec_join(self.spec_root(), "failures.history.tsv"@),
    {
        join(&self.root, &chars_of("failures.history.tsv"))
    }

    /// The pipeline log.
    pub fn pipeline_log_path(&self) -> (r: String)
        ensures
            r@ == spec_join(self.spec_log_dir(), "pipeline.log"@),
    {
        join(&self.log_dir, &chars_of("pipeline.log"))
    }

    /// The file and the text that record the current activity.
    pub fn write_current(&self, message: &str) -> (r: (String, String))
        ensures
            r.0@ == spec_join(self.spec_root(), "current"@),
            r.1@ == message@ + seq!['\n'],
    {
        let nl = ['\n'];
        let content = concat(&chars_of(message), &nl);
        assert(nl@ =~= seq!['\n']);
        (self.current_path(), string_of(&content))
    }

    /// The file and the (empty) text that clear the current run's failures.
    pub fn clear_current_failures(&self) -> (r: (String, String))
        ensures
            r.0@ == spec_join(self.spec_root(), "failures.current.tsv"@),
            r.1@ == Seq::<char>::empty(),
    {
        (self.current_failures_path(), String::new())
    }

    /// The file and the text of a job's completion marker.
    pub fn write_completion(&self, job_id: &str, record: &CompletionRecord) -> (r: (
        String,
        String,
    ))
        ensures
            r.0@ == spec_join(self.spec_completed_dir(), job_id@ + ".tsv"@),
            r.1@ == spec_encode_record(record@),
    {
        (self.marker_path(job_id), record.encode())
    }
}

/// The current activity as read back from its file: trailing white space trimmed.
pub fn current_activity(text: &str) -> (r: String)
    ensures
        r@ == spec_trim_end(text@),
{
    string_of(&trim_end(&chars_of(text)))
}

/// A line of the pipeline log: the UNIX time, a space and the message.
pub fn log_line(timestamp: u64, message: &str) -> (r: String)
    ensures
        r@ == decimal_chars(timestamp as nat) + seq![' '] + message@ + seq!['\n'],
{
    let mut out = decimal(timestamp);
    out.push(' ');
    append_chars(&mut out, &chars_of(message));
    out.push('\n');
    string_of(&out)
}

/// A line of the failure logs: the UNIX time, the job ID and the message, tab-separated.
pub fn failure_line(timestamp: u64, job_id: &str, message: &str) -> (r: String)
    ensures
        r@ == decimal_chars(timestamp as nat) + seq!['\t'] + job_id@ + seq!['\t'] + message@
            + seq!['\n'],
{
    let mut out = decimal(timestamp);
    out.push('\t');
    append_chars(&mut out, &chars_of(job_id));
    out.push('\t');
    append_chars(&mut out, &chars_of(message));
    out.push('\n');
    string_of(&out)
}

/// The pipeline-log message that accompanies a recorded failure.
pub fn failure_log_message(job_id: &str, message: &str) -> (r: String)
    ensures
        r@ == "FAILED group="@ + job_id@ + " reason="@ + message@,
{
    let head = concat(&chars_of("FAILED group="), &chars_of(job_id));
    let mid = concat(&head, &chars_of(" reason="));
    let all = concat(&mid, &chars_of(message));
    string_of(&all)
}

/// A graceful-stop request: a control file, or a signal that the caller observes.
#[derive(Clone, Debug)]
pub struct StopToken {
    stop_path: String,
}

impl StopToken {
    /// The control file.
    pub closed spec fn spec_stop_path(&self) -> Seq<char> {
        self.stop_path@
    }

    /// A token over a control file.
    pub fn new(stop_path: String) -> (r: Self)
        ensures
            r.spec_stop_path() == stop_path@,
    {
        StopToken { stop_path }
    }

    /// The control file.
    pub fn stop_path(&self) -> (r: &String)
        ensures
            r@ == self.spec_stop_path(),
    {
        &self.stop_path
    }

    /// A stop is requested when a stop signal was raised or the control file exists.
    pub fn is_requested(&self, signal_raised: bool, stop_file_exists: bool) -> (r: bool)
        ensures
            r == (signal_raised || stop_file_exists),
    {
        signal_raised || stop_file_exists
    }
}

/// The directories in which a recorded output may stand: the staging output directory,
/// then the final library when it is configured and differs from it.
pub open spec fn spec_completion_roots(p: ProfileConfig) -> Seq<Seq<char>> {
    match p.library_dir {
        Some(l) => if !same_path(l@, p.output_dir@) {
            seq![p.output_dir@, l@]
        } else {
            seq![p.output_dir@]
        },
        None => seq![p.output_dir@],
    }
}

/// The directories in which a recorded output may stand, in the order they are tried.
pub fn completion_roots(profile: &ProfileConfig) -> (r: Vec<String>)
    ensures
        r@.map_values(|s: String| s@) == spec_completion_roots(*profile),
{
    let mut roots: Vec<String> = Vec::new();
    roots.push(profile.output_dir.clone());
    if let Some(library) = &profile.library_dir {
        if !paths_equal(library, &profile.output_dir) {
            roots.push(library.clone());
        }
    }
    assert(roots@.map_values(|s: String| s@) =~= spec_completion_roots(*profile));
    roots
}

/// Whether an output file matches its record by size and modification time, and by digest
/// when re-verification is asked for.
pub fn output_matches(
    record: &CompletionRecord,
    size: u64,
    modified_seconds: u64,
    digest: Option<&String>,
) -> (r: bool)
    ensures
        r == (size == record.size && modified_seconds == record.modified_seconds && match digest {
            Some(d) => d@ == record.sha256@,
            None => true,
        }),
{
    if size != record.size || modified_seconds != record.modified_seconds {
        return false;
    }
    match digest {
        Some(d) => *d == record.sha256,
        None => true,
    }
}


/// What is being checked of the output in one of the completion roots.
#[derive(Clone, Copy, Debug, PartialEq, Eq)]
pub enum SearchStage {
    /// Whether the output exists there, and its size.
    Stat,
    /// Its modification time.
    Modified,
    /// Its digest.
    Digest,
}

/// Where the search for a recorded output among the completion roots stands.
#[derive(Clone, Copy, Debug, PartialEq, Eq)]
pub struct OutputSearch {
    /// The index of the root being looked at.
    pub root: usize,
    pub stage: SearchStage,
}

/// What was found of the output in the root being looked at.
#[derive(Clone, Debug, PartialEq, Eq)]
pub enum OutputFact {
    Missing,
    Size(u64),
    Modified(u64),
    /// The hexadecimal SHA-256 digest.
    Digest(String),
}

/// What the search asks for next.
#[derive(Clone, Copy, Debug, PartialEq, Eq)]
pub enum SearchAction {
    /// Look the output up in the root at this index (existence and size).
    Stat(usize),
    /// Read the output's modification time.
    ReadModified,
    /// Compute the output's digest.
    HashOutput,
    /// The search ended: whether an intact output was found.
    Finish(bool),
}

/// On to the next root, or the end of a search that found nothing.
pub open spec fn next_root(i: usize, roots: usize) -> (OutputSearch, SearchAction) {
    if i + 1 < roots {
        (
            OutputSearch { root: (i + 1) as usize, stage: SearchStage::Stat },
            SearchAction::Stat((i + 1) as usize),
        )
    } else {
        (OutputSearch { root: i, stage: SearchStage::Stat }, SearchAction::Finish(false))
    }
}

/// One step of the search for a recorded output among `roots` completion roots, in
/// order: a root holds it intact when the output there has the recorded size and
/// modification time, and, when `reverify` asks for it, the recorded digest; otherwise the
/// next root is tried.
pub open spec fn spec_search_step(
    record: RecordView,
    reverify: bool,
    roots: usize,
    at: OutputSearch,
    seen: OutputFact,
) -> (OutputSearch, SearchAction) {
    let i = at.root;
    match (at.stage, seen) {
        (SearchStage::Stat, OutputFact::Missing) => next_root(i, roots),
        (SearchStage::Stat, OutputFact::Size(n)) => if n == record.size {
            (OutputSearch { root: i, stage: SearchStage::Modified }, SearchAction::ReadModified)
        } else {
            next_root(i, roots)
        },
        (SearchStage::Modified, OutputFact::Modified(m)) => if m != record.modified_seconds {
            next_root(i, roots)
        } else if reverify {
            (OutputSearch { root: i, stage: SearchStage::Digest }, SearchAction::HashOutput)
        } else {
            (at, SearchAction::Finish(true))
        },
        (SearchStage::Digest, OutputFact::Digest(d)) => if d@ == record.sha256 {
            (at, SearchAction::Finish(true))
        } else {
            next_root(i, roots)
        },
        _ => (at, SearchAction::Finish(false)),
    }
}

/// The first step of the search: the first root, or nothing when there is no root.
pub fn search_start(roots: usize) -> (r: (OutputSearch, SearchAction))
    ensures
        roots > 0 ==> r == (OutputSearch { root: 0, stage: SearchStage::Stat }, SearchAction::Stat(0)),
        roots == 0 ==> r.1 == SearchAction::Finish(false),
{
    let at = OutputSearch { root: 0, stage: SearchStage::Stat };
    if roots > 0 {
        (at, SearchAction::Stat(0))
    } else {
        (at, SearchAction::Finish(false))
    }
}

/// On to the next root, or the end of a search that found nothing.
fn next_root_exec(i: usize, roots: usize) -> (r: (OutputSearch, SearchAction))
    ensures
        r == next_root(i, roots),
{
    if i < roots && i + 1 < roots {
        (OutputSearch { root: i + 1, stage: SearchStage::Stat }, SearchAction::Stat(i + 1))
    } else {
        (OutputSearch { root: i, stage: SearchStage::Stat }, SearchAction::Finish(false))
    }
}

/// One step of the search for `record`'s output among `roots` completion roots.
pub fn search_step(
    record: &CompletionRecord,
    reverify: bool,
    roots: usize,
    at: OutputSearch,
    seen: OutputFact,
) -> (r: (OutputSearch, SearchAction))
    ensures
        r == spec_search_step(record@, reverify, roots, at, seen),
{
    let i = at.root;
    match at.stage {
        SearchStage::Stat => match seen {
            OutputFact::Missing => next_root_exec(i, roots),
            OutputFact::Size(n) => if n == record.size {
                (OutputSearch { root: i, stage: SearchStage::Modified }, SearchAction::ReadModified)
            } else {
                next_root_exec(i, roots)
            },
            _ => (at, SearchAction::Finish(false)),
        },
        SearchStage::Modified => match seen {
            OutputFact::Modified(m) => if m != record.modified_seconds {
                next_root_exec(i, roots)
            } else if reverify {
                (OutputSearch { root: i, stage: SearchStage::Digest }, SearchAction::HashOutput)
            } else {
                (at, SearchAction::Finish(true))
            },
            _ => (at, SearchAction::Finish(false)),
        },
        SearchStage::Digest => match seen {
            OutputFact::Digest(d) => if crate::text::chars_eq(
                &chars_of(d.as_str()),
                &chars_of(record.sha256.as_str()),
            ) {
                (at, SearchAction::Finish(true))
            } else {
                next_root_exec(i, roots)
            },
            _ => (at, SearchAction::Finish(false)),
        },
    }
}

} // verus!
