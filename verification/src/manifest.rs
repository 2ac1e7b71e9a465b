//! Downloader manifests of disc images (GameCube and PlayStation 2): one job per image,
//! with a stable ID derived from the image's name.
use vstd::prelude::*;

use crate::config::{components, path_components};
use crate::digest::{name_bytes, sha256_name, spec_sha256_hex};
use crate::domain::{
    artifact_views, job_views, ArtifactView, ComponentKind, Job, JobView, SourceArtifact,
};
use crate::error::{message_with, PipelineError, Result};
use crate::numbers::{decimal, decimal_chars, parse_u64, spec_parse_u64};
use crate::text::{
    append_chars, chars_eq, chars_of, copy_range, ends_with, eq_ignore_case, is_blank, lines, lit,
    spec_blank, spec_ends_with, spec_lines, spec_lower, spec_split, spec_split_once, split_char,
    split_once, string_of, to_lower, views,
};
use crate::order::{chars_less, lex_less};
use crate::vita::normal_component;

verus! {

/// The last component of a path when it names a file or directory (`Path::file_name`).
pub open spec fn spec_file_name(p: Seq<char>) -> Option<Seq<char>> {
    let cs = path_components(p);
    if cs.len() > 0 && normal_component(cs.last()) {
        Some(cs.last())
    } else {
        None
    }
}

/// The last index of `c` in the first `i` characters of `s`.
pub open spec fn last_index_of(s: Seq<char>, c: char, i: int) -> Option<int>
    decreases i,
{
    if i <= 0 {
        None
    } else if s[i - 1] == c {
        Some(i - 1)
    } else {
        last_index_of(s, c, i - 1)
    }
}

/// The extension of a file name: the text after its last dot, unless that dot begins the
/// name.
pub open spec fn extension_of(f: Seq<char>) -> Option<Seq<char>> {
    match last_index_of(f, '.', f.len() as int) {
        Some(i) => if i > 0 {
            Some(f.skip(i + 1))
        } else {
            None
        },
        None => None,
    }
}

/// The stem of a file name: the text before its last dot, unless that dot begins the name.
pub open spec fn stem_of(f: Seq<char>) -> Seq<char> {
    match last_index_of(f, '.', f.len() as int) {
        Some(i) => if i > 0 {
            f.take(i)
        } else {
            f
        },
        None => f,
    }
}

/// `Path::extension`.
pub open spec fn spec_extension(p: Seq<char>) -> Option<Seq<char>> {
    match spec_file_name(p) {
        Some(f) => extension_of(f),
        None => None,
    }
}

/// `Path::file_stem`.
pub open spec fn spec_file_stem(p: Seq<char>) -> Option<Seq<char>> {
    match spec_file_name(p) {
        Some(f) => Some(stem_of(f)),
        None => None,
    }
}

/// A plain file name: one component, which is the whole name.
pub open spec fn safe_file_name(name: Seq<char>) -> bool {
    spec_file_name(name) == Some(name) && path_components(name).len() == 1
}

/// The last index of `c` in `s`.
fn last_index(s: &[char], c: char) -> (r: Option<usize>)
    ensures
        r matches Some(i) ==> last_index_of(s@, c, s@.len() as int) == Some(i as int) && i
            < s@.len(),
        r is None ==> last_index_of(s@, c, s@.len() as int) is None,
{
    let mut i = s.len();
    while i > 0
        invariant
            i <= s@.len(),
            last_index_of(s@, c, s@.len() as int) == last_index_of(s@, c, i as int),
        decreases i,
    {
        if s[i - 1] == c {
            return Some(i - 1);
        }
        i -= 1;
    }
    None
}

/// `Path::file_name`.
pub fn file_name(p: &String) -> (r: Option<Vec<char>>)
    ensures
        r matches Some(f) ==> spec_file_name(p@) == Some(f@),
        r is None ==> spec_file_name(p@) is None,
{
    let cs = components(p);
    if cs.len() == 0 {
        return None;
    }
    let last = &cs[cs.len() - 1];
    assert(views(cs@).last() == last@);
    let abnormal = (last.len() == 1 && (last[0] == '/' || last[0] == '.')) || (last.len() == 2
        && last[0] == '.' && last[1] == '.');
    assert(abnormal == !normal_component(last@)) by {
        if last@.len() == 1 {
            if last@[0] == '/' {
                assert(last@ =~= seq!['/']);
            }
            if last@[0] == '.' {
                assert(last@ =~= seq!['.']);
            }
        }
        if last@.len() == 2 && last@[0] == '.' && last@[1] == '.' {
            assert(last@ =~= seq!['.', '.']);
        }
    }
    if abnormal {
        None
    } else {
        Some(last.clone())
    }
}

/// `Path::extension`.
pub fn extension(p: &String) -> (r: Option<Vec<char>>)
    ensures
        r matches Some(e) ==> spec_extension(p@) == Some(e@),
        r is None ==> spec_extension(p@) is None,
{
    let f = match file_name(p) {
        Some(f) => f,
        None => return None,
    };
    match last_index(&f, '.') {
        Some(i) => if i > 0 {
            Some(copy_range(&f, i + 1, f.len()))
        } else {
            None
        },
        None => None,
    }
}

/// `Path::file_stem`.
pub fn file_stem(p: &String) -> (r: Option<Vec<char>>)
    ensures
        r matches Some(e) ==> spec_file_stem(p@) == Some(e@),
        r is None ==> spec_file_stem(p@) is None,
{
    let f = match file_name(p) {
        Some(f) => f,
        None => return None,
    };
    match last_index(&f, '.') {
        Some(i) => if i > 0 {
            Some(copy_range(&f, 0, i))
        } else {
            Some(f)
        },
        None => Some(f),
    }
}

/// Whether a name is a plain file name.
pub fn is_safe_file_name(name: &String) -> (r: bool)
    ensures
        r == safe_file_name(name@),
{
    let f = match file_name(name) {
        Some(f) => f,
        None => return false,
    };
    let n = chars_of(name.as_str());
    chars_eq(&f, &n) && components(name).len() == 1
}

/// The systems whose downloader manifests list disc images.
#[derive(Clone, Copy, Debug, PartialEq, Eq)]
pub enum DiscSystem {
    GameCube,
    PlayStation2,
}

/// The name of a disc system in messages.
pub open spec fn system_label(s: DiscSystem) -> Seq<char> {
    match s {
        DiscSystem::GameCube => "GameCube"@,
        DiscSystem::PlayStation2 => "PS2"@,
    }
}

/// The prefix of a disc system's job IDs.
pub open spec fn id_prefix(s: DiscSystem) -> Seq<char> {
    match s {
        DiscSystem::GameCube => "GC-"@,
        DiscSystem::PlayStation2 => "PS2-"@,
    }
}

/// The extension of a disc system's outputs.
pub open spec fn output_extension(s: DiscSystem) -> Seq<char> {
    match s {
        DiscSystem::GameCube => ".rvz"@,
        DiscSystem::PlayStation2 => ".chd"@,
    }
}

/// What a zero-sized image is called in a disc system's message.
pub open spec fn zero_size_text(s: DiscSystem) -> Seq<char> {
    match s {
        DiscSystem::GameCube => " has a zero-sized image"@,
        DiscSystem::PlayStation2 => " has a zero-sized disc image"@,
    }
}

/// A manifest name that a disc system converts: an `.iso` (GameCube), or an `.iso` or
/// `.bin` (PS2), in any case.
pub open spec fn disc_name(s: DiscSystem, name: Seq<char>) -> bool {
    match spec_extension(name) {
        Some(e) => match s {
            DiscSystem::GameCube => spec_lower(e) == "iso"@,
            DiscSystem::PlayStation2 => spec_lower(e) == "iso"@ || spec_lower(e) == "bin"@,
        },
        None => false,
    }
}

/// Whether a manifest name is one that a disc system converts.
fn is_disc_name(s: DiscSystem, name: &String) -> (r: bool)
    ensures
        r == disc_name(s, name@),
{
    let e = match extension(name) {
        Some(e) => e,
        None => return false,
    };
    let le = to_lower(&e);
    match s {
        DiscSystem::GameCube => chars_eq(&le, &lit("iso")),
        DiscSystem::PlayStation2 => chars_eq(&le, &lit("iso")) || chars_eq(&le, &lit("bin")),
    }
}

/// Some job already reads a source of this name.
pub open spec fn name_seen(prev: Seq<JobView>, name: Seq<char>) -> bool {
    exists|k: int| 0 <= k < prev.len() && (#[trigger] prev[k]).sources[0].name == name
}

/// The number of jobs whose display name matches `name` ignoring ASCII case.
pub open spec fn folded_count(prev: Seq<JobView>, name: Seq<char>) -> nat
    decreases prev.len(),
{
    if prev.len() == 0 {
        0
    } else {
        folded_count(prev.drop_last(), name) + if spec_lower(prev.last().display_name)
            == spec_lower(name) {
            1nat
        } else {
            0nat
        }
    }
}

/// The output file of the `n`-th job with a display name: `name.ext`, then `name-2.ext` and
/// so on.
pub open spec fn numbered_output(name: Seq<char>, n: nat, ext: Seq<char>) -> Seq<char> {
    if n == 1 {
        name + ext
    } else {
        name + "-"@ + decimal_chars(n) + ext
    }
}

/// The job of an image after the jobs `prev`.
pub open spec fn disc_job(
    s: DiscSystem,
    name: Seq<char>,
    expected_size: u64,
    stem: Seq<char>,
    prev: Seq<JobView>,
) -> JobView {
    let digest = spec_sha256_hex(name_bytes(name), true);
    JobView {
        id: id_prefix(s) + digest.take(12),
        display_name: stem,
        output_name: numbered_output(stem, folded_count(prev, stem) + 1, output_extension(s)),
        sources: seq![
            ArtifactView {
                title_id: digest,
                expected_size,
                name,
                role: ComponentKind::Base,
            },
        ],
    }
}

/// What manifest line `number` adds after the jobs `prev`: nothing, a job, or the message
/// of an error.
pub open spec fn disc_line(
    s: DiscSystem,
    line: Seq<char>,
    number: nat,
    prev: Seq<JobView>,
) -> core::result::Result<Option<JobView>, Seq<char>> {
    let label = system_label(s);
    match spec_split_once(line, seq!['\t']) {
        None => if spec_blank(line) {
            Ok(None)
        } else {
            Err(label + " manifest line "@ + decimal_chars(number) + " has no tab separator"@)
        },
        Some((size, name)) => if !disc_name(s, name) {
            Ok(None)
        } else if !safe_file_name(name) {
            Err(label + " manifest entry is not a plain filename: "@ + name)
        } else if name_seen(prev, name) {
            Err("duplicate "@ + label + " manifest entry: "@ + name)
        } else {
            match spec_parse_u64(size) {
                None => Err("invalid "@ + label + " size on manifest line "@ + decimal_chars(number)),
                Some(expected_size) => if expected_size == 0 {
                    Err(label + " manifest line "@ + decimal_chars(number) + zero_size_text(s))
                } else {
                    match spec_file_stem(name) {
                        None => Err("invalid "@ + label + " filename: "@ + name),
                        Some(stem) => Ok(Some(disc_job(s, name, expected_size, stem, prev))),
                    }
                },
            }
        },
    }
}

/// The jobs of the first `i` manifest lines, or the message of the first error.
pub open spec fn disc_upto(s: DiscSystem, lines: Seq<Seq<char>>, i: int) -> core::result::Result<
    Seq<JobView>,
    Seq<char>,
>
    decreases i,
{
    if i <= 0 {
        Ok(seq![])
    } else {
        match disc_upto(s, lines, i - 1) {
            Err(m) => Err(m),
            Ok(js) => match disc_line(s, lines[i - 1], i as nat, js) {
                Err(m) => Err(m),
                Ok(None) => Ok(js),
                Ok(Some(j)) => Ok(js.push(j)),
            },
        }
    }
}

/// Once a line fails, so does every longer prefix of the manifest.
proof fn lemma_disc_error(s: DiscSystem, lines: Seq<Seq<char>>, i: int, n: int)
    requires
        0 <= i <= n,
        disc_upto(s, lines, i) is Err,
    ensures
        disc_upto(s, lines, n) == disc_upto(s, lines, i),
    decreases n - i,
{
    if n > i {
        lemma_disc_error(s, lines, i, n - 1);
    }
}

/// The jobs whose ID matches `only` ignoring ASCII case.
pub open spec fn selected(js: Seq<JobView>, only: Seq<char>) -> Seq<JobView> {
    js.filter(|j: JobView| spec_lower(j.id) == spec_lower(only))
}

/// What a disc manifest yields: one job per image, numbered outputs for repeated names,
/// and with `only` given just the job with that ID (for the GameCube, an error when there
/// is none).
pub open spec fn spec_disc_inventory(
    s: DiscSystem,
    text: Seq<char>,
    only: Option<Seq<char>>,
) -> core::result::Result<Seq<JobView>, Seq<char>> {
    let ls = spec_lines(text);
    match disc_upto(s, ls, ls.len() as int) {
        Err(m) => Err(m),
        Ok(js) => match only {
            None => Ok(js),
            Some(o) => {
                let kept = selected(js, o);
                if kept.len() == 0 && s == DiscSystem::GameCube {
                    Err("unknown GameCube group: "@ + o)
                } else {
                    Ok(kept)
                }
            },
        },
    }
}

/// Whether some job reads a source of this name.
fn seen_name(jobs: &Vec<Job>, name: &[char]) -> (r: bool)
    requires
        forall|k: int| 0 <= k < jobs@.len() ==> (#[trigger] jobs@[k]).sources@.len() == 1,
    ensures
        r == name_seen(job_views(jobs@), name@),
{
    let ghost jv = job_views(jobs@);
    let mut i: usize = 0;
    while i < jobs.len()
        invariant
            i <= jobs@.len(),
            jv == job_views(jobs@),
            forall|k: int| 0 <= k < jobs@.len() ==> (#[trigger] jobs@[k]).sources@.len() == 1,
            forall|k: int| 0 <= k < i ==> (#[trigger] jv[k]).sources[0].name != name@,
        decreases jobs@.len() - i,
    {
        let job = &jobs[i];
        assert(jv[i as int] == job@);
        assert(job@.sources[0] == job.sources@[0]@);
        let n = chars_of(job.sources[0].name.as_str());
        if chars_eq(&n, name) {
            return true;
        }
        i += 1;
    }
    false
}

/// The number of jobs whose display name matches `name` ignoring ASCII case.
fn count_folded(jobs: &Vec<Job>, name: &[char]) -> (r: usize)
    ensures
        r == folded_count(job_views(jobs@), name@),
        r <= jobs@.len(),
{
    let mut count: usize = 0;
    for i in 0..jobs.len()
        invariant
            count == folded_count(job_views(jobs@.take(i as int)), name@),
            count <= i,
    {
        assert(job_views(jobs@.take(i + 1 as int)).drop_last() =~= job_views(jobs@.take(i as int)));
        let d = chars_of(jobs[i].display_name.as_str());
        if eq_ignore_case(&d, name) {
            count += 1;
        }
    }
    assert(jobs@.take(jobs@.len() as int) =~= jobs@);
    count
}

/// A `Message` error made of the given parts.
fn message_of(parts: Vec<char>) -> (r: PipelineError)
    ensures
        r matches PipelineError::Message(m) && m@ == parts@,
{
    PipelineError::Message(string_of(&parts))
}

/// What one manifest line adds after the jobs `prev`.
fn disc_line_job(s: DiscSystem, line: &[char], number: usize, prev: &Vec<Job>) -> (r: Result<
    Option<Job>,
>)
    requires
        forall|k: int| 0 <= k < prev@.len() ==> (#[trigger] prev@[k]).sources@.len() == 1,
        prev@.len() < usize::MAX,
    ensures
        match disc_line(s, line@, number as nat, job_views(prev@)) {
            Ok(None) => r matches Ok(None),
            Ok(Some(j)) => r matches Ok(Some(job)) && job@ == j && job.sources@.len() == 1,
            Err(msg) => r matches Err(PipelineError::Message(m)) && m@ == msg,
        },
{
    let label = match s {
        DiscSystem::GameCube => lit("GameCube"),
        DiscSystem::PlayStation2 => lit("PS2"),
    };
    let tab = ['\t'];
    assert(tab@ =~= seq!['\t']);
    let (size, name) = match split_once(line, &tab) {
        Some(parts) => parts,
        None => {
            if is_blank(line) {
                return Ok(None);
            }
            let mut m = label.clone();
            append_chars(&mut m, &lit(" manifest line "));
            append_chars(&mut m, &decimal(number as u64));
            append_chars(&mut m, &lit(" has no tab separator"));
            return Err(message_of(m));
        },
    };
    let name_s = string_of(&name);
    if !is_disc_name(s, &name_s) {
        return Ok(None);
    }
    if !is_safe_file_name(&name_s) {
        let mut m = label.clone();
        append_chars(&mut m, &lit(" manifest entry is not a plain filename: "));
        append_chars(&mut m, &name);
        return Err(message_of(m));
    }
    if seen_name(prev, &name) {
        let mut m = lit("duplicate ");
        append_chars(&mut m, &label);
        append_chars(&mut m, &lit(" manifest entry: "));
        append_chars(&mut m, &name);
        return Err(message_of(m));
    }
    let expected_size = match parse_u64(&size) {
        Some(v) => v,
        None => {
            let mut m = lit("invalid ");
            append_chars(&mut m, &label);
            append_chars(&mut m, &lit(" size on manifest line "));
            append_chars(&mut m, &decimal(number as u64));
            return Err(message_of(m));
        },
    };
    if expected_size == 0 {
        let mut m = label.clone();
        append_chars(&mut m, &lit(" manifest line "));
        append_chars(&mut m, &decimal(number as u64));
        match s {
            DiscSystem::GameCube => append_chars(&mut m, &lit(" has a zero-sized image")),
            DiscSystem::PlayStation2 => append_chars(&mut m, &lit(" has a zero-sized disc image")),
        }
        return Err(message_of(m));
    }
    let stem = match file_stem(&name_s) {
        Some(st) => st,
        None => {
            let mut m = lit("invalid ");
            append_chars(&mut m, &label);
            append_chars(&mut m, &lit(" filename: "));
            append_chars(&mut m, &name);
            return Err(message_of(m));
        },
    };
    let digest = sha256_name(&name_s, true);
    let mut id = match s {
        DiscSystem::GameCube => lit("GC-"),
        DiscSystem::PlayStation2 => lit("PS2-"),
    };
    let short = copy_range(&digest, 0, 12);
    assert(short@ =~= digest@.take(12));
    append_chars(&mut id, &short);
    let n = count_folded(prev, &stem) + 1;
    let mut output = stem.clone();
    if n != 1 {
        append_chars(&mut output, &lit("-"));
        append_chars(&mut output, &decimal(n as u64));
    }
    match s {
        DiscSystem::GameCube => append_chars(&mut output, &lit(".rvz")),
        DiscSystem::PlayStation2 => append_chars(&mut output, &lit(".chd")),
    }
    let source = SourceArtifact {
        title_id: string_of(&digest),
        expected_size,
        name: name_s,
        role: ComponentKind::Base,
    };
    let ghost sv = source@;
    let sources = vec![source];
    assert(artifact_views(sources@) =~= seq![sv]);
    Ok(Some(Job {
        id: string_of(&id),
        display_name: string_of(&stem),
        output_name: string_of(&output),
        sources,
    }))
}

/// The jobs of a disc manifest.
pub fn disc_inventory(s: DiscSystem, text: &str, only_job: Option<&str>) -> (r: Result<Vec<Job>>)
    ensures
        match spec_disc_inventory(s, text@, crate::wiiu::str_opt(only_job)) {
            Ok(js) => r matches Ok(v) && job_views(v@) == js,
            Err(msg) => r matches Err(PipelineError::Message(m)) && m@ == msg,
        },
{
    let t = chars_of(text);
    let ls = lines(&t);
    let ghost lv = views(ls@);
    let mut jobs: Vec<Job> = Vec::new();
    let mut idx: usize = 0;
    assert(job_views(jobs@) =~= Seq::<JobView>::empty());
    while idx < ls.len()
        invariant
            idx <= ls@.len(),
            lv == views(ls@),
            lv == spec_lines(text@),
            jobs@.len() <= idx,
            forall|k: int| 0 <= k < jobs@.len() ==> (#[trigger] jobs@[k]).sources@.len() == 1,
            disc_upto(s, lv, idx as int) == Ok::<Seq<JobView>, Seq<char>>(job_views(jobs@)),
        decreases ls@.len() - idx,
    {
        assert(lv[idx as int] == ls@[idx as int]@);
        match disc_line_job(s, &ls[idx], idx + 1, &jobs) {
            Err(e) => {
                proof {
                    lemma_disc_error(s, lv, idx + 1, lv.len() as int);
                }
                return Err(e);
            },
            Ok(None) => {},
            Ok(Some(job)) => {
                let ghost before = jobs@;
                jobs.push(job);
                assert(job_views(jobs@) =~= job_views(before).push(job@));
            },
        }
        idx += 1;
    }
    let ghost all = job_views(jobs@);
    match only_job {
        None => Ok(jobs),
        Some(o) => {
            let oc = chars_of(o);
            let mut kept: Vec<Job> = Vec::new();
            let n = jobs.len();
            let mut i: usize = 0;
            assert(jobs@.skip(0) =~= jobs@);
            while i < n
                invariant
                    i <= n,
                    n == all.len(),
                    oc@ == o@,
                    jobs@.len() == n - i,
                    forall|k: int| 0 <= k < jobs@.len() ==> (#[trigger] jobs@[k])@ == all[i + k],
                    job_views(kept@) == all.take(i as int).filter(
                        |j: JobView| spec_lower(j.id) == spec_lower(oc@),
                    ),
                decreases n - i,
            {
                let job = jobs.remove(0);
                assert(job@ == all[i as int]);
                let id = chars_of(job.id.as_str());
                let keep = eq_ignore_case(&id, &oc);
                let ghost before = kept@;
                assert(all.take(i + 1 as int).drop_last() =~= all.take(i as int));
                reveal_with_fuel(Seq::filter, 1);
                if keep {
                    kept.push(job);
                    assert(job_views(kept@) =~= job_views(before).push(all[i as int]));
                } else {
                    assert(job_views(kept@) =~= job_views(before));
                }
                i += 1;
            }
            assert(all.take(n as int) =~= all);
            if kept.len() == 0 {
                match s {
                    DiscSystem::GameCube => {
                        return Err(message_with("unknown GameCube group: ", &oc));
                    },
                    DiscSystem::PlayStation2 => {},
                }
            }
            Ok(kept)
        },
    }
}

/// What line `number` of a 3DS manifest contributes: nothing, a ZIP name with its size, or
/// the message of an error. A line is tab-separated fields: the size first, the name last.
pub open spec fn zip_line(line: Seq<char>, number: nat) -> core::result::Result<
    Option<(Seq<char>, u64)>,
    Seq<char>,
> {
    let fields = spec_split(line, '\t');
    if fields.len() < 2 {
        Err("invalid 3DS manifest line "@ + decimal_chars(number))
    } else {
        match spec_parse_u64(fields[0]) {
            None => Err("invalid 3DS size on line "@ + decimal_chars(number)),
            Some(size) => {
                let name = fields.last();
                if spec_ends_with(spec_lower(name), ".zip"@) {
                    Ok(Some((name, size)))
                } else {
                    Ok(None)
                }
            },
        }
    }
}

/// The ZIP entries of the first `i` lines of a 3DS manifest, or the first error.
pub open spec fn zip_upto(lines: Seq<Seq<char>>, i: int) -> core::result::Result<
    Seq<(Seq<char>, u64)>,
    Seq<char>,
>
    decreases i,
{
    if i <= 0 {
        Ok(seq![])
    } else {
        match zip_upto(lines, i - 1) {
            Err(m) => Err(m),
            Ok(es) => match zip_line(lines[i - 1], i as nat) {
                Err(m) => Err(m),
                Ok(None) => Ok(es),
                Ok(Some(e)) => Ok(es.push(e)),
            },
        }
    }
}

/// Once a line fails, so does every longer prefix of the manifest.
proof fn lemma_zip_error(lines: Seq<Seq<char>>, i: int, n: int)
    requires
        0 <= i <= n,
        zip_upto(lines, i) is Err,
    ensures
        zip_upto(lines, n) == zip_upto(lines, i),
    decreases n - i,
{
    if n > i {
        lemma_zip_error(lines, i, n - 1);
    }
}

/// Inserts an entry after the trailing entries whose names it does not precede: a stable
/// insertion by name.
pub open spec fn insert_by_name(s: Seq<(Seq<char>, u64)>, x: (Seq<char>, u64)) -> Seq<
    (Seq<char>, u64),
>
    decreases s.len(),
{
    if s.len() == 0 {
        seq![x]
    } else if lex_less(x.0, s.last().0) {
        insert_by_name(s.drop_last(), x).push(s.last())
    } else {
        s.push(x)
    }
}

/// The entries sorted by name, equal names in their manifest order.
pub open spec fn sort_by_name(s: Seq<(Seq<char>, u64)>) -> Seq<(Seq<char>, u64)>
    decreases s.len(),
{
    if s.len() == 0 {
        seq![]
    } else {
        insert_by_name(sort_by_name(s.drop_last()), s.last())
    }
}

/// The number of earlier stems equal to `stem`.
pub open spec fn stem_count(stems: Seq<Seq<char>>, stem: Seq<char>) -> nat
    decreases stems.len(),
{
    if stems.len() == 0 {
        0
    } else {
        stem_count(stems.drop_last(), stem) + if stems.last() == stem {
            1nat
        } else {
            0nat
        }
    }
}

/// The stems and jobs of the first `i` sorted entries; a job whose ID is not `only` is
/// left out but still counts for the numbering of outputs.
pub open spec fn zip_jobs_upto(
    es: Seq<(Seq<char>, u64)>,
    only: Option<Seq<char>>,
    i: int,
) -> core::result::Result<(Seq<Seq<char>>, Seq<JobView>), Seq<char>>
    decreases i,
{
    if i <= 0 {
        Ok((seq![], seq![]))
    } else {
        match zip_jobs_upto(es, only, i - 1) {
            Err(m) => Err(m),
            Ok((stems, js)) => {
                let (name, size) = es[i - 1];
                match spec_file_stem(name) {
                    None => Err("invalid ZIP filename: "@ + name),
                    Some(stem) => {
                        let id = "3DS-"@ + spec_sha256_hex(name_bytes(name), true).take(12);
                        let job = JobView {
                            id,
                            display_name: stem,
                            output_name: numbered_output(
                                stem,
                                stem_count(stems, stem) + 1,
                                ".cia"@,
                            ),
                            sources: seq![
                                ArtifactView {
                                    title_id: "archive"@,
                                    expected_size: size,
                                    name,
                                    role: ComponentKind::Base,
                                },
                            ],
                        };
                        if only matches Some(o) && o != id {
                            Ok((stems.push(stem), js))
                        } else {
                            Ok((stems.push(stem), js.push(job)))
                        }
                    },
                }
            },
        }
    }
}

/// Once an entry fails, so does every longer prefix.
proof fn lemma_zip_jobs_error(es: Seq<(Seq<char>, u64)>, only: Option<Seq<char>>, i: int, n: int)
    requires
        0 <= i <= n,
        zip_jobs_upto(es, only, i) is Err,
    ensures
        zip_jobs_upto(es, only, n) == zip_jobs_upto(es, only, i),
    decreases n - i,
{
    if n > i {
        lemma_zip_jobs_error(es, only, i, n - 1);
    }
}

/// What a 3DS manifest yields: one job per ZIP archive, in order of name, with `only`
/// (compared in upper case) keeping one job.
pub open spec fn spec_zip_inventory(text: Seq<char>, only: Option<Seq<char>>) -> core::result::Result<
    Seq<JobView>,
    Seq<char>,
> {
    let ls = spec_lines(text);
    match zip_upto(ls, ls.len() as int) {
        Err(m) => Err(m),
        Ok(es) => {
            let sorted = sort_by_name(es);
            let o = match only {
                Some(x) => Some(crate::text::spec_upper(x)),
                None => None,
            };
            match zip_jobs_upto(sorted, o, sorted.len() as int) {
                Err(m) => Err(m),
                Ok((_, js)) => Ok(js),
            }
        },
    }
}

/// What one line of a 3DS manifest contributes.
fn zip_line_entry(line: &[char], number: usize) -> (r: Result<Option<(Vec<char>, u64)>>)
    ensures
        match zip_line(line@, number as nat) {
            Ok(None) => r matches Ok(None),
            Ok(Some((n, size))) => r matches Ok(Some((n2, s2))) && n2@ == n && s2 == size,
            Err(msg) => r matches Err(PipelineError::Message(m)) && m@ == msg,
        },
{
    let fields = split_char(line, '\t');
    if fields.len() < 2 {
        return Err(message_with("invalid 3DS manifest line ", &decimal(number as u64)));
    }
    assert(views(fields@)[0] == fields@[0]@);
    let size = match parse_u64(&fields[0]) {
        Some(v) => v,
        None => return Err(message_with("invalid 3DS size on line ", &decimal(number as u64))),
    };
    let last = &fields[fields.len() - 1];
    assert(views(fields@).last() == last@);
    if ends_with(&to_lower(last), &lit(".zip")) {
        Ok(Some((last.clone(), size)))
    } else {
        Ok(None)
    }
}

/// Inserts an entry into entries sorted by name, after those with an equal name.
fn insert_named(v: &mut Vec<(Vec<char>, u64)>, x: (Vec<char>, u64))
    ensures
        named_views(final(v)@) == insert_by_name(named_views(old(v)@), (x.0@, x.1)),
{
    let ghost s = named_views(v@);
    let ghost xv = (x.0@, x.1);
    let mut p = v.len();
    assert(s.take(p as int) =~= s);
    assert(s.skip(p as int) =~= Seq::<(Seq<char>, u64)>::empty());
    while p > 0 && chars_less(&x.0, &v[p - 1].0)
        invariant
            p <= v@.len(),
            v@ == old(v)@,
            s == named_views(v@),
            xv == (x.0@, x.1),
            insert_by_name(s, xv) == insert_by_name(s.take(p as int), xv) + s.skip(p as int),
        decreases p,
    {
        proof {
            let t = s.take(p as int);
            assert(t.drop_last() =~= s.take(p - 1));
            assert(t.last() == s[p - 1]);
            assert(insert_by_name(s.take(p - 1), xv).push(s[p - 1]) + s.skip(p as int)
                =~= insert_by_name(s.take(p - 1), xv) + s.skip(p - 1));
        }
        p -= 1;
    }
    proof {
        if p == 0 {
            assert(s.take(0) =~= Seq::<(Seq<char>, u64)>::empty());
        } else {
            assert(s.take(p as int).last() == s[p - 1]);
        }
    }
    v.insert(p, x);
    assert(named_views(v@) =~= insert_by_name(s.take(p as int), xv) + s.skip(p as int));
}

/// The views of named entries.
pub open spec fn named_views(v: Seq<(Vec<char>, u64)>) -> Seq<(Seq<char>, u64)> {
    v.map_values(|e: (Vec<char>, u64)| (e.0@, e.1))
}

/// The number of earlier stems equal to `stem`.
fn count_stems(stems: &Vec<Vec<char>>, stem: &[char]) -> (r: usize)
    ensures
        r == stem_count(views(stems@), stem@),
        r <= stems@.len(),
{
    let mut count: usize = 0;
    for i in 0..stems.len()
        invariant
            count == stem_count(views(stems@.take(i as int)), stem@),
            count <= i,
    {
        assert(views(stems@.take(i + 1 as int)).drop_last() =~= views(stems@.take(i as int)));
        if chars_eq(&stems[i], stem) {
            count += 1;
        }
    }
    assert(stems@.take(stems@.len() as int) =~= stems@);
    count
}

/// The jobs of a 3DS manifest.
pub fn zip_inventory(text: &str, only_job: Option<&str>) -> (r: Result<Vec<Job>>)
    ensures
        match spec_zip_inventory(text@, crate::wiiu::str_opt(only_job)) {
            Ok(js) => r matches Ok(v) && job_views(v@) == js,
            Err(msg) => r matches Err(PipelineError::Message(m)) && m@ == msg,
        },
{
    let only: Option<Vec<char>> = match only_job {
        Some(o) => Some(crate::text::to_upper(&chars_of(o))),
        None => None,
    };
    let t = chars_of(text);
    let ls = lines(&t);
    let ghost lv = views(ls@);
    let mut sorted: Vec<(Vec<char>, u64)> = Vec::new();
    let ghost mut es: Seq<(Seq<char>, u64)> = seq![];
    let mut idx: usize = 0;
    while idx < ls.len()
        invariant
            idx <= ls@.len(),
            lv == views(ls@),
            lv == spec_lines(text@),
            zip_upto(lv, idx as int) == Ok::<Seq<(Seq<char>, u64)>, Seq<char>>(es),
            named_views(sorted@) == sort_by_name(es),
        decreases ls@.len() - idx,
    {
        assert(lv[idx as int] == ls@[idx as int]@);
        match zip_line_entry(&ls[idx], idx + 1) {
            Err(e) => {
                proof {
                    lemma_zip_error(lv, idx + 1, lv.len() as int);
                }
                return Err(e);
            },
            Ok(None) => {},
            Ok(Some(entry)) => {
                let ghost ev = (entry.0@, entry.1);
                let ghost old_es = es;
                insert_named(&mut sorted, entry);
                proof {
                    es = old_es.push(ev);
                    assert(es.drop_last() =~= old_es);
                }
            },
        }
        idx += 1;
    }
    let ghost sv = named_views(sorted@);
    let ghost o = chars_opt_upper(only_job);
    assert(o == crate::wiiu::chars_opt(only));
    let mut stems: Vec<Vec<char>> = Vec::new();
    let mut jobs: Vec<Job> = Vec::new();
    let n = sorted.len();
    let mut i: usize = 0;
    let ghost all = sorted@;
    assert(sorted@.skip(0) =~= sorted@);
    assert(job_views(jobs@) =~= Seq::<JobView>::empty());
    assert(views(stems@) =~= Seq::<Seq<char>>::empty());
    while i < n
        invariant
            i <= n,
            n == sv.len(),
            sv == named_views(all),
            sorted@ == all.skip(i as int),
            stems@.len() == i,
            o == crate::wiiu::chars_opt(only),
            spec_zip_inventory(text@, crate::wiiu::str_opt(only_job)) == match zip_jobs_upto(
                sv,
                o,
                n as int,
            ) {
                Err(m) => Err(m),
                Ok((_, js)) => Ok::<Seq<JobView>, Seq<char>>(js),
            },
            zip_jobs_upto(sv, o, i as int) == Ok::<
                (Seq<Seq<char>>, Seq<JobView>),
                Seq<char>,
            >((views(stems@), job_views(jobs@))),
        decreases n - i,
    {
        let (name, size) = sorted.remove(0);
        assert(sorted@ =~= all.skip(i + 1 as int));
        assert(sv[i as int] == (name@, size));
        let name_s = string_of(&name);
        let stem = match file_stem(&name_s) {
            Some(st) => st,
            None => {
                proof {
                    lemma_zip_jobs_error(sv, o, i + 1, n as int);
                }
                return Err(message_with("invalid ZIP filename: ", &name));
            },
        };
        let count = count_stems(&stems, &stem) + 1;
        let mut output = stem.clone();
        if count != 1 {
            append_chars(&mut output, &lit("-"));
            append_chars(&mut output, &decimal(count as u64));
        }
        append_chars(&mut output, &lit(".cia"));
        let digest = sha256_name(&name_s, true);
        let short = copy_range(&digest, 0, 12);
        assert(short@ =~= digest@.take(12));
        let mut id = lit("3DS-");
        append_chars(&mut id, &short);
        let ghost before_stems = stems@;
        stems.push(stem.clone());
        assert(views(stems@) =~= views(before_stems).push(stem@));
        let skip = match &only {
            Some(w) => !chars_eq(w, &id),
            None => false,
        };
        if !skip {
            let source = SourceArtifact {
                title_id: "archive".to_owned(),
                expected_size: size,
                name: name_s,
                role: ComponentKind::Base,
            };
            let ghost srcv = source@;
            let sources = vec![source];
            assert(artifact_views(sources@) =~= seq![srcv]);
            let job = Job {
                id: string_of(&id),
                display_name: string_of(&stem),
                output_name: string_of(&output),
                sources,
            };
            let ghost before = jobs@;
            jobs.push(job);
            assert(job_views(jobs@) =~= job_views(before).push(job@));
        }
        i += 1;
    }
    Ok(jobs)
}

/// `only` in upper case.
pub open spec fn chars_opt_upper(only: Option<&str>) -> Option<Seq<char>> {
    match only {
        Some(x) => Some(crate::text::spec_upper(x@)),
        None => None,
    }
}

/// The jobs read from a GameCube downloader manifest.
#[derive(Clone, Debug, Default, PartialEq, Eq)]
pub struct GameCubeInventory {
    pub jobs: Vec<Job>,
}

impl GameCubeInventory {
    /// Builds the GameCube jobs of a manifest's text: one per `.iso` image.
    ///
    /// Fails on a malformed line, a name that is not a plain file name, a repeated name, a
    /// size that is not a positive number, or an `only_job` that names no job.
    pub fn parse(text: &str, only_job: Option<&str>) -> (r: Result<GameCubeInventory>)
        ensures
            match spec_disc_inventory(DiscSystem::GameCube, text@, crate::wiiu::str_opt(only_job)) {
                Ok(js) => r matches Ok(inv) && job_views(inv.jobs@) == js,
                Err(msg) => r matches Err(PipelineError::Message(m)) && m@ == msg,
            },
    {
        match disc_inventory(DiscSystem::GameCube, text, only_job) {
            Ok(jobs) => Ok(GameCubeInventory { jobs }),
            Err(e) => Err(e),
        }
    }
}

/// The jobs read from a PlayStation 2 downloader manifest.
#[derive(Clone, Debug, Default, PartialEq, Eq)]
pub struct Ps2Inventory {
    pub jobs: Vec<Job>,
}

impl Ps2Inventory {
    /// Builds the PS2 jobs of a manifest's text: one per `.iso` or `.bin` image.
    ///
    /// Fails on a malformed line, a name that is not a plain file name, a repeated name, or
    /// a size that is not a positive number.
    pub fn parse(text: &str, only_job: Option<&str>) -> (r: Result<Ps2Inventory>)
        ensures
            match spec_disc_inventory(
                DiscSystem::PlayStation2,
                text@,
                crate::wiiu::str_opt(only_job),
            ) {
                Ok(js) => r matches Ok(inv) && job_views(inv.jobs@) == js,
                Err(msg) => r matches Err(PipelineError::Message(m)) && m@ == msg,
            },
    {
        match disc_inventory(DiscSystem::PlayStation2, text, only_job) {
            Ok(jobs) => Ok(Ps2Inventory { jobs }),
            Err(e) => Err(e),
        }
    }
}

/// The jobs read from a 3DS downloader manifest.
#[derive(Clone, Debug, Default, PartialEq, Eq)]
pub struct Nintendo3dsInventory {
    pub jobs: Vec<Job>,
}

impl Nintendo3dsInventory {
    /// Builds the 3DS jobs of a manifest's text: one per `.zip` archive, in order of name.
    ///
    /// Fails on a line without a size and a name, a size that is not a number, or a name
    /// without a file stem.
    pub fn parse(text: &str, only_job: Option<&str>) -> (r: Result<Nintendo3dsInventory>)
        ensures
            match spec_zip_inventory(text@, crate::wiiu::str_opt(only_job)) {
                Ok(js) => r matches Ok(inv) && job_views(inv.jobs@) == js,
                Err(msg) => r matches Err(PipelineError::Message(m)) && m@ == msg,
            },
    {
        match zip_inventory(text, only_job) {
            Ok(jobs) => Ok(Nintendo3dsInventory { jobs }),
            Err(e) => Err(e),
        }
    }
}


/// Manifest line `line` is a size, a tab and the name `name`, and its size field reads as
/// `size`.
pub open spec fn line_lists(line: Seq<char>, name: Seq<char>, size: u64) -> bool {
    spec_split_once(line, seq!['\t']) matches Some((field, n)) && n == name && spec_parse_u64(field)
        == Some(size)
}

/// Some line of the manifest lists `name` with the size `size`.
pub open spec fn manifest_lists(ls: Seq<Seq<char>>, name: Seq<char>, size: u64) -> bool {
    exists|l: int| 0 <= l < ls.len() && line_lists(#[trigger] ls[l], name, size)
}

/// Every job of the first `i` lines reads one source, listed on one of those lines with its
/// size.
proof fn lemma_disc_upto_sizes(s: DiscSystem, ls: Seq<Seq<char>>, i: int)
    requires
        0 <= i <= ls.len(),
    ensures
        disc_upto(s, ls, i) matches Ok(js) ==> forall|v: int|
            0 <= v < js.len() ==> (#[trigger] js[v]).sources.len() == 1 && manifest_lists(
                ls,
                js[v].sources[0].name,
                js[v].sources[0].expected_size,
            ),
    decreases i,
{
    if i > 0 {
        lemma_disc_upto_sizes(s, ls, i - 1);
        if let Ok(js) = disc_upto(s, ls, i - 1) {
            if let Ok(Some(j)) = disc_line(s, ls[i - 1], i as nat, js) {
                assert(line_lists(ls[i - 1], j.sources[0].name, j.sources[0].expected_size));
                let n = js.push(j);
                assert forall|v: int| 0 <= v < n.len() implies (#[trigger] n[v]).sources.len() == 1
                    && manifest_lists(ls, n[v].sources[0].name, n[v].sources[0].expected_size) by {
                    if v < js.len() {
                        assert(n[v] == js[v]);
                    }
                }
            }
        }
    }
}

/// A disc manifest's jobs each read one image, with the size that the manifest line naming
/// that image gives: every job's source has as expected size the number in the size field
/// of a line that lists its name.
pub proof fn lemma_disc_sizes_from_manifest(s: DiscSystem, text: Seq<char>, only: Option<Seq<char>>)
    ensures
        spec_disc_inventory(s, text, only) matches Ok(js) ==> forall|v: int|
            0 <= v < js.len() ==> (#[trigger] js[v]).sources.len() == 1 && manifest_lists(
                spec_lines(text),
                js[v].sources[0].name,
                js[v].sources[0].expected_size,
            ),
{
    let ls = spec_lines(text);
    lemma_disc_upto_sizes(s, ls, ls.len() as int);
    if let Ok(all) = disc_upto(s, ls, ls.len() as int) {
        if let Some(o) = only {
            let pred = |j: JobView| spec_lower(j.id) == spec_lower(o);
            let kept = all.filter(pred);
            assert(selected(all, o) == kept);
            assert forall|v: int| 0 <= v < kept.len() implies (#[trigger] kept[v]).sources.len() == 1
                && manifest_lists(ls, kept[v].sources[0].name, kept[v].sources[0].expected_size) by {
                assert(kept.contains(kept[v]));
                all.lemma_filter_contains_rev(pred, kept[v]);
                let w = choose|w: int| 0 <= w < all.len() && all[w] == kept[v];
                assert(all[w].sources.len() == 1);
            }
        }
    }
}

/// Line `line` of a disc manifest names an image of the system: a size, a tab and a name
/// that the system converts.
pub open spec fn names_disc_image(s: DiscSystem, line: Seq<char>, name: Seq<char>) -> bool {
    spec_split_once(line, seq!['\t']) matches Some((_, n)) && n == name && disc_name(s, name)
}

/// Every image that the first `i` lines name has a job of its own name.
proof fn lemma_disc_upto_complete(s: DiscSystem, ls: Seq<Seq<char>>, i: int)
    requires
        0 <= i <= ls.len(),
    ensures
        disc_upto(s, ls, i) matches Ok(js) ==> forall|l: int, name: Seq<char>|
            0 <= l < i && #[trigger] names_disc_image(s, ls[l], name) ==> exists|v: int|
                0 <= v < js.len() && (#[trigger] js[v]).sources[0].name == name,
    decreases i,
{
    if i > 0 {
        lemma_disc_upto_complete(s, ls, i - 1);
        if let Ok(n) = disc_upto(s, ls, i) {
            let js = disc_upto(s, ls, i - 1)->Ok_0;
            assert(disc_upto(s, ls, i - 1) is Ok);
            assert forall|l: int, name: Seq<char>|
                0 <= l < i && #[trigger] names_disc_image(s, ls[l], name) implies exists|v: int|
                    0 <= v < n.len() && (#[trigger] n[v]).sources[0].name == name by {
                if l < i - 1 {
                    let v = choose|v: int| 0 <= v < js.len() && (#[trigger] js[v]).sources[0].name == name;
                    assert(n[v] == js[v]);
                } else {
                    assert(disc_line(s, ls[i - 1], i as nat, js) matches Ok(Some(_)));
                    let j = disc_line(s, ls[i - 1], i as nat, js)->Ok_0->0;
                    assert(n == js.push(j));
                    assert(n[js.len() as int] == j);
                }
            }
        }
    }
}

/// A disc manifest read without a job filter has a job for every image it names: each line
/// that names an image the system converts gives a job whose source is that image.
pub proof fn lemma_disc_every_image_has_a_job(s: DiscSystem, text: Seq<char>)
    ensures
        spec_disc_inventory(s, text, None) matches Ok(js) ==> forall|l: int, name: Seq<char>|
            0 <= l < spec_lines(text).len() && #[trigger] names_disc_image(s, spec_lines(text)[l], name)
                ==> exists|v: int| 0 <= v < js.len() && (#[trigger] js[v]).sources[0].name == name,
{
    let ls = spec_lines(text);
    lemma_disc_upto_complete(s, ls, ls.len() as int);
}

/// A line of a 3DS manifest whose first field reads as `size` and whose last field is
/// `name`.
pub open spec fn zip_line_lists(line: Seq<char>, name: Seq<char>, size: u64) -> bool {
    let fields = spec_split(line, '\t');
    fields.len() >= 2 && fields.last() == name && spec_parse_u64(fields[0]) == Some(size)
}

/// Some line of a 3DS manifest lists `name` with the size `size`.
pub open spec fn zip_manifest_lists(ls: Seq<Seq<char>>, name: Seq<char>, size: u64) -> bool {
    exists|l: int| 0 <= l < ls.len() && zip_line_lists(#[trigger] ls[l], name, size)
}

/// Every ZIP entry of the first `i` lines is listed on one of them with its size.
proof fn lemma_zip_upto_sizes(ls: Seq<Seq<char>>, i: int)
    requires
        0 <= i <= ls.len(),
    ensures
        zip_upto(ls, i) matches Ok(es) ==> forall|e: int|
            0 <= e < es.len() ==> zip_manifest_lists(ls, (#[trigger] es[e]).0, es[e].1),
    decreases i,
{
    if i > 0 {
        lemma_zip_upto_sizes(ls, i - 1);
        if let Ok(es) = zip_upto(ls, i - 1) {
            if let Ok(Some(x)) = zip_line(ls[i - 1], i as nat) {
                assert(zip_line_lists(ls[i - 1], x.0, x.1));
                let n = es.push(x);
                assert forall|e: int| 0 <= e < n.len() implies zip_manifest_lists(ls, (#[trigger] n[e]).0, n[e].1) by {
                    if e < es.len() {
                        assert(n[e] == es[e]);
                    }
                }
            }
        }
    }
}

/// Inserting by name adds only the inserted entry.
proof fn lemma_insert_by_name_from(s: Seq<(Seq<char>, u64)>, x: (Seq<char>, u64))
    ensures
        forall|k: int|
            0 <= k < insert_by_name(s, x).len() ==> s.contains(#[trigger] insert_by_name(s, x)[k])
                || insert_by_name(s, x)[k] == x,
    decreases s.len(),
{
    let r = insert_by_name(s, x);
    if s.len() > 0 && lex_less(x.0, s.last().0) {
        let d = s.drop_last();
        lemma_insert_by_name_from(d, x);
        let t = insert_by_name(d, x);
        assert forall|k: int| 0 <= k < r.len() implies s.contains(#[trigger] r[k]) || r[k] == x by {
            if k < t.len() {
                assert(r[k] == t[k]);
                if d.contains(t[k]) {
                    let m = choose|m: int| 0 <= m < d.len() && d[m] == t[k];
                    assert(s[m] == d[m]);
                }
            } else {
                assert(r[k] == s.last());
                assert(s[s.len() - 1] == s.last());
            }
        }
    } else if s.len() > 0 {
        assert forall|k: int| 0 <= k < r.len() implies s.contains(#[trigger] r[k]) || r[k] == x by {
            if k < s.len() {
                assert(r[k] == s[k]);
            }
        }
    }
}

/// Sorting by name adds no entry.
proof fn lemma_sort_by_name_from(s: Seq<(Seq<char>, u64)>)
    ensures
        forall|k: int| 0 <= k < sort_by_name(s).len() ==> s.contains(#[trigger] sort_by_name(s)[k]),
    decreases s.len(),
{
    if s.len() > 0 {
        let d = s.drop_last();
        lemma_sort_by_name_from(d);
        let t = sort_by_name(d);
        lemma_insert_by_name_from(t, s.last());
        let r = sort_by_name(s);
        assert forall|k: int| 0 <= k < r.len() implies s.contains(#[trigger] r[k]) by {
            if r[k] == s.last() {
                assert(s[s.len() - 1] == s.last());
            } else {
                assert(t.contains(r[k]));
                let m = choose|m: int| 0 <= m < t.len() && t[m] == r[k];
                assert(d.contains(t[m]));
                let q = choose|q: int| 0 <= q < d.len() && d[q] == t[m];
                assert(s[q] == d[q]);
            }
        }
    }
}

/// Every job of the first `i` sorted entries reads one source, an entry with its size.
proof fn lemma_zip_jobs_sizes(es: Seq<(Seq<char>, u64)>, only: Option<Seq<char>>, i: int)
    requires
        0 <= i <= es.len(),
    ensures
        zip_jobs_upto(es, only, i) matches Ok((_, js)) ==> forall|v: int|
            0 <= v < js.len() ==> (#[trigger] js[v]).sources.len() == 1 && es.contains(
                (js[v].sources[0].name, js[v].sources[0].expected_size),
            ),
    decreases i,
{
    if i > 0 {
        lemma_zip_jobs_sizes(es, only, i - 1);
        if let Ok((stems, js)) = zip_jobs_upto(es, only, i - 1) {
            if let Ok((_, n)) = zip_jobs_upto(es, only, i) {
                assert(es.contains(es[i - 1]));
                assert forall|v: int| 0 <= v < n.len() implies (#[trigger] n[v]).sources.len() == 1
                    && es.contains((n[v].sources[0].name, n[v].sources[0].expected_size)) by {
                    if v < js.len() {
                        assert(n[v] == js[v]);
                    }
                }
            }
        }
    }
}

/// A 3DS manifest's jobs each read one ZIP archive, with the size that the manifest line
/// naming it gives: every job's source has as expected size the number in the first field
/// of a line whose last field is its name.
pub proof fn lemma_zip_sizes_from_manifest(text: Seq<char>, only: Option<Seq<char>>)
    ensures
        spec_zip_inventory(text, only) matches Ok(js) ==> forall|v: int|
            0 <= v < js.len() ==> (#[trigger] js[v]).sources.len() == 1 && zip_manifest_lists(
                spec_lines(text),
                js[v].sources[0].name,
                js[v].sources[0].expected_size,
            ),
{
    let ls = spec_lines(text);
    lemma_zip_upto_sizes(ls, ls.len() as int);
    if let Ok(es) = zip_upto(ls, ls.len() as int) {
        let sorted = sort_by_name(es);
        let o = match only {
            Some(x) => Some(crate::text::spec_upper(x)),
            None => None,
        };
        lemma_sort_by_name_from(es);
        lemma_zip_jobs_sizes(sorted, o, sorted.len() as int);
        if let Ok((_, js)) = zip_jobs_upto(sorted, o, sorted.len() as int) {
            assert forall|v: int| 0 <= v < js.len() implies (#[trigger] js[v]).sources.len() == 1
                && zip_manifest_lists(ls, js[v].sources[0].name, js[v].sources[0].expected_size) by {
                let x = (js[v].sources[0].name, js[v].sources[0].expected_size);
                let m = choose|m: int| 0 <= m < sorted.len() && sorted[m] == x;
                assert(es.contains(sorted[m]));
                let q = choose|q: int| 0 <= q < es.len() && es[q] == x;
                assert(zip_manifest_lists(ls, es[q].0, es[q].1));
            }
        }
    }
}


/// Line `line` of a 3DS manifest names the ZIP archive `name` with the size `size`.
pub open spec fn names_zip(line: Seq<char>, name: Seq<char>, size: u64) -> bool {
    zip_line_lists(line, name, size) && spec_ends_with(spec_lower(name), ".zip"@)
}

/// Every archive that the first `i` lines name is an entry.
proof fn lemma_zip_upto_complete(ls: Seq<Seq<char>>, i: int)
    requires
        0 <= i <= ls.len(),
    ensures
        zip_upto(ls, i) matches Ok(es) ==> forall|l: int, name: Seq<char>, size: u64|
            0 <= l < i && #[trigger] names_zip(ls[l], name, size) ==> es.contains((name, size)),
    decreases i,
{
    if i > 0 {
        lemma_zip_upto_complete(ls, i - 1);
        if let Ok(n) = zip_upto(ls, i) {
            let es = zip_upto(ls, i - 1)->Ok_0;
            assert(zip_upto(ls, i - 1) is Ok);
            assert forall|l: int, name: Seq<char>, size: u64|
                0 <= l < i && #[trigger] names_zip(ls[l], name, size) implies n.contains((name, size)) by {
                if l < i - 1 {
                    let q = choose|q: int| 0 <= q < es.len() && es[q] == (name, size);
                    assert(zip_line(ls[i - 1], i as nat) is Ok);
                    if let Ok(Some(x)) = zip_line(ls[i - 1], i as nat) {
                        assert(n == es.push(x));
                    }
                    assert(n[q] == es[q]);
                } else {
                    assert(n == es.push((name, size)));
                    assert(n[es.len() as int] == (name, size));
                }
            }
        }
    }
}

/// Inserting by name keeps every entry and adds the inserted one.
proof fn lemma_insert_by_name_keeps(s: Seq<(Seq<char>, u64)>, x: (Seq<char>, u64))
    ensures
        insert_by_name(s, x).contains(x),
        forall|k: int| 0 <= k < s.len() ==> insert_by_name(s, x).contains(#[trigger] s[k]),
    decreases s.len(),
{
    let r = insert_by_name(s, x);
    if s.len() > 0 && lex_less(x.0, s.last().0) {
        let d = s.drop_last();
        lemma_insert_by_name_keeps(d, x);
        let t = insert_by_name(d, x);
        assert(r == t.push(s.last()));
        let m = choose|m: int| 0 <= m < t.len() && t[m] == x;
        assert(r[m] == t[m]);
        assert forall|k: int| 0 <= k < s.len() implies r.contains(#[trigger] s[k]) by {
            if k < d.len() {
                assert(d[k] == s[k]);
                assert(t.contains(d[k]));
                let q = choose|q: int| 0 <= q < t.len() && t[q] == d[k];
                assert(r[q] == t[q]);
            } else {
                assert(r[t.len() as int] == s.last());
            }
        }
    } else if s.len() > 0 {
        assert(r == s.push(x));
        assert(r[s.len() as int] == x);
        assert forall|k: int| 0 <= k < s.len() implies r.contains(#[trigger] s[k]) by {
            assert(r[k] == s[k]);
        }
    } else {
        assert(r[0] == x);
    }
}

/// Sorting by name keeps every entry.
proof fn lemma_sort_by_name_keeps(s: Seq<(Seq<char>, u64)>)
    ensures
        forall|k: int| 0 <= k < s.len() ==> sort_by_name(s).contains(#[trigger] s[k]),
    decreases s.len(),
{
    if s.len() > 0 {
        let d = s.drop_last();
        lemma_sort_by_name_keeps(d);
        let t = sort_by_name(d);
        lemma_insert_by_name_keeps(t, s.last());
        let r = sort_by_name(s);
        assert forall|k: int| 0 <= k < s.len() implies r.contains(#[trigger] s[k]) by {
            if k < d.len() {
                assert(d[k] == s[k]);
                assert(t.contains(d[k]));
                let q = choose|q: int| 0 <= q < t.len() && t[q] == d[k];
                assert(r.contains(t[q]));
            } else {
                assert(s[k] == s.last());
            }
        }
    }
}

/// Without a filter, the `e`-th sorted entry makes the `e`-th job.
proof fn lemma_zip_jobs_all(es: Seq<(Seq<char>, u64)>, i: int)
    requires
        0 <= i <= es.len(),
    ensures
        zip_jobs_upto(es, None, i) matches Ok((_, js)) ==> js.len() == i && forall|e: int|
            0 <= e < i ==> (#[trigger] js[e]).sources[0].name == es[e].0 && js[e].sources[0].expected_size
                == es[e].1,
    decreases i,
{
    if i > 0 {
        lemma_zip_jobs_all(es, i - 1);
        if let Ok((_, n)) = zip_jobs_upto(es, None, i) {
            let js = zip_jobs_upto(es, None, i - 1)->Ok_0.1;
            assert(zip_jobs_upto(es, None, i - 1) is Ok);
            assert forall|e: int| 0 <= e < i implies (#[trigger] n[e]).sources[0].name == es[e].0
                && n[e].sources[0].expected_size == es[e].1 by {
                if e < i - 1 {
                    assert(n[e] == js[e]);
                }
            }
        }
    }
}

/// A 3DS manifest read without a job filter has a job for every ZIP archive it names: each
/// line that names a `.zip` archive (any case) with its size gives a job whose source is
/// that archive with that size.
pub proof fn lemma_zip_every_archive_has_a_job(text: Seq<char>)
    ensures
        spec_zip_inventory(text, None) matches Ok(js) ==> forall|l: int, name: Seq<char>, size: u64|
            0 <= l < spec_lines(text).len() && #[trigger] names_zip(spec_lines(text)[l], name, size)
                ==> exists|v: int|
                0 <= v < js.len() && (#[trigger] js[v]).sources[0].name == name && js[v].sources[0].expected_size
                    == size,
{
    let ls = spec_lines(text);
    lemma_zip_upto_complete(ls, ls.len() as int);
    if let Ok(res) = spec_zip_inventory(text, None) {
        assert(zip_upto(ls, ls.len() as int) is Ok);
        let es = zip_upto(ls, ls.len() as int)->Ok_0;
        let sorted = sort_by_name(es);
        lemma_sort_by_name_keeps(es);
        lemma_zip_jobs_all(sorted, sorted.len() as int);
        let o: Option<Seq<char>> = None;
        assert(zip_jobs_upto(sorted, o, sorted.len() as int) is Ok);
        let js = zip_jobs_upto(sorted, o, sorted.len() as int)->Ok_0.1;
        assert(res == js);
        assert(js.len() == sorted.len());
        assert forall|l: int, name: Seq<char>, size: u64|
            0 <= l < ls.len() && #[trigger] names_zip(ls[l], name, size) implies exists|v: int|
                0 <= v < res.len() && (#[trigger] res[v]).sources[0].name == name
                    && res[v].sources[0].expected_size == size by {
            assert(es.contains((name, size)));
            let q = choose|q: int| 0 <= q < es.len() && es[q] == (name, size);
            assert(sorted.contains(es[q]));
            let v = choose|v: int| 0 <= v < sorted.len() && sorted[v] == es[q];
            assert(res[v].sources[0].name == sorted[v].0);
        }
    }
}

} // verus!
