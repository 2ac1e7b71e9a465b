//! The figures of a status snapshot, counted from the names found in a profile's folders
//! and from its completion records.
use vstd::prelude::*;

use crate::config::{paths_equal, same_path, ProfileConfig, SystemKind};
use crate::manifest::{extension, spec_extension};
use crate::order::{insert_sorted_unique, lemma_sorted_set_len, strictly_sorted};
use crate::preflight::same_word;
use crate::numbers::{parse_u64, parse_usize, spec_parse_u64, spec_parse_usize};
use crate::text::{
    chars_eq, chars_of, ends_with, eq_ignore_case, lines, lit, spec_ends_with, spec_lines,
    spec_lower, spec_trim, string_of, to_lower, trim, views,
};

verus! {

/// The texts of a sequence of strings.
pub open spec fn names_of(s: Seq<String>) -> Seq<Seq<char>> {
    s.map_values(|x: String| x@)
}

/// How many of the names satisfy `p`.
pub open spec fn count_where(s: Seq<Seq<char>>, p: spec_fn(Seq<char>) -> bool) -> nat
    decreases s.len(),
{
    if s.len() == 0 {
        0
    } else {
        count_where(s.drop_last(), p) + if p(s.last()) {
            1nat
        } else {
            0nat
        }
    }
}

/// Whether a file name's extension is `ext`, ignoring ASCII case.
pub open spec fn has_extension(name: Seq<char>, ext: Seq<char>) -> bool {
    spec_extension(name) matches Some(e) && same_word(e, ext)
}

/// The names with the extension `ext`.
pub open spec fn extension_is(ext: Seq<char>) -> spec_fn(Seq<char>) -> bool {
    |n: Seq<char>| has_extension(n, ext)
}

/// Whether a file name's extension is `ext`, ignoring ASCII case.
pub(crate) fn name_has_extension(name: &String, ext: &[char]) -> (r: bool)
    ensures
        r == has_extension(name@, ext@),
{
    match extension(name) {
        Some(e) => eq_ignore_case(&e, ext),
        None => false,
    }
}

/// One step of a count.
proof fn lemma_count_step(s: Seq<Seq<char>>, p: spec_fn(Seq<char>) -> bool, i: int)
    requires
        0 <= i < s.len(),
    ensures
        count_where(s.take(i + 1), p) == count_where(s.take(i), p) + if p(s[i]) {
            1nat
        } else {
            0nat
        },
        count_where(s.take(i), p) <= i,
    decreases i,
{
    assert(s.take(i + 1).drop_last() =~= s.take(i));
    if i > 0 {
        lemma_count_step(s, p, i - 1);
    } else {
        assert(s.take(0).len() == 0);
    }
}

/// The number of names with the extension `ext`, ignoring ASCII case.
pub fn count_extension(names: &Vec<String>, ext: &str) -> (r: usize)
    ensures
        r == count_where(names_of(names@), extension_is(ext@)),
{
    let ghost s = names_of(names@);
    let e = chars_of(ext);
    let mut n: usize = 0;
    for i in 0..names.len()
        invariant
            s == names_of(names@),
            e@ == ext@,
            n == count_where(s.take(i as int), extension_is(ext@)),
            n <= i,
    {
        proof {
            lemma_count_step(s, extension_is(ext@), i as int);
        }
        if name_has_extension(&names[i], &e) {
            n = n + 1;
        }
    }
    assert(s.take(s.len() as int) =~= s);
    n
}

/// Whether a name in an output folder is an output of the profile: for a PS2 profile with
/// mixed outputs a CHD, ISO or BIN file, otherwise a file with the output format's
/// extension.
pub open spec fn is_output_name(p: ProfileConfig, n: Seq<char>) -> bool {
    if p.system == SystemKind::PlayStation2 && p.output_format@ == "mixed"@ {
        has_extension(n, "chd"@) || has_extension(n, "iso"@) || has_extension(n, "bin"@)
    } else {
        has_extension(n, p.output_format@)
    }
}

/// The outputs of a profile.
pub open spec fn output_names(p: ProfileConfig) -> spec_fn(Seq<char>) -> bool {
    |n: Seq<char>| is_output_name(p, n)
}

/// Whether a profile writes mixed PS2 outputs.
fn mixed_ps2(p: &ProfileConfig) -> (r: bool)
    ensures
        r == (p.system == SystemKind::PlayStation2 && p.output_format@ == "mixed"@),
{
    let ps2 = match p.system {
        SystemKind::PlayStation2 => true,
        _ => false,
    };
    ps2 && chars_eq(&chars_of(p.output_format.as_str()), &lit("mixed"))
}

/// The number of outputs among the names of a folder.
pub fn count_outputs(p: &ProfileConfig, names: &Vec<String>) -> (r: usize)
    ensures
        r == count_where(names_of(names@), output_names(*p)),
{
    let ghost s = names_of(names@);
    let mixed = mixed_ps2(p);
    let format = chars_of(p.output_format.as_str());
    let (chd, iso, bin) = (lit("chd"), lit("iso"), lit("bin"));
    let mut n: usize = 0;
    for i in 0..names.len()
        invariant
            s == names_of(names@),
            mixed == (p.system == SystemKind::PlayStation2 && p.output_format@ == "mixed"@),
            format@ == p.output_format@,
            chd@ == "chd"@,
            iso@ == "iso"@,
            bin@ == "bin"@,
            n == count_where(s.take(i as int), output_names(*p)),
            n <= i,
    {
        proof {
            lemma_count_step(s, output_names(*p), i as int);
        }
        let name = &names[i];
        let hit = if mixed {
            name_has_extension(name, &chd) || name_has_extension(name, &iso) || name_has_extension(
                name,
                &bin,
            )
        } else {
            name_has_extension(name, &format)
        };
        if hit {
            n = n + 1;
        }
    }
    assert(s.take(s.len() as int) =~= s);
    n
}

/// Whether a name in a source folder is a source of the profile: an ISO or BIN file for
/// PS2, a ZIP file for 3DS, otherwise a file with the source format's extension.
pub open spec fn is_source_name(p: ProfileConfig, n: Seq<char>) -> bool {
    match p.system {
        SystemKind::PlayStation2 => has_extension(n, "iso"@) || has_extension(n, "bin"@),
        SystemKind::Nintendo3ds => has_extension(n, "zip"@),
        _ => has_extension(n, p.source_format@),
    }
}

/// Whether a folder is the profile's final library.
pub open spec fn is_library(p: ProfileConfig, dir: Seq<char>) -> bool {
    p.library_dir matches Some(l) && same_path(l@, dir)
}

/// The sources still present in a folder: source files that are not published outputs,
/// when the folder is the final library.
pub open spec fn remaining_sources(p: ProfileConfig, dir: Seq<char>, outputs: Seq<Seq<char>>) -> spec_fn(
    Seq<char>,
) -> bool {
    |n: Seq<char>| is_source_name(p, n) && !(is_library(p, dir) && outputs.contains(n))
}

/// Whether a name is one of the names.
fn contains_name(names: &Vec<String>, n: &String) -> (r: bool)
    ensures
        r == names_of(names@).contains(n@),
{
    let ghost s = names_of(names@);
    let c = chars_of(n.as_str());
    for i in 0..names.len()
        invariant
            s == names_of(names@),
            c@ == n@,
            forall|k: int| 0 <= k < i ==> s[k] != n@,
    {
        if chars_eq(&chars_of(names[i].as_str()), &c) {
            assert(s[i as int] == n@);
            return true;
        }
    }
    false
}

/// The number of sources still present in a folder whose file names are `names`;
/// `outputs` are the output names of the profile's completion records.
pub fn count_sources(
    p: &ProfileConfig,
    dir: &String,
    names: &Vec<String>,
    outputs: &Vec<String>,
) -> (r: usize)
    ensures
        r == count_where(names_of(names@), remaining_sources(*p, dir@, names_of(outputs@))),
{
    let ghost s = names_of(names@);
    let ghost pred = remaining_sources(*p, dir@, names_of(outputs@));
    let library = match &p.library_dir {
        Some(l) => paths_equal(l, dir),
        None => false,
    };
    let source_format = chars_of(p.source_format.as_str());
    let (zip, iso, bin) = (lit("zip"), lit("iso"), lit("bin"));
    let mut n: usize = 0;
    for i in 0..names.len()
        invariant
            s == names_of(names@),
            pred == remaining_sources(*p, dir@, names_of(outputs@)),
            library == is_library(*p, dir@),
            source_format@ == p.source_format@,
            zip@ == "zip"@,
            iso@ == "iso"@,
            bin@ == "bin"@,
            n == count_where(s.take(i as int), pred),
            n <= i,
    {
        proof {
            lemma_count_step(s, pred, i as int);
        }
        let name = &names[i];
        let source = match p.system {
            SystemKind::PlayStation2 => name_has_extension(name, &iso) || name_has_extension(
                name,
                &bin,
            ),
            SystemKind::Nintendo3ds => name_has_extension(name, &zip),
            _ => name_has_extension(name, &source_format),
        };
        let published = library && contains_name(outputs, name);
        if source && !published {
            n = n + 1;
        }
    }
    assert(s.take(s.len() as int) =~= s);
    n
}

/// The number of output files of a profile: for PS2 its completed jobs, otherwise the
/// outputs in its output folder and, when it is another folder, in its final library.
pub open spec fn spec_output_files(
    p: ProfileConfig,
    completed: usize,
    output_dir_names: Seq<Seq<char>>,
    library_names: Seq<Seq<char>>,
) -> int {
    if p.system == SystemKind::PlayStation2 {
        completed as int
    } else {
        count_where(output_dir_names, output_names(p)) + if p.library_dir matches Some(l)
            && !same_path(l@, p.output_dir@) {
            count_where(library_names, output_names(p)) as int
        } else {
            0int
        }
    }
}

/// A count is at most the number of names.
proof fn lemma_count_le(s: Seq<Seq<char>>, p: spec_fn(Seq<char>) -> bool)
    ensures
        count_where(s, p) <= s.len(),
    decreases s.len(),
{
    if s.len() > 0 {
        lemma_count_le(s.drop_last(), p);
    }
}

/// The number of output files of a profile, from the names in its output folder and in
/// its final library.
pub fn output_files(
    p: &ProfileConfig,
    completed: usize,
    output_dir_names: &Vec<String>,
    library_names: &Vec<String>,
) -> (r: usize)
    requires
        output_dir_names@.len() + library_names@.len() <= usize::MAX,
    ensures
        r == spec_output_files(*p, completed, names_of(output_dir_names@), names_of(library_names@)),
{
    if let SystemKind::PlayStation2 = p.system {
        return completed;
    }
    let a = count_outputs(p, output_dir_names);
    proof {
        lemma_count_le(names_of(output_dir_names@), output_names(*p));
        lemma_count_le(names_of(library_names@), output_names(*p));
    }
    match &p.library_dir {
        Some(l) => if !paths_equal(l, &p.output_dir) {
            a + count_outputs(p, library_names)
        } else {
            a
        },
        None => a,
    }
}

/// The set of names that a strictly increasing list holds.
pub open spec fn name_set(v: Seq<Vec<char>>) -> Set<Seq<char>> {
    views(v).to_set()
}

/// The job IDs seen so far and how many of them are complete.
pub struct CompletionTally {
    ids: Vec<Vec<char>>,
    completed: usize,
}

impl CompletionTally {
    /// The IDs are kept strictly increasing.
    pub closed spec fn wf(&self) -> bool {
        strictly_sorted(views(self.ids@))
    }

    /// The IDs seen so far.
    pub closed spec fn ids(&self) -> Set<Seq<char>> {
        name_set(self.ids@)
    }

    /// The number of complete jobs counted so far.
    pub closed spec fn completed(&self) -> nat {
        self.completed as nat
    }

    /// A tally of nothing.
    pub fn new() -> (r: Self)
        ensures
            r.wf(),
            r.ids() == Set::<Seq<char>>::empty(),
            r.completed() == 0,
    {
        let r = CompletionTally { ids: Vec::new(), completed: 0 };
        assert(views(r.ids@).to_set() =~= Set::<Seq<char>>::empty());
        r
    }

    /// Inserts an ID; says whether it was new.
    fn insert_id(&mut self, id: &String) -> (r: bool)
        requires
            old(self).wf(),
        ensures
            final(self).wf(),
            final(self).ids() == old(self).ids().insert(id@),
            r == !old(self).ids().contains(id@),
            final(self).completed() == old(self).completed(),
    {
        let ghost before = views(self.ids@);
        let n0 = self.ids.len();
        insert_sorted_unique(&mut self.ids, chars_of(id.as_str()));
        let ghost after = views(self.ids@);
        assert(after.to_set() =~= before.to_set().insert(id@)) by {
            assert forall|y: Seq<char>| after.to_set().contains(y) <==> before.to_set().insert(
                id@,
            ).contains(y) by {
                assert(after.contains(y) <==> (before.contains(y) || y == id@));
            }
        }
        proof {
            lemma_sorted_set_len(before);
            lemma_sorted_set_len(after);
        }
        self.ids.len() > n0
    }

    /// Counts a job of the inventory, complete or not.
    pub fn add_job(&mut self, id: &String, complete: bool)
        requires
            old(self).wf(),
            old(self).completed() < usize::MAX,
        ensures
            final(self).wf(),
            final(self).ids() == old(self).ids().insert(id@),
            final(self).completed() == old(self).completed() + if complete {
                1nat
            } else {
                0nat
            },
    {
        let _ = self.insert_id(id);
        if complete {
            self.completed = self.completed + 1;
        }
    }

    /// Counts the ID of a completion record; says whether it is new, in which case the
    /// caller checks its output and counts a valid one with `add_valid_record`.
    pub fn add_record(&mut self, id: &String) -> (r: bool)
        requires
            old(self).wf(),
        ensures
            final(self).wf(),
            final(self).ids() == old(self).ids().insert(id@),
            r == !old(self).ids().contains(id@),
            final(self).completed() == old(self).completed(),
    {
        self.insert_id(id)
    }

    /// Counts a completion record whose output is valid.
    pub fn add_valid_record(&mut self)
        requires
            old(self).wf(),
            old(self).completed() < usize::MAX,
        ensures
            final(self).wf(),
            final(self).ids() == old(self).ids(),
            final(self).completed() == old(self).completed() + 1,
    {
        self.completed = self.completed + 1;
    }

    /// The number of distinct IDs and the number of complete jobs.
    pub fn counts(&self) -> (r: (usize, usize))
        requires
            self.wf(),
        ensures
            r.0 == self.ids().len(),
            r.1 == self.completed(),
    {
        proof {
            lemma_sorted_set_len(views(self.ids@));
        }
        (self.ids.len(), self.completed)
    }
}

/// The outputs that the final library holds: the distinct output names of the records
/// whose file in the library is a regular file of the recorded size. `found[i]` is what
/// the library shows for record `i`: whether the file is a regular file, and its size.
pub open spec fn spec_published(records: Seq<(String, u64)>, found: Seq<Option<(bool, u64)>>) -> Set<
    Seq<char>,
> {
    Set::new(
        |y: Seq<char>|
            exists|i: int|
                0 <= i < records.len() && #[trigger] records[i].0@ == y && found[i] == Some(
                    (true, records[i].1),
                ),
    )
}

/// The number of outputs that the final library holds.
pub fn published_count(records: &Vec<(String, u64)>, found: &Vec<Option<(bool, u64)>>) -> (r: usize)
    requires
        records@.len() == found@.len(),
    ensures
        r == spec_published(records@, found@).len(),
{
    let mut names: Vec<Vec<char>> = Vec::new();
    for i in 0..records.len()
        invariant
            records@.len() == found@.len(),
            strictly_sorted(views(names@)),
            forall|y: Seq<char>|
                #[trigger] views(names@).contains(y) <==> exists|k: int|
                    0 <= k < i && #[trigger] records@[k].0@ == y && found@[k] == Some(
                        (true, records@[k].1),
                    ),
    {
        let ghost before = views(names@);
        let hit = match found[i] {
            Some((is_file, len)) => is_file && len == records[i].1,
            None => false,
        };
        if hit {
            insert_sorted_unique(&mut names, chars_of(records[i].0.as_str()));
        }
        assert forall|y: Seq<char>|
            #[trigger] views(names@).contains(y) <==> exists|k: int|
                0 <= k < i + 1 && #[trigger] records@[k].0@ == y && found@[k] == Some(
                    (true, records@[k].1),
                ) by {
            if exists|k: int|
                0 <= k < i + 1 && #[trigger] records@[k].0@ == y && found@[k] == Some(
                    (true, records@[k].1),
                ) {
                let k = choose|k: int|
                    0 <= k < i + 1 && #[trigger] records@[k].0@ == y && found@[k] == Some(
                        (true, records@[k].1),
                    );
                if k < i {
                    assert(before.contains(y));
                }
            }
            if before.contains(y) {
                let k = choose|k: int|
                    0 <= k < i && #[trigger] records@[k].0@ == y && found@[k] == Some(
                        (true, records@[k].1),
                    );
                assert(0 <= k < i + 1);
            }
            if hit && y == records@[i as int].0@ {
                assert(0 <= i < i + 1 && records@[i as int].0@ == y);
            }
        }
    }
    assert(views(names@).to_set() =~= spec_published(records@, found@)) by {
        assert forall|y: Seq<char>| views(names@).to_set().contains(y) <==> spec_published(
            records@,
            found@,
        ).contains(y) by {
            assert(views(names@).contains(y) == views(names@).to_set().contains(y));
        }
    }
    proof {
        lemma_sorted_set_len(views(names@));
    }
    names.len()
}

/// The names that end with `suffix` once lower-cased.
pub open spec fn suffix_is(suffix: Seq<char>) -> spec_fn(Seq<char>) -> bool {
    |n: Seq<char>| spec_ends_with(spec_lower(n), suffix)
}

/// The number of names that end with `suffix` once lower-cased (the names of the regular
/// files of a folder).
pub fn count_suffix(names: &Vec<String>, suffix: &str) -> (r: usize)
    ensures
        r == count_where(names_of(names@), suffix_is(suffix@)),
{
    let ghost s = names_of(names@);
    let x = chars_of(suffix);
    let mut n: usize = 0;
    for i in 0..names.len()
        invariant
            s == names_of(names@),
            x@ == suffix@,
            n == count_where(s.take(i as int), suffix_is(suffix@)),
            n <= i,
    {
        proof {
            lemma_count_step(s, suffix_is(suffix@), i as int);
        }
        if ends_with(&to_lower(&chars_of(names[i].as_str())), &x) {
            n = n + 1;
        }
    }
    assert(s.take(s.len() as int) =~= s);
    n
}

/// The number of lines of a text, as `str::lines` counts them.
pub fn line_count(text: &str) -> (r: usize)
    ensures
        r == spec_lines(text@).len(),
{
    lines(&chars_of(text)).len()
}

/// A number written alone in a file, surrounding white space aside.
pub fn read_number(text: &str) -> (r: Option<usize>)
    ensures
        r == spec_parse_usize(spec_trim(text@)),
{
    parse_usize(&trim(&chars_of(text)))
}

/// The process of a running service, from `systemctl show -p MainPID --value`: none when
/// the output is not a number or is zero.
pub fn main_pid(output: &str) -> (r: Option<u32>)
    ensures
        r matches Some(p) ==> p != 0 && spec_parse_u64(spec_trim(output@)) == Some(p as u64),
        r is None ==> match spec_parse_u64(spec_trim(output@)) {
            Some(v) => v == 0 || v > u32::MAX,
            None => true,
        },
{
    match parse_u64(&trim(&chars_of(output))) {
        Some(v) => if v == 0 || v > u32::MAX as u64 {
            None
        } else {
            Some(v as u32)
        },
        None => None,
    }
}

/// The worker of a running service, from the `ps` listing of its children: the trimmed
/// listing, or none when it is blank.
pub fn worker_text(listing: &str) -> (r: Option<String>)
    ensures
        r matches Some(w) ==> w@ == spec_trim(listing@) && w@.len() > 0,
        r is None ==> spec_trim(listing@).len() == 0,
{
    let t = trim(&chars_of(listing));
    if t.len() == 0 {
        None
    } else {
        Some(string_of(&t))
    }
}

/// The number of sources a prune has left: those in the source folder and, when it is
/// another folder, those in the done folder.
pub open spec fn spec_prune_remaining(
    p: ProfileConfig,
    source_names: Seq<Seq<char>>,
    done_names: Seq<Seq<char>>,
    outputs: Seq<Seq<char>>,
) -> int {
    count_where(source_names, remaining_sources(p, p.source_dir@, outputs)) + if !same_path(
        p.done_dir@,
        p.source_dir@,
    ) {
        count_where(done_names, remaining_sources(p, p.done_dir@, outputs)) as int
    } else {
        0int
    }
}

/// The number of sources a prune has left, from the names in the source and done
/// folders; `outputs` are the output names of the profile's completion records.
pub fn prune_remaining(
    p: &ProfileConfig,
    source_names: &Vec<String>,
    done_names: &Vec<String>,
    outputs: &Vec<String>,
) -> (r: usize)
    requires
        source_names@.len() + done_names@.len() <= usize::MAX,
    ensures
        r == spec_prune_remaining(*p, names_of(source_names@), names_of(done_names@), names_of(outputs@)),
{
    let a = count_sources(p, &p.source_dir, source_names, outputs);
    proof {
        lemma_count_le(names_of(source_names@), remaining_sources(*p, p.source_dir@, names_of(outputs@)));
        lemma_count_le(names_of(done_names@), remaining_sources(*p, p.done_dir@, names_of(outputs@)));
    }
    if !paths_equal(&p.done_dir, &p.source_dir) {
        a + count_sources(p, &p.done_dir, done_names, outputs)
    } else {
        a
    }
}

/// Whether a PS2 manifest source still counts as a source: it is in the done folder, or
/// it is in the source folder and that folder is not the final library holding it as a
/// published output.
pub open spec fn ps2_source_left(
    p: ProfileConfig,
    name: Seq<char>,
    in_source: bool,
    in_done: bool,
    outputs: Seq<Seq<char>>,
) -> bool {
    let library_is_source = outputs.contains(name) && is_library(p, p.source_dir@);
    (!library_is_source && in_source) || in_done
}

/// How many of the first `n` manifest sources still count.
pub open spec fn ps2_left_upto(
    p: ProfileConfig,
    names: Seq<Seq<char>>,
    in_source: Seq<bool>,
    in_done: Seq<bool>,
    outputs: Seq<Seq<char>>,
    n: int,
) -> nat
    decreases n,
{
    if n <= 0 {
        0
    } else {
        ps2_left_upto(p, names, in_source, in_done, outputs, n - 1) + if ps2_source_left(
            p,
            names[n - 1],
            in_source[n - 1],
            in_done[n - 1],
            outputs,
        ) {
            1nat
        } else {
            0nat
        }
    }
}

/// The number of PS2 manifest sources a prune has left; for each source of the inventory,
/// whether its file is in the source folder and whether it is in the done folder.
pub fn ps2_remaining(
    p: &ProfileConfig,
    names: &Vec<String>,
    in_source: &Vec<bool>,
    in_done: &Vec<bool>,
    outputs: &Vec<String>,
) -> (r: usize)
    requires
        names@.len() == in_source@.len(),
        names@.len() == in_done@.len(),
    ensures
        r == ps2_left_upto(
            *p,
            names_of(names@),
            in_source@,
            in_done@,
            names_of(outputs@),
            names@.len() as int,
        ),
{
    let library_is_source_dir = match &p.library_dir {
        Some(l) => paths_equal(l, &p.source_dir),
        None => false,
    };
    let mut n: usize = 0;
    for i in 0..names.len()
        invariant
            names@.len() == in_source@.len(),
            names@.len() == in_done@.len(),
            library_is_source_dir == is_library(*p, p.source_dir@),
            n == ps2_left_upto(*p, names_of(names@), in_source@, in_done@, names_of(outputs@), i as int),
            n <= i,
    {
        let published = contains_name(outputs, &names[i]) && library_is_source_dir;
        if (!published && in_source[i]) || in_done[i] {
            n = n + 1;
        }
    }
    n
}

} // verus!
