//! PlayStation Vita archives: the technical listing of a 7-Zip archive, checked against
//! the layout of a native NoNpDrm title.
use vstd::prelude::*;

use crate::config::{components, path_components};
use crate::error::{message, message_with, PipelineError, Result};
use crate::numbers::{parse_hex_u32, parse_u64, spec_parse_hex_u32, spec_parse_u64};
use crate::text::{
    append_chars, chars_eq, chars_of, lines, lit, spec_lines, spec_split_once, spec_split_str,
    spec_starts_with, split_once, split_str, string_of, strip_prefix, views,
};

verus! {

/// One file of an archive.
#[derive(Clone, Debug, PartialEq, Eq)]
pub struct ArchiveEntry {
    pub path: String,
    pub size: u64,
    pub crc32: u32,
}

/// A checked archive: its title, files, whether it holds a patch, and its unpacked size.
#[derive(Clone, Debug, PartialEq, Eq)]
pub struct ArchiveLayout {
    pub title_id: String,
    pub entries: Vec<ArchiveEntry>,
    pub has_patch: bool,
    pub unpacked_bytes: u64,
}

/// What an archive entry holds, as plain values.
pub struct EntryView {
    pub path: Seq<char>,
    pub size: u64,
    pub crc32: u32,
}

impl View for ArchiveEntry {
    type V = EntryView;

    open spec fn view(&self) -> EntryView {
        EntryView { path: self.path@, size: self.size, crc32: self.crc32 }
    }
}

/// The views of archive entries.
pub open spec fn entry_views(s: Seq<ArchiveEntry>) -> Seq<EntryView> {
    s.map_values(|e: ArchiveEntry| e@)
}

/// The fields read so far from the lines of one listing block.
pub struct BlockFields {
    pub path: Option<Seq<char>>,
    pub size: Option<u64>,
    pub crc: Option<u32>,
    pub folder: bool,
}

/// The fields of the first `i` lines of a block; a later line overrides an earlier one, a
/// malformed size or CRC clears it, and an empty CRC leaves it as it was.
pub open spec fn block_fields(ls: Seq<Seq<char>>, i: int) -> BlockFields
    decreases i,
{
    if i <= 0 {
        BlockFields { path: None, size: None, crc: None, folder: false }
    } else {
        let f = block_fields(ls, i - 1);
        let line = ls[i - 1];
        if spec_starts_with(line, "Path = "@) {
            BlockFields {
                path: Some(line.skip("Path = "@.len() as int)),
                size: f.size,
                crc: f.crc,
                folder: f.folder,
            }
        } else if spec_starts_with(line, "Size = "@) {
            BlockFields {
                path: f.path,
                size: spec_parse_u64(line.skip("Size = "@.len() as int)),
                crc: f.crc,
                folder: f.folder,
            }
        } else if spec_starts_with(line, "CRC = "@) {
            if line.len() > "CRC = "@.len() {
                BlockFields {
                    path: f.path,
                    size: f.size,
                    crc: spec_parse_hex_u32(line.skip("CRC = "@.len() as int)),
                    folder: f.folder,
                }
            } else {
                f
            }
        } else if line == "Folder = +"@ {
            BlockFields { path: f.path, size: f.size, crc: f.crc, folder: true }
        } else {
            f
        }
    }
}

/// A path component that names a file or directory (not the root, `.` or `..`).
pub open spec fn normal_component(c: Seq<char>) -> bool {
    c != seq!['/'] && c != seq!['.'] && c != seq!['.', '.']
}

/// A safe relative path: no backslash, tab, line feed or carriage return, and only normal
/// components.
pub open spec fn safe_path(p: Seq<char>) -> bool {
    &&& forall|i: int|
        0 <= i < p.len() ==> {
            &&& (#[trigger] p[i]) != '\\'
            &&& p[i] != '\t'
            &&& p[i] != '\n'
            &&& p[i] != '\r'
        }
    &&& forall|k: int|
        0 <= k < path_components(p).len() ==> normal_component(#[trigger] path_components(p)[k])
}

/// Checks that an archive path is a safe relative path.
pub fn validate_relative_path(path: &String) -> (r: Result<()>)
    ensures
        safe_path(path@) ==> r is Ok,
        !safe_path(path@) ==> (r matches Err(PipelineError::Message(m)) && m@
            == "unsafe Vita ZIP entry: "@ + path@),
{
    let c = chars_of(path.as_str());
    let mut i: usize = 0;
    while i < c.len()
        invariant
            i <= c@.len(),
            c@ == path@,
            forall|j: int|
                0 <= j < i ==> {
                    &&& (#[trigger] c@[j]) != '\\'
                    &&& c@[j] != '\t'
                    &&& c@[j] != '\n'
                    &&& c@[j] != '\r'
                },
        decreases c@.len() - i,
    {
        let x = c[i];
        if x == '\\' || x == '\t' || x == '\n' || x == '\r' {
            return Err(message_with("unsafe Vita ZIP entry: ", &c));
        }
        i += 1;
    }
    let parts = components(path);
    let mut k: usize = 0;
    while k < parts.len()
        invariant
            k <= parts@.len(),
            views(parts@) == path_components(path@),
            c@ == path@,
            forall|j: int| 0 <= j < k ==> normal_component(#[trigger] path_components(path@)[j]),
        decreases parts@.len() - k,
    {
        let part = &parts[k];
        assert(path_components(path@)[k as int] == part@);
        let abnormal = (part.len() == 1 && (part[0] == '/' || part[0] == '.')) || (part.len() == 2
            && part[0] == '.' && part[1] == '.');
        assert(abnormal == !normal_component(part@)) by {
            if part@.len() == 1 {
                if part@[0] == '/' {
                    assert(part@ =~= seq!['/']);
                }
                if part@[0] == '.' {
                    assert(part@ =~= seq!['.']);
                }
            }
            if part@.len() == 2 && part@[0] == '.' && part@[1] == '.' {
                assert(part@ =~= seq!['.', '.']);
            }
        }
        if abnormal {
            return Err(message_with("unsafe Vita ZIP entry: ", &c));
        }
        k += 1;
    }
    Ok(())
}

/// The file that a listing block describes: none for a folder or a block without a path,
/// else its path, size and CRC, or the message of the first problem.
pub open spec fn block_entry(block: Seq<char>) -> core::result::Result<Option<EntryView>, Seq<char>> {
    let f = block_fields(spec_lines(block), spec_lines(block).len() as int);
    if f.folder || f.path is None {
        Ok(None)
    } else {
        let p = f.path->0;
        if !safe_path(p) {
            Err("unsafe Vita ZIP entry: "@ + p)
        } else {
            match f.size {
                None => Err("Vita ZIP entry is missing its size"@),
                Some(size) => match f.crc {
                    None => Err("Vita ZIP entry is missing its CRC"@),
                    Some(crc32) => Ok(Some(EntryView { path: p, size, crc32 })),
                },
            }
        }
    }
}

/// The file that one listing block describes.
fn parse_block(block: &[char]) -> (r: Result<Option<ArchiveEntry>>)
    ensures
        match block_entry(block@) {
            Ok(None) => r matches Ok(None),
            Ok(Some(e)) => r matches Ok(Some(x)) && x@ == e,
            Err(msg) => r matches Err(PipelineError::Message(m)) && m@ == msg,
        },
{
    let ls = lines(block);
    let ghost lv = views(ls@);
    let mut path: Option<Vec<char>> = None;
    let mut size: Option<u64> = None;
    let mut crc: Option<u32> = None;
    let mut folder = false;
    let mut i: usize = 0;
    while i < ls.len()
        invariant
            i <= ls@.len(),
            lv == views(ls@),
            lv == spec_lines(block@),
            ({
                let f = block_fields(lv, i as int);
                &&& f.path == match path {
                    Some(p) => Some(p@),
                    None => None::<Seq<char>>,
                }
                &&& f.size == size
                &&& f.crc == crc
                &&& f.folder == folder
            }),
        decreases ls@.len() - i,
    {
        let line = &ls[i];
        assert(lv[i as int] == line@);
        if let Some(v) = strip_prefix(line, "Path = ") {
            path = Some(v);
        } else if let Some(v) = strip_prefix(line, "Size = ") {
            size = parse_u64(&v);
        } else if let Some(v) = strip_prefix(line, "CRC = ") {
            if v.len() > 0 {
                crc = parse_hex_u32(&v);
            }
        } else if chars_eq(line, &lit("Folder = +")) {
            folder = true;
        }
        i += 1;
    }
    if folder {
        return Ok(None);
    }
    let p = match path {
        Some(p) => p,
        None => return Ok(None),
    };
    let p = string_of(&p);
    match validate_relative_path(&p) {
        Ok(()) => {},
        Err(e) => return Err(e),
    }
    let size = match size {
        Some(s) => s,
        None => return Err(message("Vita ZIP entry is missing its size")),
    };
    let crc32 = match crc {
        Some(c) => c,
        None => return Err(message("Vita ZIP entry is missing its CRC")),
    };
    Ok(Some(ArchiveEntry { path: p, size, crc32 }))
}

/// The files of the first `i` blocks, or the message of the first problem among them.
pub open spec fn files_upto(blocks: Seq<Seq<char>>, i: int) -> core::result::Result<
    Seq<EntryView>,
    Seq<char>,
>
    decreases i,
{
    if i <= 0 {
        Ok(seq![])
    } else {
        match files_upto(blocks, i - 1) {
            Err(m) => Err(m),
            Ok(fs) => match block_entry(blocks[i - 1]) {
                Err(m) => Err(m),
                Ok(None) => Ok(fs),
                Ok(Some(e)) => Ok(fs.push(e)),
            },
        }
    }
}

/// Once a block fails, so does every longer prefix of the blocks.
proof fn lemma_files_error(blocks: Seq<Seq<char>>, i: int, n: int)
    requires
        0 <= i <= n,
        files_upto(blocks, i) is Err,
    ensures
        files_upto(blocks, n) == files_upto(blocks, i),
    decreases n - i,
{
    if n > i {
        lemma_files_error(blocks, i, n - 1);
    }
}

/// The blocks of a listing: the text after the first `----------` line (all of it when
/// there is none), split at blank lines.
pub open spec fn listing_blocks(listing: Seq<char>) -> Seq<Seq<char>> {
    let text = match spec_split_once(listing, "----------\n"@) {
        Some((_, v)) => v,
        None => listing,
    };
    spec_split_str(text, "\n\n"@)
}

/// The files that a technical listing describes, or the message of the first problem.
pub open spec fn spec_listing_files(listing: Seq<char>) -> core::result::Result<
    Seq<EntryView>,
    Seq<char>,
> {
    let blocks = listing_blocks(listing);
    files_upto(blocks, blocks.len() as int)
}

/// The files that a technical listing describes.
fn listing_files(listing: &str) -> (r: Result<Vec<ArchiveEntry>>)
    ensures
        match spec_listing_files(listing@) {
            Ok(fs) => r matches Ok(v) && entry_views(v@) == fs,
            Err(msg) => r matches Err(PipelineError::Message(m)) && m@ == msg,
        },
{
    let all = chars_of(listing);
    let text = match split_once(&all, &lit("----------\n")) {
        Some((_, v)) => v,
        None => all,
    };
    let sep = lit("\n\n");
    proof {
        reveal_strlit("\n\n");
    }
    let blocks = split_str(&text, &sep);
    let ghost bv = views(blocks@);
    let mut files: Vec<ArchiveEntry> = Vec::new();
    let mut i: usize = 0;
    assert(entry_views(files@) =~= Seq::<EntryView>::empty());
    while i < blocks.len()
        invariant
            i <= blocks@.len(),
            bv == views(blocks@),
            bv == listing_blocks(listing@),
            files_upto(bv, i as int) == Ok::<Seq<EntryView>, Seq<char>>(entry_views(files@)),
        decreases blocks@.len() - i,
    {
        assert(bv[i as int] == blocks@[i as int]@);
        match parse_block(&blocks[i]) {
            Err(e) => {
                proof {
                    lemma_files_error(bv, i + 1, bv.len() as int);
                }
                return Err(e);
            },
            Ok(None) => {},
            Ok(Some(entry)) => {
                let ghost before = files@;
                files.push(entry);
                assert(entry_views(files@) =~= entry_views(before).push(entry@));
            },
        }
        i += 1;
    }
    Ok(files)
}

/// What a checked archive holds, as plain values.
pub struct LayoutView {
    pub title_id: Seq<char>,
    pub entries: Seq<EntryView>,
    pub has_patch: bool,
    pub unpacked_bytes: u64,
}

impl View for ArchiveLayout {
    type V = LayoutView;

    open spec fn view(&self) -> LayoutView {
        LayoutView {
            title_id: self.title_id@,
            entries: entry_views(self.entries@),
            has_patch: self.has_patch,
            unpacked_bytes: self.unpacked_bytes,
        }
    }
}

/// What is wrong with an entry's place: it must lie in `app/<title>` or `patch/<title>`.
pub open spec fn entry_problem(path: Seq<char>, expected: Seq<char>) -> Option<Seq<char>> {
    let cs = path_components(path);
    if cs.len() == 0 {
        Some("invalid Vita ZIP path"@)
    } else if cs.len() == 1 {
        Some("Vita ZIP entry is outside a title folder: "@ + path)
    } else if !(cs[0] == "app"@ || cs[0] == "patch"@) || cs[1] != expected {
        Some("unexpected Vita ZIP entry: "@ + path)
    } else {
        None
    }
}

/// The first problem with the places of the entries from `i` on.
pub open spec fn first_problem(es: Seq<EntryView>, expected: Seq<char>, i: int) -> Option<Seq<char>>
    decreases es.len() - i,
{
    if i < 0 || i >= es.len() {
        None
    } else {
        match entry_problem(es[i].path, expected) {
            Some(m) => Some(m),
            None => first_problem(es, expected, i + 1),
        }
    }
}

/// Some entry lies under the top-level folder `root`.
pub open spec fn has_root(es: Seq<EntryView>, root: Seq<char>) -> bool {
    exists|k: int| 0 <= k < es.len() && path_components(#[trigger] es[k].path)[0] == root
}

/// Some entry is the file `p`.
pub open spec fn has_path(es: Seq<EntryView>, p: Seq<char>) -> bool {
    exists|k: int| 0 <= k < es.len() && crate::config::same_path(#[trigger] es[k].path, p)
}

/// The sum of the entries' sizes.
pub open spec fn total_size(es: Seq<EntryView>) -> nat
    decreases es.len(),
{
    if es.len() == 0 {
        0
    } else {
        total_size(es.drop_last()) + es.last().size as nat
    }
}

/// The files every native title holds.
pub open spec fn required_file(title: Seq<char>, k: int) -> Seq<char> {
    if k == 0 {
        "app/"@ + title + "/eboot.bin"@
    } else if k == 1 {
        "app/"@ + title + "/sce_sys/param.sfo"@
    } else {
        "app/"@ + title + "/sce_sys/package/work.bin"@
    }
}

/// The first required file that no entry is.
pub open spec fn missing_required(es: Seq<EntryView>, title: Seq<char>) -> Option<Seq<char>> {
    if !has_path(es, required_file(title, 0)) {
        Some(required_file(title, 0))
    } else if !has_path(es, required_file(title, 1)) {
        Some(required_file(title, 1))
    } else if !has_path(es, required_file(title, 2)) {
        Some(required_file(title, 2))
    } else {
        None
    }
}

/// The layout of an archive's files, or the message of the first problem: no files, an
/// entry outside `app/<title>` and `patch/<title>`, no app, a missing required file, or an
/// unpacked size beyond 64 bits.
pub open spec fn spec_layout(es: Seq<EntryView>, title: Seq<char>) -> core::result::Result<
    LayoutView,
    Seq<char>,
> {
    if es.len() == 0 {
        Err("Vita ZIP contains no files"@)
    } else if first_problem(es, title, 0) is Some {
        Err(first_problem(es, title, 0)->0)
    } else if !has_root(es, "app"@) {
        Err("Vita ZIP does not contain an app title"@)
    } else if missing_required(es, title) is Some {
        Err("Vita ZIP is missing "@ + missing_required(es, title)->0)
    } else if total_size(es) > u64::MAX {
        Err("Vita ZIP unpacked size overflowed"@)
    } else {
        Ok(
            LayoutView {
                title_id: title,
                entries: es,
                has_patch: has_root(es, "patch"@),
                unpacked_bytes: total_size(es) as u64,
            },
        )
    }
}

/// Whether some entry is the file `p`.
fn has_file(files: &Vec<ArchiveEntry>, p: &String) -> (r: bool)
    ensures
        r == has_path(entry_views(files@), p@),
{
    let ghost es = entry_views(files@);
    let mut i: usize = 0;
    while i < files.len()
        invariant
            i <= files@.len(),
            es == entry_views(files@),
            forall|k: int| 0 <= k < i ==> !crate::config::same_path(#[trigger] es[k].path, p@),
        decreases files@.len() - i,
    {
        assert(es[i as int].path == files@[i as int].path@);
        if crate::config::paths_equal(&files[i].path, p) {
            return true;
        }
        i += 1;
    }
    false
}

/// Checks the files of an archive against the layout of a native title.
pub fn validate_layout(files: Vec<ArchiveEntry>, expected_title_id: &str) -> (r: Result<
    ArchiveLayout,
>)
    ensures
        match spec_layout(entry_views(files@), expected_title_id@) {
            Ok(l) => r matches Ok(x) && x@ == l,
            Err(msg) => r matches Err(PipelineError::Message(m)) && m@ == msg,
        },
{
    let ghost es = entry_views(files@);
    if files.len() == 0 {
        return Err(message("Vita ZIP contains no files"));
    }
    let title = chars_of(expected_title_id);
    let app = lit("app");
    let patch = lit("patch");
    let mut has_app = false;
    let mut has_patch = false;
    let mut i: usize = 0;
    while i < files.len()
        invariant
            i <= files@.len(),
            es == entry_views(files@),
            title@ == expected_title_id@,
            app@ == "app"@,
            patch@ == "patch"@,
            first_problem(es, title@, 0) == first_problem(es, title@, i as int),
            forall|k: int| 0 <= k < i ==> entry_problem(#[trigger] es[k].path, title@) is None,
            has_app == exists|k: int|
                0 <= k < i && path_components(#[trigger] es[k].path)[0] == "app"@,
            has_patch == exists|k: int|
                0 <= k < i && path_components(#[trigger] es[k].path)[0] == "patch"@,
        decreases files@.len() - i,
    {
        let path = &files[i].path;
        assert(es[i as int].path == path@);
        let cs = components(path);
        assert(views(cs@) == path_components(path@));
        if cs.len() == 0 {
            return Err(message("invalid Vita ZIP path"));
        }
        let pc = chars_of(path.as_str());
        if cs.len() == 1 {
            return Err(message_with("Vita ZIP entry is outside a title folder: ", &pc));
        }
        assert(views(cs@)[0] == cs@[0]@ && views(cs@)[1] == cs@[1]@);
        let is_app = chars_eq(&cs[0], &app);
        let is_patch = chars_eq(&cs[0], &patch);
        if !(is_app || is_patch) || !chars_eq(&cs[1], &title) {
            return Err(message_with("unexpected Vita ZIP entry: ", &pc));
        }
        if is_app {
            has_app = true;
        }
        if is_patch {
            has_patch = true;
        }
        i += 1;
    }
    assert(first_problem(es, title@, files@.len() as int) is None);
    assert(has_app == has_root(es, "app"@));
    assert(has_patch == has_root(es, "patch"@));
    if !has_app {
        return Err(message("Vita ZIP does not contain an app title"));
    }
    let mut k: usize = 0;
    while k < 3
        invariant
            k <= 3,
            es == entry_views(files@),
            title@ == expected_title_id@,
            forall|j: int| 0 <= j < k ==> has_path(es, #[trigger] required_file(title@, j)),
            first_problem(es, title@, 0) is None,
            has_root(es, "app"@),
        decreases 3 - k,
    {
        let mut req = lit("app/");
        append_chars(&mut req, &title);
        if k == 0 {
            append_chars(&mut req, &lit("/eboot.bin"));
        } else if k == 1 {
            append_chars(&mut req, &lit("/sce_sys/param.sfo"));
        } else {
            append_chars(&mut req, &lit("/sce_sys/package/work.bin"));
        }
        assert(req@ == required_file(title@, k as int));
        let req = string_of(&req);
        if !has_file(&files, &req) {
            let req_chars = chars_of(req.as_str());
            return Err(message_with("Vita ZIP is missing ", &req_chars));
        }
        k += 1;
    }
    assert(missing_required(es, title@) is None);
    let mut total: u64 = 0;
    let mut j: usize = 0;
    while j < files.len()
        invariant
            j <= files@.len(),
            es == entry_views(files@),
            total == total_size(es.take(j as int)),
            first_problem(es, title@, 0) is None,
            has_root(es, "app"@),
            missing_required(es, title@) is None,
            title@ == expected_title_id@,
        decreases files@.len() - j,
    {
        assert(es.take(j + 1 as int).drop_last() =~= es.take(j as int));
        assert(es[j as int].size == files@[j as int].size);
        match total.checked_add(files[j].size) {
            Some(t) => total = t,
            None => {
                proof {
                    lemma_total_size_prefix(es, j + 1);
                }
                return Err(message("Vita ZIP unpacked size overflowed"));
            },
        }
        j += 1;
    }
    assert(es.take(files@.len() as int) =~= es);
    let layout = ArchiveLayout {
        title_id: expected_title_id.to_owned(),
        entries: files,
        has_patch,
        unpacked_bytes: total,
    };
    Ok(layout)
}

/// A prefix's total size is at most the whole.
proof fn lemma_total_size_prefix(es: Seq<EntryView>, k: int)
    requires
        0 <= k <= es.len(),
    ensures
        total_size(es.take(k)) <= total_size(es),
    decreases es.len() - k,
{
    if k < es.len() {
        assert(es.drop_last().take(k) =~= es.take(k));
        lemma_total_size_prefix(es.drop_last(), k);
    } else {
        assert(es.take(k) =~= es);
    }
}

/// What a technical listing yields for a title: its checked layout, or the message of the
/// first problem.
pub open spec fn spec_parse_listing(listing: Seq<char>, title: Seq<char>) -> core::result::Result<
    LayoutView,
    Seq<char>,
> {
    match spec_listing_files(listing) {
        Err(m) => Err(m),
        Ok(fs) => spec_layout(fs, title),
    }
}

/// Reads the technical listing of an archive (`7z l -slt`) and checks it against the
/// layout of the native title `expected_title_id`.
pub fn parse_listing(listing: &str, expected_title_id: &str) -> (r: Result<ArchiveLayout>)
    ensures
        match spec_parse_listing(listing@, expected_title_id@) {
            Ok(l) => r matches Ok(x) && x@ == l,
            Err(msg) => r matches Err(PipelineError::Message(m)) && m@ == msg,
        },
{
    match listing_files(listing) {
        Err(e) => Err(e),
        Ok(files) => validate_layout(files, expected_title_id),
    }
}

/// The arguments of the 7-Zip command that extracts a title (and its patch, when there is
/// one) into `destination`.
pub fn extraction_args(layout: &ArchiveLayout, archive: &str, destination: &str) -> (r: Vec<String>)
    ensures
        r@.len() == if layout.has_patch {
            6int
        } else {
            5int
        },
        r@[0]@ == "x"@,
        r@[1]@ == "-y"@,
        r@[2]@ == "-o"@ + destination@,
        r@[3]@ == archive@,
        r@[4]@ == "app/"@ + layout.title_id@ + "/*"@,
        layout.has_patch ==> r@[5]@ == "patch/"@ + layout.title_id@ + "/*"@,
{
    let title = chars_of(layout.title_id.as_str());
    let mut out: Vec<String> = Vec::new();
    out.push("x".to_owned());
    out.push("-y".to_owned());
    let mut d = lit("-o");
    append_chars(&mut d, &chars_of(destination));
    out.push(string_of(&d));
    out.push(archive.to_owned());
    let mut a = lit("app/");
    append_chars(&mut a, &title);
    append_chars(&mut a, &lit("/*"));
    out.push(string_of(&a));
    if layout.has_patch {
        let mut p = lit("patch/");
        append_chars(&mut p, &title);
        append_chars(&mut p, &lit("/*"));
        out.push(string_of(&p));
    }
    out
}

/// A Vita title ID: nine ASCII capital letters or digits, beginning with `PCS`.
pub open spec fn vita_title_id(v: Seq<char>) -> bool {
    &&& v.len() == 9
    &&& crate::text::spec_starts_with(v, "PCS"@)
    &&& forall|i: int|
        0 <= i < v.len() ==> ('A' <= #[trigger] v[i] && v[i] <= 'Z') || crate::text::is_digit(
            v[i],
        )
}

/// The bracketed values of a file name: for each `[` after the first piece, the text up
/// to the next `]`.
pub open spec fn bracket_values(pieces: Seq<Seq<char>>) -> Seq<Seq<char>>
    decreases pieces.len(),
{
    if pieces.len() == 0 {
        seq![]
    } else {
        let rest = bracket_values(pieces.drop_last());
        match spec_split_once(pieces.last(), "]"@) {
            Some((v, _)) => rest.push(v),
            None => rest,
        }
    }
}

/// The first index of a title ID among values.
pub open spec fn first_title(vs: Seq<Seq<char>>, i: int) -> Option<int>
    decreases vs.len() - i,
{
    if i < 0 || i >= vs.len() {
        None
    } else if vita_title_id(vs[i]) {
        Some(i)
    } else {
        first_title(vs, i + 1)
    }
}

/// The title ID in a Vita archive's file name: the first bracketed value that is one.
pub open spec fn spec_title_from_filename(name: Seq<char>) -> Option<Seq<char>> {
    let vs = bracket_values(crate::text::spec_split(name, '[').drop_first());
    match first_title(vs, 0) {
        Some(i) => Some(vs[i]),
        None => None,
    }
}

/// Whether a value is a Vita title ID.
fn is_vita_title_id(v: &[char]) -> (r: bool)
    ensures
        r == vita_title_id(v@),
{
    if v.len() != 9 || !crate::text::starts_with(v, &lit("PCS")) {
        return false;
    }
    let mut i: usize = 0;
    while i < v.len()
        invariant
            i <= v@.len(),
            forall|j: int|
                0 <= j < i ==> ('A' <= #[trigger] v@[j] && v@[j] <= 'Z') || crate::text::is_digit(
                    v@[j],
                ),
        decreases v@.len() - i,
    {
        let c = v[i];
        if !(('A' <= c && c <= 'Z') || ('0' <= c && c <= '9')) {
            return false;
        }
        i += 1;
    }
    true
}

/// The title ID in a Vita archive's file name.
pub fn title_id_from_filename(name: &str) -> (r: Option<String>)
    ensures
        match spec_title_from_filename(name@) {
            Some(t) => r matches Some(x) && x@ == t,
            None => r is None,
        },
{
    let pieces = crate::text::split_char(&chars_of(name), '[');
    let ghost pv = views(pieces@).drop_first();
    let mut values: Vec<Vec<char>> = Vec::new();
    let mut k: usize = 1;
    assert(views(pieces@).drop_first().take(0) =~= Seq::<Seq<char>>::empty());
    while k < pieces.len()
        invariant
            1 <= k <= pieces@.len(),
            pv == views(pieces@).drop_first(),
            views(values@) == bracket_values(pv.take(k - 1)),
        decreases pieces@.len() - k,
    {
        assert(pv.take(k as int).drop_last() =~= pv.take(k - 1));
        assert(pv[k - 1] == pieces@[k as int]@);
        let ghost before = values@;
        match split_once(&pieces[k], &lit("]")) {
            Some((v, _)) => {
                values.push(v);
                assert(views(values@) =~= views(before).push(values@.last()@));
            },
            None => {},
        }
        k += 1;
    }
    assert(pv.take(pieces@.len() - 1) =~= pv);
    let ghost vs = views(values@);
    assert(vs == bracket_values(crate::text::spec_split(name@, '[').drop_first()));
    let mut i: usize = 0;
    while i < values.len()
        invariant
            i <= values@.len(),
            vs == views(values@),
            vs == bracket_values(crate::text::spec_split(name@, '[').drop_first()),
            first_title(vs, 0) == first_title(vs, i as int),
        decreases values@.len() - i,
    {
        assert(vs[i as int] == values@[i as int]@);
        if is_vita_title_id(&values[i]) {
            assert(first_title(vs, i as int) == Some(i as int));
            assert(spec_title_from_filename(name@) == Some(vs[i as int]));
            let t = string_of(&values[i]);
            assert(t@ == vs[i as int]);
            return Some(t);
        }
        i += 1;
    }
    None
}

/// The name a Vita title is shown under: its file name before the bracketed title ID,
/// trimmed, or else the file name without `.zip`.
pub open spec fn vita_display(name: Seq<char>, title: Seq<char>) -> Seq<char> {
    match spec_split_once(name, "["@ + title + "]"@) {
        Some((prefix, _)) => crate::text::spec_trim(prefix),
        None => crate::service::trim_suffix(name, ".zip"@),
    }
}

/// Whether a folder entry is a Vita archive: a regular file whose extension is `zip`,
/// ignoring ASCII case.
pub open spec fn spec_vita_archive(name: Seq<char>, is_file: bool) -> bool {
    is_file && crate::counts::has_extension(name, "zip"@)
}

/// Whether a folder entry (its file name, and whether it is a regular file) is a Vita
/// archive.
pub fn is_vita_archive(name: &str, is_file: bool) -> (r: bool)
    ensures
        r == spec_vita_archive(name@, is_file),
{
    is_file && crate::counts::name_has_extension(&string_of(&chars_of(name)), &lit("zip"))
}

/// What one regular file of the folder contributes: nothing when it is not a `.zip`
/// archive or when `only` names another job, else its job, or the message of an error.
pub open spec fn vita_entry(name: Seq<char>, size: u64, only: Option<Seq<char>>) -> core::result::Result<
    Option<crate::domain::JobView>,
    Seq<char>,
> {
    if !spec_vita_archive(name, true) {
        Ok(None)
    } else {
    match spec_title_from_filename(name) {
        None => Err("Vita ZIP has no title ID: "@ + name),
        Some(t) => {
            let id = "VITA-"@ + t;
            if only matches Some(o) && crate::text::spec_lower(o) != crate::text::spec_lower(id) {
                Ok(None)
            } else {
                Ok(
                    Some(
                        crate::domain::JobView {
                            id,
                            display_name: vita_display(name, t),
                            output_name: t,
                            sources: seq![
                                crate::domain::ArtifactView {
                                    title_id: t,
                                    expected_size: size,
                                    name,
                                    role: crate::domain::ComponentKind::Base,
                                },
                            ],
                        },
                    ),
                )
            }
        },
    }
    }
}

/// The jobs of the first `i` archives, or the first error.
pub open spec fn vita_upto(
    entries: Seq<(Seq<char>, u64)>,
    only: Option<Seq<char>>,
    i: int,
) -> core::result::Result<Seq<crate::domain::JobView>, Seq<char>>
    decreases i,
{
    if i <= 0 {
        Ok(seq![])
    } else {
        match vita_upto(entries, only, i - 1) {
            Err(m) => Err(m),
            Ok(js) => match vita_entry(entries[i - 1].0, entries[i - 1].1, only) {
                Err(m) => Err(m),
                Ok(None) => Ok(js),
                Ok(Some(j)) => Ok(js.push(j)),
            },
        }
    }
}

/// Once an archive fails, so does every longer prefix.
proof fn lemma_vita_error(entries: Seq<(Seq<char>, u64)>, only: Option<Seq<char>>, i: int, n: int)
    requires
        0 <= i <= n,
        vita_upto(entries, only, i) is Err,
    ensures
        vita_upto(entries, only, n) == vita_upto(entries, only, i),
    decreases n - i,
{
    if n > i {
        lemma_vita_error(entries, only, i, n - 1);
    }
}

/// The order of Vita jobs: by display name ignoring ASCII case, then by ID.
pub open spec fn vita_before(a: crate::domain::JobView, b: crate::domain::JobView) -> bool {
    let la = crate::text::spec_lower(a.display_name);
    let lb = crate::text::spec_lower(b.display_name);
    crate::order::lex_less(la, lb) || (la == lb && crate::order::lex_less(a.id, b.id))
}

/// Inserts a job after the trailing jobs it does not come before.
pub open spec fn insert_vita(s: Seq<crate::domain::JobView>, x: crate::domain::JobView) -> Seq<
    crate::domain::JobView,
>
    decreases s.len(),
{
    if s.len() == 0 {
        seq![x]
    } else if vita_before(x, s.last()) {
        insert_vita(s.drop_last(), x).push(s.last())
    } else {
        s.push(x)
    }
}

/// The jobs sorted, equal ones in their first order.
pub open spec fn sort_vita(s: Seq<crate::domain::JobView>) -> Seq<crate::domain::JobView>
    decreases s.len(),
{
    if s.len() == 0 {
        seq![]
    } else {
        insert_vita(sort_vita(s.drop_last()), s.last())
    }
}

/// The first job whose ID an earlier job has.
pub open spec fn first_repeat(js: Seq<crate::domain::JobView>, i: int) -> Option<int>
    decreases js.len() - i,
{
    if i < 0 || i >= js.len() {
        None
    } else if exists|k: int| 0 <= k < i && #[trigger] js[k].id == js[i].id {
        Some(i)
    } else {
        first_repeat(js, i + 1)
    }
}

/// What a folder of Vita archives yields: one job per archive, sorted; no title may appear
/// twice, and an `only` that names no archive is an error.
pub open spec fn spec_vita_inventory(
    entries: Seq<(Seq<char>, u64)>,
    only: Option<Seq<char>>,
) -> core::result::Result<Seq<crate::domain::JobView>, Seq<char>> {
    match vita_upto(entries, only, entries.len() as int) {
        Err(m) => Err(m),
        Ok(js) => {
            let s = sort_vita(js);
            match first_repeat(s, 0) {
                Some(i) => Err("duplicate Vita title ID: "@ + s[i].id),
                None => match only {
                    Some(o) => if s.len() == 0 {
                        Err("requested Vita title was not found: "@ + o)
                    } else {
                        Ok(s)
                    },
                    None => Ok(s),
                },
            }
        },
    }
}

/// The job of one archive.
fn vita_job(name: String, size: u64, only: Option<&str>) -> (r: crate::error::Result<
    Option<crate::domain::Job>,
>)
    ensures
        match vita_entry(name@, size, crate::wiiu::str_opt(only)) {
            Err(msg) => r matches Err(PipelineError::Message(m)) && m@ == msg,
            Ok(None) => r matches Ok(None),
            Ok(Some(j)) => r matches Ok(Some(job)) && job@ == j,
        },
{
    if !is_vita_archive(name.as_str(), true) {
        return Ok(None);
    }
    let t = match title_id_from_filename(name.as_str()) {
        Some(t) => t,
        None => return Err(message_with("Vita ZIP has no title ID: ", &chars_of(name.as_str()))),
    };
    let tc = chars_of(t.as_str());
    let mut id = lit("VITA-");
    append_chars(&mut id, &tc);
    if let Some(o) = only {
        if !crate::text::eq_ignore_case(&chars_of(o), &id) {
            return Ok(None);
        }
    }
    let n = chars_of(name.as_str());
    let mut marker = lit("[");
    append_chars(&mut marker, &tc);
    append_chars(&mut marker, &lit("]"));
    let display = match split_once(&n, &marker) {
        Some((prefix, _)) => crate::text::trim(&prefix),
        None => crate::service::trim_end_matches(&n, &lit(".zip")),
    };
    let ghost nv = name@;
    let source = crate::domain::SourceArtifact {
        title_id: t.clone(),
        expected_size: size,
        name,
        role: crate::domain::ComponentKind::Base,
    };
    let ghost sv = source@;
    let sources = vec![source];
    assert(crate::domain::artifact_views(sources@) =~= seq![sv]);
    Ok(Some(crate::domain::Job {
        id: string_of(&id),
        display_name: string_of(&display),
        output_name: t,
        sources,
    }))
}

/// Whether job `a` comes before job `b`.
fn is_vita_before(a: &crate::domain::Job, b: &crate::domain::Job) -> (r: bool)
    ensures
        r == vita_before(a@, b@),
{
    let la = crate::text::to_lower(&chars_of(a.display_name.as_str()));
    let lb = crate::text::to_lower(&chars_of(b.display_name.as_str()));
    if crate::order::chars_less(&la, &lb) {
        return true;
    }
    if !chars_eq(&la, &lb) {
        return false;
    }
    crate::order::chars_less(&chars_of(a.id.as_str()), &chars_of(b.id.as_str()))
}

/// Inserts a job into sorted jobs.
fn insert_vita_job(v: &mut Vec<crate::domain::Job>, x: crate::domain::Job)
    ensures
        crate::domain::job_views(final(v)@) == insert_vita(crate::domain::job_views(old(v)@), x@),
{
    let ghost s = crate::domain::job_views(v@);
    let mut p = v.len();
    assert(s.take(p as int) =~= s);
    assert(s.skip(p as int) =~= Seq::<crate::domain::JobView>::empty());
    while p > 0 && is_vita_before(&x, &v[p - 1])
        invariant
            p <= v@.len(),
            v@ == old(v)@,
            s == crate::domain::job_views(v@),
            insert_vita(s, x@) == insert_vita(s.take(p as int), x@) + s.skip(p as int),
        decreases p,
    {
        proof {
            let t = s.take(p as int);
            assert(t.drop_last() =~= s.take(p - 1));
            assert(t.last() == s[p - 1]);
            assert(insert_vita(s.take(p - 1), x@).push(s[p - 1]) + s.skip(p as int)
                =~= insert_vita(s.take(p - 1), x@) + s.skip(p - 1));
        }
        p -= 1;
    }
    proof {
        if p == 0 {
            assert(s.take(0) =~= Seq::<crate::domain::JobView>::empty());
        } else {
            assert(s.take(p as int).last() == s[p - 1]);
        }
    }
    v.insert(p, x);
    assert(crate::domain::job_views(v@) =~= insert_vita(s.take(p as int), x@) + s.skip(p as int));
}

/// The names and sizes of archives, as plain values.
pub open spec fn listing_views(s: Seq<(String, u64)>) -> Seq<(Seq<char>, u64)> {
    s.map_values(|e: (String, u64)| (e.0@, e.1))
}

/// The jobs of a folder of Vita archives.
#[derive(Clone, Debug, Default, PartialEq, Eq)]
pub struct VitaInventory {
    pub jobs: Vec<crate::domain::Job>,
}

impl VitaInventory {
    /// The inventory of a folder from its regular files (each with its file name and size):
    /// the `.zip` archives (extension compared ignoring ASCII case) become jobs, using the
    /// title ID in each name, and other files are skipped; `only_job` keeps one job,
    /// compared ignoring ASCII case.
    ///
    /// Fails on a name without a title ID, a title that appears twice, or an `only_job`
    /// that names no archive.
    pub fn from_entries(entries: Vec<(String, u64)>, only_job: Option<&str>) -> (r:
        crate::error::Result<VitaInventory>)
        ensures
            match spec_vita_inventory(
                listing_views(entries@),
                crate::wiiu::str_opt(only_job),
            ) {
                Ok(js) => r matches Ok(inv) && crate::domain::job_views(inv.jobs@) == js,
                Err(msg) => r matches Err(PipelineError::Message(m)) && m@ == msg,
            },
    {
        let ghost ev = listing_views(entries@);
        let ghost o = crate::wiiu::str_opt(only_job);
        let n = entries.len();
        let mut jobs: Vec<crate::domain::Job> = Vec::new();
        let ghost mut js: Seq<crate::domain::JobView> = seq![];
        let mut i: usize = 0;
        assert(crate::domain::job_views(jobs@) =~= sort_vita(js));
        while i < n
            invariant
                i <= n,
                n == ev.len(),
                ev == listing_views(entries@),
                o == crate::wiiu::str_opt(only_job),
                vita_upto(ev, o, i as int) == Ok::<Seq<crate::domain::JobView>, Seq<char>>(js),
                crate::domain::job_views(jobs@) == sort_vita(js),
            decreases n - i,
        {
            let name = entries[i].0.clone();
            let size = entries[i].1;
            assert(ev[i as int] == (name@, size));
            match vita_job(name, size, only_job) {
                Err(e) => {
                    proof {
                        let le = vita_entry(ev[i as int].0, ev[i as int].1, o);
                        assert(le is Err);
                        assert(vita_upto(ev, o, i + 1) == Err::<
                            Seq<crate::domain::JobView>,
                            Seq<char>,
                        >(le->Err_0));
                        lemma_vita_error(ev, o, i + 1, n as int);
                    }
                    return Err(e);
                },
                Ok(None) => {},
                Ok(Some(job)) => {
                    let ghost jv = job@;
                    let ghost old_js = js;
                    insert_vita_job(&mut jobs, job);
                    proof {
                        js = old_js.push(jv);
                        assert(js.drop_last() =~= old_js);
                    }
                },
            }
            i += 1;
        }
        let ghost s = crate::domain::job_views(jobs@);
        let mut j: usize = 0;
        while j < jobs.len()
            invariant
                j <= jobs@.len(),
                s == crate::domain::job_views(jobs@),
                first_repeat(s, 0) == first_repeat(s, j as int),
                vita_upto(ev, o, n as int) == Ok::<Seq<crate::domain::JobView>, Seq<char>>(js),
                s == sort_vita(js),
                n == ev.len(),
                ev == listing_views(entries@),
                o == crate::wiiu::str_opt(only_job),
            decreases jobs@.len() - j,
        {
            let mut k: usize = 0;
            while k < j
                invariant
                    k <= j < jobs@.len(),
                    s == crate::domain::job_views(jobs@),
                    forall|q: int| 0 <= q < k ==> #[trigger] s[q].id != s[j as int].id,
                    first_repeat(s, 0) == first_repeat(s, j as int),
                    vita_upto(ev, o, n as int) == Ok::<Seq<crate::domain::JobView>, Seq<char>>(js),
                    s == sort_vita(js),
                    n == ev.len(),
                    ev == listing_views(entries@),
                    o == crate::wiiu::str_opt(only_job),
                decreases j - k,
            {
                assert(s[k as int].id == jobs@[k as int].id@ && s[j as int].id == jobs@[j as int].id@);
                if jobs[k].id == jobs[j].id {
                    assert(first_repeat(s, j as int) == Some(j as int));
                    let dup = chars_of(jobs[j].id.as_str());
                    assert(spec_vita_inventory(ev, o) == Err::<Seq<crate::domain::JobView>, Seq<char>>(
                        "duplicate Vita title ID: "@ + dup@,
                    ));
                    return Err(message_with("duplicate Vita title ID: ", &dup));
                }
                k += 1;
            }
            assert(!(exists|q: int| 0 <= q < j && #[trigger] s[q].id == s[j as int].id));
            j += 1;
        }
        if let Some(o) = only_job {
            if jobs.len() == 0 {
                return Err(message_with("requested Vita title was not found: ", &chars_of(o)));
            }
        }
        Ok(VitaInventory { jobs })
    }
}

/// Where the deployment record of a job lies: `<root>/deployments/<id>.tsv`.
pub fn manifest_path(root: &String, job_id: &str) -> (r: String)
    ensures
        r@ == crate::state::spec_join(crate::state::spec_join(root@, "deployments"@), job_id@ + ".tsv"@),
{
    let d = crate::state::join(root, &lit("deployments"));
    let mut name = chars_of(job_id);
    append_chars(&mut name, &lit(".tsv"));
    crate::state::join(&d, &name)
}

} // verus!
