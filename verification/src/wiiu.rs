//! Wii U titles: metadata of decrypted titles, title IDs of archives, and the inventory
//! that groups base, update and DLC archives into jobs.
use vstd::prelude::*;
use vstd::slice::slice_subrange;

use crate::domain::{
    artifact_views, job_views, role_count, role_name, role_rank, ArtifactView, ComponentKind, Job,
    JobView, SourceArtifact,
};
use crate::error::{message, message_with, PipelineError, Result};
use crate::manifest::{file_name, spec_file_name};
use crate::order::{chars_less, lex_less};
use crate::numbers::{all_hex, decimal, decimal_chars, hex, hex_chars, parse_u64, spec_parse_u64};
use crate::text::{
    append_chars, chars_eq, chars_of, concat, ends_with, is_blank, lines, spec_blank, spec_ends_with,
    spec_lines, spec_lower, spec_split_once, split_once, to_lower, views, contains_chars, spec_contains, copy_range, find_chars, is_hex, lemma_find, lit, occurs_at, spec_find,
    spec_trim, spec_upper, string_of, to_upper, trim,
};

verus! {

/// The title ID and version of a decrypted title.
#[derive(Clone, Debug, PartialEq, Eq)]
pub struct TitleMetadata {
    pub title_id: String,
    pub version: u64,
}

/// The trimmed text between the opening tag `<tag ...>` and the closing tag `</tag>` of
/// the first element named `tag`.
pub open spec fn tag_value(xml: Seq<char>, tag: Seq<char>) -> Option<Seq<char>> {
    match spec_find(xml, seq!['<'] + tag) {
        None => None,
        Some(open) => match spec_find(xml.skip(open), seq!['>']) {
            None => None,
            Some(gt) => {
                let start = open + gt + 1;
                match spec_find(xml.skip(start), seq!['<', '/'] + tag + seq!['>']) {
                    None => None,
                    Some(len) => Some(spec_trim(xml.subrange(start, start + len))),
                }
            },
        },
    }
}

/// What `meta/meta.xml` yields: the upper-case title ID (sixteen hexadecimal digits) and
/// the version, or the message of the error.
pub open spec fn spec_meta(xml: Seq<char>) -> core::result::Result<(Seq<char>, u64), Seq<char>> {
    match tag_value(xml, "title_id"@) {
        None => Err("meta.xml has no title_id"@),
        Some(raw) => {
            let title_id = spec_upper(raw);
            if !(title_id.len() == 16 && all_hex(title_id)) {
                Err("invalid title_id in meta.xml: "@ + title_id)
            } else {
                match tag_value(xml, "title_version"@) {
                    None => Err("meta.xml has no title_version"@),
                    Some(v) => match spec_parse_u64(v) {
                        None => Err("invalid title_version in meta.xml: "@ + v),
                        Some(version) => Ok((title_id, version)),
                    },
                }
            }
        },
    }
}

/// The value of the first element named `tag`.
fn value(xml: &[char], tag: &str) -> (r: Option<Vec<char>>)
    ensures
        r matches Some(v) ==> tag_value(xml@, tag@) == Some(v@),
        r is None ==> tag_value(xml@, tag@) is None,
{
    let t = chars_of(tag);
    let lt = ['<'];
    let open_pat = concat(&lt, &t);
    assert(lt@ =~= seq!['<']);
    let open = match find_chars(xml, &open_pat) {
        Some(i) => i,
        None => return None,
    };
    proof {
        lemma_find(xml@, open_pat@);
    }
    let after_open = slice_subrange(xml, open, xml.len());
    assert(after_open@ =~= xml@.skip(open as int));
    let gt_pat = ['>'];
    assert(gt_pat@ =~= seq!['>']);
    let gt = match find_chars(after_open, &gt_pat) {
        Some(i) => i,
        None => return None,
    };
    proof {
        lemma_find(after_open@, gt_pat@);
    }
    let start = open + gt + 1;
    let rest = slice_subrange(xml, start, xml.len());
    assert(rest@ =~= xml@.skip(start as int));
    let close_head = ['<', '/'];
    let close_tail = ['>'];
    let close_pat0 = concat(&close_head, &t);
    let close_pat = concat(&close_pat0, &close_tail);
    assert(close_head@ =~= seq!['<', '/']);
    assert(close_tail@ =~= seq!['>']);
    let len = match find_chars(rest, &close_pat) {
        Some(i) => i,
        None => return None,
    };
    proof {
        lemma_find(rest@, close_pat@);
    }
    let inner = copy_range(xml, start, start + len);
    Some(trim(&inner))
}

/// Extracts the title ID and version from a decrypted `meta/meta.xml`.
///
/// Fails when a tag is missing, the title ID is not sixteen hexadecimal digits, or the
/// version is not a number.
pub fn parse_meta_xml(xml: &str) -> (r: Result<TitleMetadata>)
    ensures
        match spec_meta(xml@) {
            Ok((id, version)) => r matches Ok(m) && m.title_id@ == id && m.version == version,
            Err(msg) => r matches Err(PipelineError::Message(m)) && m@ == msg,
        },
{
    let x = chars_of(xml);
    let raw = match value(&x, "title_id") {
        Some(v) => v,
        None => return Err(message("meta.xml has no title_id")),
    };
    let title_id = to_upper(&raw);
    let mut all: bool = true;
    let mut i: usize = 0;
    while i < title_id.len()
        invariant
            i <= title_id@.len(),
            all == (forall|j: int| 0 <= j < i ==> is_hex(#[trigger] title_id@[j])),
        decreases title_id@.len() - i,
    {
        let c = title_id[i];
        if !(('0' <= c && c <= '9') || ('a' <= c && c <= 'f') || ('A' <= c && c <= 'F')) {
            all = false;
        }
        i += 1;
    }
    if title_id.len() != 16 || !all {
        return Err(message_with("invalid title_id in meta.xml: ", &title_id));
    }
    let version_text = match value(&x, "title_version") {
        Some(v) => v,
        None => return Err(message("meta.xml has no title_version")),
    };
    let version = match parse_u64(&version_text) {
        Some(v) => v,
        None => return Err(message_with("invalid title_version in meta.xml: ", &version_text)),
    };
    Ok(TitleMetadata { title_id: string_of(&title_id), version })
}

/// Where a TMD stores the title ID.
pub const TMD_TITLE_ID_OFFSET: usize = 0x18c;

/// The length of a TMD's title ID, in bytes.
pub const TMD_TITLE_ID_LENGTH: usize = 8;

/// Reads the title ID stored in a Wii U TMD, as sixteen upper-case hexadecimal digits.
///
/// Fails when the TMD is too short to hold it.
pub fn parse_tmd_title_id(tmd: &[u8]) -> (r: Result<String>)
    ensures
        tmd@.len() >= TMD_TITLE_ID_OFFSET + TMD_TITLE_ID_LENGTH ==> (r matches Ok(s) && s@
            == hex_chars(
            tmd@.subrange(TMD_TITLE_ID_OFFSET as int, TMD_TITLE_ID_OFFSET + TMD_TITLE_ID_LENGTH),
            true,
        )),
        tmd@.len() < TMD_TITLE_ID_OFFSET + TMD_TITLE_ID_LENGTH ==> (r matches Err(
            PipelineError::Message(m),
        ) && m@ == "title.tmd is too short"@),
{
    if tmd.len() < TMD_TITLE_ID_OFFSET + TMD_TITLE_ID_LENGTH {
        return Err(message("title.tmd is too short"));
    }
    let bytes = slice_subrange(tmd, TMD_TITLE_ID_OFFSET, TMD_TITLE_ID_OFFSET + TMD_TITLE_ID_LENGTH);
    let digits = hex(bytes, true);
    Ok(string_of(&digits))
}

/// The title-ID prefix of a component role.
pub open spec fn role_prefix(role: ComponentKind) -> Seq<char> {
    match role {
        ComponentKind::Base => "00050000"@,
        ComponentKind::Update => "0005000E"@,
        ComponentKind::Dlc => "0005000C"@,
    }
}

/// The title ID of the component with `role` in the group with the given low eight digits.
pub fn component_title_id(role: ComponentKind, suffix: &[char]) -> (r: Vec<char>)
    ensures
        r@ == role_prefix(role) + suffix@,
{
    let prefix = match role {
        ComponentKind::Base => lit("00050000"),
        ComponentKind::Update => lit("0005000E"),
        ComponentKind::Dlc => lit("0005000C"),
    };
    concat(&prefix, suffix)
}

/// The low eight digits of a title ID: the part that names its group.
pub open spec fn group_of(title_id: Seq<char>) -> Seq<char> {
    title_id.skip(8)
}

/// The title ID under which an artifact's title is packaged: its role's prefix and its
/// group.
pub fn packaged_title_id(artifact: &SourceArtifact) -> (r: String)
    requires
        artifact.title_id@.len() >= 8,
    ensures
        r@ == role_prefix(artifact.role) + group_of(artifact.title_id@),
{
    let id = chars_of(artifact.title_id.as_str());
    let suffix = slice_subrange(&id, 8, id.len());
    let r = component_title_id(artifact.role, suffix);
    string_of(&r)
}

/// The title ID that a component's `title.tmd` must name: its own.
pub open spec fn expected_tmd_title(a: ArtifactView) -> Seq<char> {
    role_prefix(a.role) + group_of(a.title_id)
}

/// Checks the title ID that an extracted archive's `title.tmd` names against the one its
/// component must have.
pub fn check_tmd_title(artifact: &SourceArtifact, actual: &String) -> (r: Result<()>)
    requires
        artifact.title_id@.len() >= 8,
    ensures
        actual@ == expected_tmd_title(artifact@) ==> r is Ok,
        actual@ != expected_tmd_title(artifact@) ==> (r matches Err(PipelineError::Message(m))
            && m@ == "TMD title ID mismatch role="@ + role_name(artifact.role) + " expected="@
            + expected_tmd_title(artifact@) + " actual="@ + actual@ + " archive="@ + artifact.name@),
{
    let expected = packaged_title_id(artifact);
    if chars_eq(&chars_of(actual.as_str()), &chars_of(expected.as_str())) {
        return Ok(());
    }
    let mut m = lit("TMD title ID mismatch role=");
    append_chars(&mut m, &chars_of(artifact.role.as_str()));
    append_chars(&mut m, &lit(" expected="));
    append_chars(&mut m, &chars_of(expected.as_str()));
    append_chars(&mut m, &lit(" actual="));
    append_chars(&mut m, &chars_of(actual.as_str()));
    append_chars(&mut m, &lit(" archive="));
    append_chars(&mut m, &chars_of(artifact.name.as_str()));
    Err(PipelineError::Message(string_of(&m)))
}

/// Checks that an extracted archive holds exactly one `title.tmd`.
pub fn check_tmd_count(artifact: &SourceArtifact, count: usize) -> (r: Result<()>)
    ensures
        count == 1 ==> r is Ok,
        count != 1 ==> (r matches Err(PipelineError::Message(m)) && m@
            == "expected one title.tmd in "@ + artifact.name@ + ", found "@ + decimal_chars(
            count as nat,
        )),
{
    if count == 1 {
        return Ok(());
    }
    let mut m = lit("expected one title.tmd in ");
    append_chars(&mut m, &chars_of(artifact.name.as_str()));
    append_chars(&mut m, &lit(", found "));
    append_chars(&mut m, &decimal(count as u64));
    Err(PipelineError::Message(string_of(&m)))
}

/// The title ID that a decrypted component's metadata must name: that of its base title,
/// or its own for DLC.
pub open spec fn expected_metadata_title(a: ArtifactView) -> Seq<char> {
    match a.role {
        ComponentKind::Dlc => role_prefix(ComponentKind::Dlc) + group_of(a.title_id),
        _ => role_prefix(ComponentKind::Base) + group_of(a.title_id),
    }
}

/// Checks the title ID in a decrypted component's metadata.
pub fn check_metadata_title(artifact: &SourceArtifact, metadata: &TitleMetadata) -> (r: Result<()>)
    requires
        artifact.title_id@.len() >= 8,
    ensures
        metadata.title_id@ == expected_metadata_title(artifact@) ==> r is Ok,
        metadata.title_id@ != expected_metadata_title(artifact@) ==> (r matches Err(
            PipelineError::Message(m),
        ) && m@ == "decrypted metadata title ID mismatch role="@ + role_name(artifact.role)
            + " expected="@ + expected_metadata_title(artifact@) + " actual="@
            + metadata.title_id@),
{
    let id = chars_of(artifact.title_id.as_str());
    let suffix = slice_subrange(&id, 8, id.len());
    let expected = match artifact.role {
        ComponentKind::Dlc => component_title_id(ComponentKind::Dlc, suffix),
        _ => component_title_id(ComponentKind::Base, suffix),
    };
    if chars_eq(&chars_of(metadata.title_id.as_str()), &expected) {
        return Ok(());
    }
    let mut m = lit("decrypted metadata title ID mismatch role=");
    append_chars(&mut m, &chars_of(artifact.role.as_str()));
    append_chars(&mut m, &lit(" expected="));
    append_chars(&mut m, &expected);
    append_chars(&mut m, &lit(" actual="));
    append_chars(&mut m, &chars_of(metadata.title_id.as_str()));
    Err(PipelineError::Message(string_of(&m)))
}

/// Checks a decrypted component: a base title has a `code` directory, and no component
/// holds a symbolic link.
pub fn check_decrypted(artifact: &SourceArtifact, has_code_dir: bool, has_symlink: bool) -> (r:
    Result<()>)
    ensures
        (artifact.role == ComponentKind::Base && !has_code_dir) ==> (r matches Err(
            PipelineError::Message(m),
        ) && m@ == "base title has no decrypted code directory: "@ + artifact.name@),
        !(artifact.role == ComponentKind::Base && !has_code_dir) && has_symlink ==> (r matches Err(
            PipelineError::Message(m),
        ) && m@ == "decrypted title contains a symbolic link: "@ + artifact.name@),
        !(artifact.role == ComponentKind::Base && !has_code_dir) && !has_symlink ==> r is Ok,
{
    let base = match artifact.role {
        ComponentKind::Base => true,
        _ => false,
    };
    if base && !has_code_dir {
        return Err(message_with(
            "base title has no decrypted code directory: ",
            &chars_of(artifact.name.as_str()),
        ));
    }
    if has_symlink {
        return Err(message_with(
            "decrypted title contains a symbolic link: ",
            &chars_of(artifact.name.as_str()),
        ));
    }
    Ok(())
}

/// A title ID in brackets starts at `i`: `'['`, sixteen hexadecimal digits, `']'`, and at
/// least one more character after it.
pub open spec fn id_at(s: Seq<char>, i: int) -> bool {
    &&& 0 <= i
    &&& i + 17 < s.len()
    &&& s[i] == '['
    &&& s[i + 17] == ']'
    &&& forall|k: int| i + 1 <= k < i + 17 ==> is_hex(#[trigger] s[k])
}

/// The first index at or after `i` where a bracketed title ID starts.
pub open spec fn first_id_from(s: Seq<char>, i: int) -> Option<int>
    decreases s.len() - i,
{
    if i < 0 || i + 17 >= s.len() {
        None
    } else if id_at(s, i) {
        Some(i)
    } else {
        first_id_from(s, i + 1)
    }
}

/// Where `first_id_from` finds a title ID, one starts.
proof fn lemma_first_id(s: Seq<char>, i: int)
    requires
        0 <= i,
    ensures
        first_id_from(s, i) matches Some(k) ==> id_at(s, k),
    decreases s.len() - i,
{
    if !(i < 0 || i + 17 >= s.len()) && !id_at(s, i) {
        lemma_first_id(s, i + 1);
    }
}

/// The first bracketed title ID in an archive name, in upper case.
pub open spec fn spec_title_id_from_name(name: Seq<char>) -> Option<Seq<char>> {
    match first_id_from(name, 0) {
        Some(i) => Some(spec_upper(name.subrange(i + 1, i + 17))),
        None => None,
    }
}

/// The first bracketed title ID in an archive name, in upper case.
///
/// The bracket and the digits are ASCII, so searching the characters finds what a search
/// of the UTF-8 bytes finds.
pub fn title_id_from_name(name: &[char]) -> (r: Option<Vec<char>>)
    ensures
        r matches Some(id) ==> spec_title_id_from_name(name@) == Some(id@),
        r is None ==> spec_title_id_from_name(name@) is None,
{
    let n = name.len();
    let mut start: usize = 0;
    while n > 17 && start < n - 17
        invariant
            n == name@.len(),
            first_id_from(name@, 0) == first_id_from(name@, start as int),
        decreases n - start,
    {
        if name[start] == '[' && name[start + 17] == ']' {
            let mut all: bool = true;
            let mut k: usize = start + 1;
            while k < start + 17
                invariant
                    start + 1 <= k <= start + 17,
                    start + 17 < n,
                    n == name@.len(),
                    all == (forall|j: int| start + 1 <= j < k ==> is_hex(#[trigger] name@[j])),
                decreases start + 17 - k,
            {
                let c = name[k];
                if !(('0' <= c && c <= '9') || ('a' <= c && c <= 'f') || ('A' <= c && c <= 'F')) {
                    all = false;
                }
                k += 1;
            }
            if all {
                assert(id_at(name@, start as int));
                let candidate = copy_range(name, start + 1, start + 17);
                return Some(to_upper(&candidate));
            }
            assert(!id_at(name@, start as int));
        }
        start += 1;
    }
    None
}

/// The role of an archive: its name's `[UPDATE ` or `[DLC]` label, else its title ID's
/// prefix; another prefix is an error.
pub open spec fn spec_component_kind(title_id: Seq<char>, name: Seq<char>) -> core::result::Result<
    ComponentKind,
    Seq<char>,
> {
    if spec_contains(name, "[UPDATE "@) {
        Ok(ComponentKind::Update)
    } else if spec_contains(name, "[DLC]"@) {
        Ok(ComponentKind::Dlc)
    } else {
        let prefix = title_id.take(8);
        if prefix == "00050000"@ {
            Ok(ComponentKind::Base)
        } else if prefix == "0005000E"@ {
            Ok(ComponentKind::Update)
        } else if prefix == "0005000C"@ {
            Ok(ComponentKind::Dlc)
        } else {
            Err("unsupported Wii U title type "@ + prefix + ": "@ + name)
        }
    }
}

/// A `Message` error made of a literal, a value, a literal and a value.
fn message4(a: &str, b: &[char], c: &str, d: &[char]) -> (r: PipelineError)
    ensures
        r matches PipelineError::Message(m) && m@ == a@ + b@ + c@ + d@,
{
    let x = concat(&lit(a), b);
    let y = concat(&x, &lit(c));
    let z = concat(&y, d);
    PipelineError::Message(string_of(&z))
}

/// The role of an archive, from its name's label or its title ID's prefix.
fn component_kind(title_id: &[char], name: &[char]) -> (r: Result<ComponentKind>)
    requires
        title_id@.len() >= 8,
    ensures
        match spec_component_kind(title_id@, name@) {
            Ok(role) => r == Ok::<ComponentKind, PipelineError>(role),
            Err(msg) => r matches Err(PipelineError::Message(m)) && m@ == msg,
        },
{
    if contains_chars(name, &lit("[UPDATE ")) {
        return Ok(ComponentKind::Update);
    }
    if contains_chars(name, &lit("[DLC]")) {
        return Ok(ComponentKind::Dlc);
    }
    let prefix = copy_range(title_id, 0, 8);
    assert(prefix@ =~= title_id@.take(8));
    if chars_eq(&prefix, &lit("00050000")) {
        Ok(ComponentKind::Base)
    } else if chars_eq(&prefix, &lit("0005000E")) {
        Ok(ComponentKind::Update)
    } else if chars_eq(&prefix, &lit("0005000C")) {
        Ok(ComponentKind::Dlc)
    } else {
        Err(message4("unsupported Wii U title type ", &prefix, ": ", name))
    }
}

/// Whether a group holds exactly one base and at most one update and one DLC; the error
/// message names the counts.
pub open spec fn spec_validate(group: Seq<char>, sources: Seq<ArtifactView>) -> core::result::Result<
    (),
    Seq<char>,
> {
    let base = role_count(sources, ComponentKind::Base);
    let update = role_count(sources, ComponentKind::Update);
    let dlc = role_count(sources, ComponentKind::Dlc);
    if base != 1 || update > 1 || dlc > 1 {
        Err(
            "invalid component set group="@ + group + " base="@ + decimal_chars(base)
                + " update="@ + decimal_chars(update) + " dlc="@ + decimal_chars(dlc),
        )
    } else {
        Ok(())
    }
}

/// The number of sources with a role.
fn count_sources(sources: &[SourceArtifact], role: ComponentKind) -> (r: usize)
    ensures
        r == role_count(artifact_views(sources@), role),
{
    let mut count: usize = 0;
    for i in 0..sources.len()
        invariant
            count == role_count(artifact_views(sources@.take(i as int)), role),
            count <= i,
    {
        assert(artifact_views(sources@.take(i + 1 as int)).drop_last() =~= artifact_views(
            sources@.take(i as int),
        ));
        if sources[i].role.same(role) {
            count += 1;
        }
    }
    assert(sources@.take(sources@.len() as int) =~= sources@);
    count
}

/// Checks that a group holds exactly one base and at most one update and one DLC.
fn validate_components(group: &[char], sources: &[SourceArtifact]) -> (r: Result<()>)
    ensures
        match spec_validate(group@, artifact_views(sources@)) {
            Ok(()) => r is Ok,
            Err(msg) => r matches Err(PipelineError::Message(m)) && m@ == msg,
        },
{
    let base = count_sources(sources, ComponentKind::Base);
    let update = count_sources(sources, ComponentKind::Update);
    let dlc = count_sources(sources, ComponentKind::Dlc);
    if base != 1 || update > 1 || dlc > 1 {
        let mut m = lit("invalid component set group=");
        append_chars(&mut m, group);
        append_chars(&mut m, &lit(" base="));
        append_chars(&mut m, &decimal(base as u64));
        append_chars(&mut m, &lit(" update="));
        append_chars(&mut m, &decimal(update as u64));
        append_chars(&mut m, &lit(" dlc="));
        append_chars(&mut m, &decimal(dlc as u64));
        return Err(PipelineError::Message(string_of(&m)));
    }
    Ok(())
}

/// The first index at or after `i` of a base source.
pub open spec fn first_base_from(s: Seq<ArtifactView>, i: int) -> Option<int>
    decreases s.len() - i,
{
    if i < 0 || i >= s.len() {
        None
    } else if s[i].role == ComponentKind::Base {
        Some(i)
    } else {
        first_base_from(s, i + 1)
    }
}

/// The source whose name gives the job its name: the first base, else the first source.
pub open spec fn preferred_source(s: Seq<ArtifactView>) -> Option<int> {
    match first_base_from(s, 0) {
        Some(i) => Some(i),
        None => if s.len() > 0 {
            Some(0)
        } else {
            None
        },
    }
}

/// A group's display name: the preferred source's name up to ` [` and its title ID.
pub open spec fn spec_display_name(s: Seq<ArtifactView>) -> core::result::Result<
    Seq<char>,
    Seq<char>,
> {
    match preferred_source(s) {
        None => Err("Wii U group has no sources"@),
        Some(i) => {
            let p = s[i];
            match spec_find(p.name, " ["@ + p.title_id + "]"@) {
                None => Err("title ID marker missing from archive name: "@ + p.name),
                Some(end) => Ok(p.name.take(end)),
            }
        },
    }
}

/// A group's display name.
fn display_name(sources: &[SourceArtifact]) -> (r: Result<Vec<char>>)
    ensures
        match spec_display_name(artifact_views(sources@)) {
            Ok(name) => r matches Ok(n) && n@ == name,
            Err(msg) => r matches Err(PipelineError::Message(m)) && m@ == msg,
        },
{
    let ghost sv = artifact_views(sources@);
    let mut i: usize = 0;
    while i < sources.len()
        invariant
            i <= sources@.len(),
            sv == artifact_views(sources@),
            first_base_from(sv, 0) == first_base_from(sv, i as int),
        ensures
            i <= sources@.len(),
            first_base_from(sv, 0) == (if i < sources@.len() {
                Some(i as int)
            } else {
                None::<int>
            }),
        decreases sources@.len() - i,
    {
        if sources[i].role.same(ComponentKind::Base) {
            break;
        }
        i += 1;
    }
    let index = if i < sources.len() {
        i
    } else if sources.len() > 0 {
        0
    } else {
        return Err(message("Wii U group has no sources"));
    };
    assert(preferred_source(sv) == Some(index as int));
    let preferred = &sources[index];
    let name = chars_of(preferred.name.as_str());
    let mut marker = lit(" [");
    append_chars(&mut marker, &chars_of(preferred.title_id.as_str()));
    append_chars(&mut marker, &lit("]"));
    match find_chars(&name, &marker) {
        Some(end) => {
            proof {
                lemma_find(name@, marker@);
            }
            Ok(copy_range(&name, 0, end))
        },
        None => Err(message_with("title ID marker missing from archive name: ", &name)),
    }
}

/// The order of sources within a job: by role, then title ID, then name.
pub open spec fn source_before(a: ArtifactView, b: ArtifactView) -> bool {
    ||| role_rank(a.role) < role_rank(b.role)
    ||| (a.role == b.role && lex_less(a.title_id, b.title_id))
    ||| (a.role == b.role && a.title_id == b.title_id && lex_less(a.name, b.name))
}

/// Inserts `x` after the trailing sources that it does not come before: a stable insertion
/// into a sorted sequence.
pub open spec fn insert_source_spec(s: Seq<ArtifactView>, x: ArtifactView) -> Seq<ArtifactView>
    decreases s.len(),
{
    if s.len() == 0 {
        seq![x]
    } else if source_before(x, s.last()) {
        insert_source_spec(s.drop_last(), x).push(s.last())
    } else {
        s.push(x)
    }
}

/// Whether `a` comes before `b` in a job.
fn is_source_before(a: &SourceArtifact, b: &SourceArtifact) -> (r: bool)
    ensures
        r == source_before(a@, b@),
{
    let ra = a.role.rank();
    let rb = b.role.rank();
    if ra < rb {
        return true;
    }
    if ra > rb {
        return false;
    }
    assert(a.role == b.role) by {
        assert(role_rank(a.role) == role_rank(b.role));
    }
    let ta = chars_of(a.title_id.as_str());
    let tb = chars_of(b.title_id.as_str());
    if chars_less(&ta, &tb) {
        return true;
    }
    if !chars_eq(&ta, &tb) {
        return false;
    }
    let na = chars_of(a.name.as_str());
    let nb = chars_of(b.name.as_str());
    chars_less(&na, &nb)
}

/// Inserts a source into a job's sorted sources, after those equal to it.
fn insert_source(v: &mut Vec<SourceArtifact>, a: SourceArtifact)
    ensures
        artifact_views(final(v)@) == insert_source_spec(artifact_views(old(v)@), a@),
{
    let ghost s = artifact_views(v@);
    let mut p = v.len();
    assert(s.take(p as int) =~= s);
    assert(s.skip(p as int) =~= Seq::<ArtifactView>::empty());
    while p > 0 && is_source_before(&a, &v[p - 1])
        invariant
            p <= v@.len(),
            v@ == old(v)@,
            s == artifact_views(v@),
            insert_source_spec(s, a@) == insert_source_spec(s.take(p as int), a@) + s.skip(
                p as int,
            ),
        decreases p,
    {
        proof {
            let t = s.take(p as int);
            assert(t.drop_last() =~= s.take(p - 1));
            assert(t.last() == s[p - 1]);
            assert(insert_source_spec(s.take(p - 1), a@).push(s[p - 1]) + s.skip(p as int)
                =~= insert_source_spec(s.take(p - 1), a@) + s.skip(p - 1));
        }
        p -= 1;
    }
    proof {
        if p == 0 {
            assert(s.take(0) =~= Seq::<ArtifactView>::empty());
        } else {
            assert(s.take(p as int).last() == s[p - 1]);
        }
    }
    v.insert(p, a);
    assert(artifact_views(v@) =~= insert_source_spec(s.take(p as int), a@) + s.skip(p as int));
}

/// The groups of a manifest: each group ID with its sorted sources.
pub open spec fn group_views(g: Seq<(Vec<char>, Vec<SourceArtifact>)>) -> Seq<
    (Seq<char>, Seq<ArtifactView>),
> {
    g.map_values(|e: (Vec<char>, Vec<SourceArtifact>)| (e.0@, artifact_views(e.1@)))
}

/// Adds a source to the groups, whose IDs are kept in increasing order: into its group if
/// there is one, else into a new group at its place.
pub open spec fn group_insert(
    gs: Seq<(Seq<char>, Seq<ArtifactView>)>,
    g: Seq<char>,
    a: ArtifactView,
) -> Seq<(Seq<char>, Seq<ArtifactView>)>
    decreases gs.len(),
{
    if gs.len() == 0 {
        seq![(g, seq![a])]
    } else if lex_less(gs[0].0, g) {
        seq![gs[0]] + group_insert(gs.drop_first(), g, a)
    } else if gs[0].0 == g {
        seq![(g, insert_source_spec(gs[0].1, a))] + gs.drop_first()
    } else {
        seq![(g, seq![a])] + gs
    }
}

/// The groups that a sequence of entries (group ID and source) makes, in order.
pub open spec fn group_all(es: Seq<(Seq<char>, ArtifactView)>) -> Seq<
    (Seq<char>, Seq<ArtifactView>),
>
    decreases es.len(),
{
    if es.len() == 0 {
        seq![]
    } else {
        group_insert(group_all(es.drop_last()), es.last().0, es.last().1)
    }
}

/// Where `group_insert` puts a source.
proof fn lemma_group_insert_at(
    gs: Seq<(Seq<char>, Seq<ArtifactView>)>,
    g: Seq<char>,
    a: ArtifactView,
    p: int,
)
    requires
        0 <= p <= gs.len(),
        forall|j: int| 0 <= j < p ==> lex_less(#[trigger] gs[j].0, g),
        p < gs.len() ==> !lex_less(gs[p].0, g),
    ensures
        group_insert(gs, g, a) == (if p < gs.len() && gs[p].0 == g {
            gs.update(p, (g, insert_source_spec(gs[p].1, a)))
        } else {
            gs.insert(p, (g, seq![a]))
        }),
    decreases p,
{
    if p == 0 {
        if gs.len() == 0 {
            assert(gs.insert(0, (g, seq![a])) =~= seq![(g, seq![a])]);
        } else if gs[0].0 == g {
            assert(seq![(g, insert_source_spec(gs[0].1, a))] + gs.drop_first() =~= gs.update(
                0,
                (g, insert_source_spec(gs[0].1, a)),
            ));
        } else {
            assert(seq![(g, seq![a])] + gs =~= gs.insert(0, (g, seq![a])));
        }
    } else {
        let rest = gs.drop_first();
        assert(lex_less(gs[0].0, g));
        assert forall|j: int| 0 <= j < p - 1 implies lex_less(#[trigger] rest[j].0, g) by {
            assert(rest[j] == gs[j + 1]);
        }
        lemma_group_insert_at(rest, g, a, p - 1);
        if p < gs.len() && gs[p].0 == g {
            assert(seq![gs[0]] + rest.update(p - 1, (g, insert_source_spec(rest[p - 1].1, a)))
                =~= gs.update(p, (g, insert_source_spec(gs[p].1, a))));
        } else {
            assert(seq![gs[0]] + rest.insert(p - 1, (g, seq![a])) =~= gs.insert(
                p,
                (g, seq![a]),
            ));
        }
    }
}

/// Adds a source to the groups, keeping their IDs in increasing order.
fn insert_entry(groups: &mut Vec<(Vec<char>, Vec<SourceArtifact>)>, key: Vec<char>, a: SourceArtifact)
    ensures
        group_views(final(groups)@) == group_insert(group_views(old(groups)@), key@, a@),
{
    let ghost gs = group_views(groups@);
    let mut p: usize = 0;
    while p < groups.len() && chars_less(&groups[p].0, &key)
        invariant
            p <= groups@.len(),
            groups@ == old(groups)@,
            gs == group_views(groups@),
            forall|j: int| 0 <= j < p ==> lex_less(#[trigger] gs[j].0, key@),
        decreases groups@.len() - p,
    {
        p += 1;
    }
    proof {
        lemma_group_insert_at(gs, key@, a@, p as int);
    }
    if p < groups.len() && chars_eq(&groups[p].0, &key) {
        let (k, mut members) = groups.remove(p);
        insert_source(&mut members, a);
        groups.insert(p, (k, members));
        assert(group_views(groups@) =~= gs.update(
            p as int,
            (key@, insert_source_spec(gs[p as int].1, a@)),
        ));
    } else {
        let ghost av = a@;
        let members = vec![a];
        assert(artifact_views(members@) =~= seq![av]);
        groups.insert(p, (key, members));
        assert(group_views(groups@) =~= gs.insert(p as int, (key@, seq![av])));
    }
}

/// The view of an optional character vector.
pub open spec fn chars_opt(o: Option<Vec<char>>) -> Option<Seq<char>> {
    match o {
        Some(v) => Some(v@),
        None => None,
    }
}

/// The view of an optional string.
pub open spec fn str_opt(o: Option<&str>) -> Option<Seq<char>> {
    match o {
        Some(v) => Some(v@),
        None => None,
    }
}

/// What line `number` of a manifest contributes: nothing, a group ID with its source, or
/// the message of an error.
///
/// A line is a size, a tab and an archive name. Blank lines and names that do not end in
/// `.7z` are skipped, and so are groups other than `only` when it is given.
pub open spec fn spec_line_entry(
    line: Seq<char>,
    only: Option<Seq<char>>,
    number: nat,
) -> core::result::Result<Option<(Seq<char>, ArtifactView)>, Seq<char>> {
    match spec_split_once(line, seq!['\t']) {
        None => if spec_blank(line) {
            Ok(None)
        } else {
            Err("manifest line "@ + decimal_chars(number) + " has no tab separator"@)
        },
        Some((size, name)) => if !spec_ends_with(spec_lower(name), ".7z"@) {
            Ok(None)
        } else {
            match spec_parse_u64(size) {
                None => Err("invalid size on manifest line "@ + decimal_chars(number)),
                Some(expected_size) => match spec_title_id_from_name(name) {
                    None => Err("no Wii U title ID in archive name: "@ + name),
                    Some(title_id) => {
                        let group = group_of(title_id);
                        if only matches Some(o) && o != group {
                            Ok(None)
                        } else {
                            match spec_component_kind(title_id, name) {
                                Err(m) => Err(m),
                                Ok(role) => Ok(
                                    Some(
                                        (
                                            group,
                                            ArtifactView { title_id, expected_size, name, role },
                                        ),
                                    ),
                                ),
                            }
                        }
                    },
                },
            }
        },
    }
}

/// What one manifest line contributes.
fn line_entry(line: &[char], only: &Option<Vec<char>>, number: usize) -> (r: Result<
    Option<(Vec<char>, SourceArtifact)>,
>)
    ensures
        match spec_line_entry(line@, chars_opt(*only), number as nat) {
            Ok(None) => r matches Ok(None),
            Ok(Some((g, a))) => r matches Ok(Some((g2, a2))) && g2@ == g && a2@ == a,
            Err(msg) => r matches Err(PipelineError::Message(m)) && m@ == msg,
        },
{
    let tab = ['\t'];
    assert(tab@ =~= seq!['\t']);
    let (size, name) = match split_once(line, &tab) {
        Some(parts) => parts,
        None => {
            if is_blank(line) {
                return Ok(None);
            }
            let mut m = lit("manifest line ");
            append_chars(&mut m, &decimal(number as u64));
            append_chars(&mut m, &lit(" has no tab separator"));
            return Err(PipelineError::Message(string_of(&m)));
        },
    };
    if !ends_with(&to_lower(&name), &lit(".7z")) {
        return Ok(None);
    }
    let expected_size = match parse_u64(&size) {
        Some(v) => v,
        None => return Err(message_with("invalid size on manifest line ", &decimal(number as u64))),
    };
    let title_id = match title_id_from_name(&name) {
        Some(t) => t,
        None => return Err(message_with("no Wii U title ID in archive name: ", &name)),
    };
    proof {
        lemma_first_id(name@, 0);
    }
    assert(title_id@.len() == 16);
    let group = copy_range(&title_id, 8, title_id.len());
    assert(group@ =~= group_of(title_id@));
    match only {
        Some(o) => {
            if !chars_eq(o, &group) {
                return Ok(None);
            }
        },
        None => {},
    }
    let role = match component_kind(&title_id, &name) {
        Ok(role) => role,
        Err(e) => return Err(e),
    };
    let artifact = SourceArtifact {
        title_id: string_of(&title_id),
        expected_size,
        name: string_of(&name),
        role,
    };
    Ok(Some((group, artifact)))
}

/// The entries of the first `i` manifest lines, or the message of the first error among
/// them.
pub open spec fn entries_upto(
    lines: Seq<Seq<char>>,
    only: Option<Seq<char>>,
    i: int,
) -> core::result::Result<Seq<(Seq<char>, ArtifactView)>, Seq<char>>
    decreases i,
{
    if i <= 0 {
        Ok(seq![])
    } else {
        match entries_upto(lines, only, i - 1) {
            Err(m) => Err(m),
            Ok(es) => match spec_line_entry(lines[i - 1], only, i as nat) {
                Err(m) => Err(m),
                Ok(None) => Ok(es),
                Ok(Some(e)) => Ok(es.push(e)),
            },
        }
    }
}

/// Once a line fails, so does every longer prefix of the manifest.
proof fn lemma_entries_error(lines: Seq<Seq<char>>, only: Option<Seq<char>>, i: int, n: int)
    requires
        0 <= i <= n,
        entries_upto(lines, only, i) is Err,
    ensures
        entries_upto(lines, only, n) == entries_upto(lines, only, i),
    decreases n - i,
{
    if n > i {
        lemma_entries_error(lines, only, i, n - 1);
    }
}

/// The number of jobs with a display name.
pub open spec fn display_count(jobs: Seq<JobView>, name: Seq<char>) -> nat
    decreases jobs.len(),
{
    if jobs.len() == 0 {
        0
    } else {
        display_count(jobs.drop_last(), name) + if jobs.last().display_name == name {
            1nat
        } else {
            0nat
        }
    }
}

/// The output file of the `n`-th job with a display name: `name.wua`, then `name-2.wua`
/// and so on.
pub open spec fn output_file(name: Seq<char>, n: nat) -> Seq<char> {
    if n == 1 {
        name + ".wua"@
    } else {
        name + "-"@ + decimal_chars(n) + ".wua"@
    }
}

/// The job that a group makes after the jobs `prev`, or the message of its error.
pub open spec fn spec_job(
    id: Seq<char>,
    sources: Seq<ArtifactView>,
    prev: Seq<JobView>,
) -> core::result::Result<JobView, Seq<char>> {
    match spec_validate(id, sources) {
        Err(m) => Err(m),
        Ok(()) => match spec_display_name(sources) {
            Err(m) => Err(m),
            Ok(name) => Ok(
                JobView {
                    id,
                    display_name: name,
                    output_name: output_file(name, display_count(prev, name) + 1),
                    sources,
                },
            ),
        },
    }
}

/// The jobs of the first `i` groups, or the message of the first error among them.
pub open spec fn build_jobs(gs: Seq<(Seq<char>, Seq<ArtifactView>)>, i: int) -> core::result::Result<
    Seq<JobView>,
    Seq<char>,
>
    decreases i,
{
    if i <= 0 {
        Ok(seq![])
    } else {
        match build_jobs(gs, i - 1) {
            Err(m) => Err(m),
            Ok(js) => match spec_job(gs[i - 1].0, gs[i - 1].1, js) {
                Err(m) => Err(m),
                Ok(j) => Ok(js.push(j)),
            },
        }
    }
}

/// Once a group fails, so does every longer prefix of the groups.
proof fn lemma_build_error(gs: Seq<(Seq<char>, Seq<ArtifactView>)>, i: int, n: int)
    requires
        0 <= i <= n,
        build_jobs(gs, i) is Err,
    ensures
        build_jobs(gs, n) == build_jobs(gs, i),
    decreases n - i,
{
    if n > i {
        lemma_build_error(gs, i, n - 1);
    }
}

/// What a Wii U manifest yields: its jobs, ordered by group ID, or the message of the first
/// error. `only` is compared in upper case.
pub open spec fn spec_wiiu_inventory(text: Seq<char>, only: Option<Seq<char>>) -> core::result::Result<
    Seq<JobView>,
    Seq<char>,
> {
    let ls = spec_lines(text);
    let o = match only {
        Some(x) => Some(spec_upper(x)),
        None => None,
    };
    match entries_upto(ls, o, ls.len() as int) {
        Err(m) => Err(m),
        Ok(es) => {
            let gs = group_all(es);
            build_jobs(gs, gs.len() as int)
        },
    }
}

/// The number of jobs with a display name.
fn count_display(jobs: &Vec<Job>, name: &[char]) -> (r: usize)
    ensures
        r == display_count(job_views(jobs@), name@),
        r <= jobs@.len(),
{
    let mut count: usize = 0;
    for i in 0..jobs.len()
        invariant
            count == display_count(job_views(jobs@.take(i as int)), name@),
            count <= i,
    {
        assert(job_views(jobs@.take(i + 1 as int)).drop_last() =~= job_views(jobs@.take(i as int)));
        let d = chars_of(jobs[i].display_name.as_str());
        if chars_eq(&d, name) {
            count += 1;
        }
    }
    assert(jobs@.take(jobs@.len() as int) =~= jobs@);
    count
}

/// The job that a group makes after the jobs `prev`.
fn make_job(id: Vec<char>, sources: Vec<SourceArtifact>, prev: &Vec<Job>) -> (r: Result<Job>)
    requires
        prev@.len() < usize::MAX,
    ensures
        match spec_job(id@, artifact_views(sources@), job_views(prev@)) {
            Ok(j) => r matches Ok(job) && job@ == j,
            Err(msg) => r matches Err(PipelineError::Message(m)) && m@ == msg,
        },
{
    match validate_components(&id, &sources) {
        Ok(()) => {},
        Err(e) => return Err(e),
    }
    let name = match display_name(&sources) {
        Ok(n) => n,
        Err(e) => return Err(e),
    };
    let n = count_display(prev, &name) + 1;
    let mut output = name.clone();
    assert(output@ == name@);
    if n == 1 {
        append_chars(&mut output, &lit(".wua"));
    } else {
        append_chars(&mut output, &lit("-"));
        append_chars(&mut output, &decimal(n as u64));
        append_chars(&mut output, &lit(".wua"));
    }
    Ok(Job {
        id: string_of(&id),
        display_name: string_of(&name),
        output_name: string_of(&output),
        sources,
    })
}

/// The jobs read from a Wii U manifest.
#[derive(Clone, Debug, Default, PartialEq, Eq)]
pub struct WiiUInventory {
    pub jobs: Vec<Job>,
}

impl WiiUInventory {
    /// Reads the text of a Wii U manifest and groups base, update and DLC archives by the
    /// low eight hexadecimal digits of their title IDs; `only_job` keeps one group.
    ///
    /// Fails on a line without a tab, a size that is not a number, a `.7z` name without a
    /// title ID or with an unknown title type, a group without exactly one base or with
    /// more than one update or DLC, and a base whose name lacks its title-ID marker.
    pub fn parse(text: &str, only_job: Option<&str>) -> (r: Result<WiiUInventory>)
        ensures
            match spec_wiiu_inventory(text@, str_opt(only_job)) {
                Ok(js) => r matches Ok(inv) && job_views(inv.jobs@) == js,
                Err(msg) => r matches Err(PipelineError::Message(m)) && m@ == msg,
            },
    {
        let only: Option<Vec<char>> = match only_job {
            Some(o) => Some(to_upper(&chars_of(o))),
            None => None,
        };
        let ghost o = chars_opt(only);
        assert(o == match str_opt(only_job) {
            Some(x) => Some(spec_upper(x)),
            None => None::<Seq<char>>,
        });
        let t = chars_of(text);
        let ls = lines(&t);
        let ghost lv = views(ls@);
        let mut groups: Vec<(Vec<char>, Vec<SourceArtifact>)> = Vec::new();
        let ghost mut es: Seq<(Seq<char>, ArtifactView)> = seq![];
        assert(group_views(groups@) =~= group_all(es));
        let mut idx: usize = 0;
        while idx < ls.len()
            invariant
                idx <= ls@.len(),
                lv == views(ls@),
                lv == spec_lines(t@),
                t@ == text@,
                o == chars_opt(only),
                o == match str_opt(only_job) {
                    Some(x) => Some(spec_upper(x)),
                    None => None::<Seq<char>>,
                },
                entries_upto(lv, o, idx as int) == Ok::<
                    Seq<(Seq<char>, ArtifactView)>,
                    Seq<char>,
                >(es),
                group_views(groups@) == group_all(es),
            decreases ls@.len() - idx,
        {
            assert(lv[idx as int] == ls@[idx as int]@);
            match line_entry(&ls[idx], &only, idx + 1) {
                Err(e) => {
                    proof {
                        let le = spec_line_entry(lv[idx as int], o, (idx + 1) as nat);
                        assert(le is Err);
                        assert(entries_upto(lv, o, idx + 1) == Err::<
                            Seq<(Seq<char>, ArtifactView)>,
                            Seq<char>,
                        >(le->Err_0));
                        lemma_entries_error(lv, o, idx + 1, lv.len() as int);
                    }
                    return Err(e);
                },
                Ok(None) => {},
                Ok(Some((g, a))) => {
                    let ghost e = (g@, a@);
                    let ghost old_es = es;
                    insert_entry(&mut groups, g, a);
                    proof {
                        es = old_es.push(e);
                        assert(es.drop_last() =~= old_es);
                        assert(es.last() == e);
                    }
                },
            }
            idx += 1;
        }
        let ghost gs = group_views(groups@);
        let mut jobs: Vec<Job> = Vec::new();
        let mut i: usize = 0;
        let n = groups.len();
        assert(job_views(jobs@) =~= Seq::<JobView>::empty());
        assert(groups@.skip(0) =~= groups@);
        let ghost all = groups@;
        while i < n
            invariant
                i <= n,
                n == gs.len(),
                gs == group_views(all),
                groups@ == all.skip(i as int),
                jobs@.len() == i,
                build_jobs(gs, i as int) == Ok::<Seq<JobView>, Seq<char>>(job_views(jobs@)),
                spec_wiiu_inventory(text@, str_opt(only_job)) == build_jobs(gs, n as int),
            decreases n - i,
        {
            let (id, sources) = groups.remove(0);
            assert(groups@ =~= all.skip(i + 1 as int));
            assert(gs[i as int] == (id@, artifact_views(sources@)));
            match make_job(id, sources, &jobs) {
                Err(e) => {
                    proof {
                        lemma_build_error(gs, i + 1, n as int);
                    }
                    return Err(e);
                },
                Ok(job) => {
                    let ghost before = jobs@;
                    jobs.push(job);
                    assert(job_views(jobs@) =~= job_views(before).push(job@));
                },
            }
            i += 1;
        }
        Ok(WiiUInventory { jobs })
    }
}

/// Every source satisfies `p`.
pub open spec fn all_sat(s: Seq<ArtifactView>, p: spec_fn(ArtifactView) -> bool) -> bool {
    forall|k: int| 0 <= k < s.len() ==> p(#[trigger] s[k])
}

/// Inserting a source that satisfies `p` among sources that do keeps them all satisfying it.
proof fn lemma_insert_source_sat(s: Seq<ArtifactView>, x: ArtifactView, p: spec_fn(ArtifactView) -> bool)
    requires
        all_sat(s, p),
        p(x),
    ensures
        all_sat(insert_source_spec(s, x), p),
    decreases s.len(),
{
    if s.len() > 0 && source_before(x, s.last()) {
        let d = s.drop_last();
        assert forall|k: int| 0 <= k < d.len() implies p(#[trigger] d[k]) by {
            assert(d[k] == s[k]);
        }
        lemma_insert_source_sat(d, x, p);
        let r = insert_source_spec(d, x);
        assert forall|k: int| 0 <= k < r.len() + 1 implies p(#[trigger] r.push(s.last())[k]) by {
            if k < r.len() {
                assert(r.push(s.last())[k] == r[k]);
            }
        }
    } else if s.len() > 0 {
        assert forall|k: int| 0 <= k < s.len() + 1 implies p(#[trigger] s.push(x)[k]) by {
            if k < s.len() {
                assert(s.push(x)[k] == s[k]);
            }
        }
    }
}

/// Group IDs increase strictly, and every source of a group has the group's ID.
pub open spec fn groups_wf(gs: Seq<(Seq<char>, Seq<ArtifactView>)>) -> bool {
    &&& forall|i: int, j: int|
        0 <= i < j < gs.len() ==> lex_less(#[trigger] gs[i].0, #[trigger] gs[j].0)
    &&& forall|i: int|
        0 <= i < gs.len() ==> all_sat(
            #[trigger] gs[i].1,
            |a: ArtifactView| group_of(a.title_id) == gs[i].0,
        )
}

/// Every group ID after inserting `g` exceeds a bound below `g` and below every old ID.
proof fn lemma_group_insert_lower(
    gs: Seq<(Seq<char>, Seq<ArtifactView>)>,
    g: Seq<char>,
    a: ArtifactView,
    b: Seq<char>,
)
    requires
        lex_less(b, g),
        forall|k: int| 0 <= k < gs.len() ==> lex_less(b, #[trigger] gs[k].0),
    ensures
        forall|j: int|
            0 <= j < group_insert(gs, g, a).len() ==> lex_less(
                b,
                #[trigger] group_insert(gs, g, a)[j].0,
            ),
    decreases gs.len(),
{
    if gs.len() > 0 && lex_less(gs[0].0, g) {
        let rest = gs.drop_first();
        assert forall|k: int| 0 <= k < rest.len() implies lex_less(b, #[trigger] rest[k].0) by {
            assert(rest[k] == gs[k + 1]);
        }
        lemma_group_insert_lower(rest, g, a, b);
        let r = group_insert(rest, g, a);
        assert forall|j: int| 0 <= j < r.len() + 1 implies lex_less(
            b,
            #[trigger] (seq![gs[0]] + r)[j].0,
        ) by {
            if j > 0 {
                assert((seq![gs[0]] + r)[j] == r[j - 1]);
            }
        }
    } else if gs.len() > 0 && gs[0].0 == g {
        let r = seq![(g, insert_source_spec(gs[0].1, a))] + gs.drop_first();
        assert forall|j: int| 0 <= j < r.len() implies lex_less(b, #[trigger] r[j].0) by {
            if j > 0 {
                assert(r[j] == gs[j]);
            }
        }
    } else if gs.len() > 0 {
        let r = seq![(g, seq![a])] + gs;
        assert forall|j: int| 0 <= j < r.len() implies lex_less(b, #[trigger] r[j].0) by {
            if j > 0 {
                assert(r[j] == gs[j - 1]);
            }
        }
    }
}

/// Inserting a source with the group ID `g` keeps the groups well formed.
proof fn lemma_group_insert_wf(gs: Seq<(Seq<char>, Seq<ArtifactView>)>, g: Seq<char>, a: ArtifactView)
    requires
        groups_wf(gs),
        group_of(a.title_id) == g,
    ensures
        groups_wf(group_insert(gs, g, a)),
    decreases gs.len(),
{
    let r = group_insert(gs, g, a);
    if gs.len() == 0 {
        assert(all_sat(r[0].1, |x: ArtifactView| group_of(x.title_id) == r[0].0));
    } else if lex_less(gs[0].0, g) {
        let rest = gs.drop_first();
        assert forall|i: int, j: int| 0 <= i < j < rest.len() implies lex_less(
            #[trigger] rest[i].0,
            #[trigger] rest[j].0,
        ) by {
            assert(rest[i] == gs[i + 1] && rest[j] == gs[j + 1]);
        }
        assert forall|i: int| 0 <= i < rest.len() implies all_sat(
            #[trigger] rest[i].1,
            |x: ArtifactView| group_of(x.title_id) == rest[i].0,
        ) by {
            assert(rest[i] == gs[i + 1]);
        }
        lemma_group_insert_wf(rest, g, a);
        assert forall|k: int| 0 <= k < rest.len() implies lex_less(gs[0].0, #[trigger] rest[k].0) by {
            assert(rest[k] == gs[k + 1]);
        }
        lemma_group_insert_lower(rest, g, a, gs[0].0);
        let rr = group_insert(rest, g, a);
        assert(r == seq![gs[0]] + rr);
        assert forall|i: int, j: int| 0 <= i < j < r.len() implies lex_less(
            #[trigger] r[i].0,
            #[trigger] r[j].0,
        ) by {
            assert(r[j] == rr[j - 1]);
            if i > 0 {
                assert(r[i] == rr[i - 1]);
            }
        }
        assert forall|i: int| 0 <= i < r.len() implies all_sat(
            #[trigger] r[i].1,
            |x: ArtifactView| group_of(x.title_id) == r[i].0,
        ) by {
            if i > 0 {
                assert(r[i] == rr[i - 1]);
            }
        }
    } else if gs[0].0 == g {
        let p = |x: ArtifactView| group_of(x.title_id) == g;
        assert(all_sat(gs[0].1, p));
        lemma_insert_source_sat(gs[0].1, a, p);
        assert forall|i: int, j: int| 0 <= i < j < r.len() implies lex_less(
            #[trigger] r[i].0,
            #[trigger] r[j].0,
        ) by {
            assert(r[j] == gs[j]);
            if i > 0 {
                assert(r[i] == gs[i]);
            }
        }
        assert forall|i: int| 0 <= i < r.len() implies all_sat(
            #[trigger] r[i].1,
            |x: ArtifactView| group_of(x.title_id) == r[i].0,
        ) by {
            if i > 0 {
                assert(r[i] == gs[i]);
            } else {
                assert(all_sat(insert_source_spec(gs[0].1, a), p));
            }
        }
    } else {
        crate::order::lemma_lex_total(gs[0].0, g);
        assert forall|i: int, j: int| 0 <= i < j < r.len() implies lex_less(
            #[trigger] r[i].0,
            #[trigger] r[j].0,
        ) by {
            assert(r[j] == gs[j - 1]);
            if i > 0 {
                assert(r[i] == gs[i - 1]);
            } else if j > 1 {
                crate::order::lemma_lex_transitive(g, gs[0].0, gs[j - 1].0);
            }
        }
        assert forall|i: int| 0 <= i < r.len() implies all_sat(
            #[trigger] r[i].1,
            |x: ArtifactView| group_of(x.title_id) == r[i].0,
        ) by {
            if i > 0 {
                assert(r[i] == gs[i - 1]);
            }
        }
    }
}

/// Inserting a source that satisfies `p` keeps every group's sources satisfying it.
proof fn lemma_group_insert_sat(
    gs: Seq<(Seq<char>, Seq<ArtifactView>)>,
    g: Seq<char>,
    a: ArtifactView,
    p: spec_fn(ArtifactView) -> bool,
)
    requires
        forall|i: int| 0 <= i < gs.len() ==> all_sat(#[trigger] gs[i].1, p),
        p(a),
    ensures
        forall|i: int|
            0 <= i < group_insert(gs, g, a).len() ==> all_sat(
                #[trigger] group_insert(gs, g, a)[i].1,
                p,
            ),
    decreases gs.len(),
{
    let r = group_insert(gs, g, a);
    if gs.len() == 0 {
        assert(all_sat(r[0].1, p));
    } else if lex_less(gs[0].0, g) {
        let rest = gs.drop_first();
        assert forall|i: int| 0 <= i < rest.len() implies all_sat(#[trigger] rest[i].1, p) by {
            assert(rest[i] == gs[i + 1]);
        }
        lemma_group_insert_sat(rest, g, a, p);
        let rr = group_insert(rest, g, a);
        assert forall|i: int| 0 <= i < r.len() implies all_sat(#[trigger] r[i].1, p) by {
            if i > 0 {
                assert(r[i] == rr[i - 1]);
            }
        }
    } else if gs[0].0 == g {
        lemma_insert_source_sat(gs[0].1, a, p);
        assert forall|i: int| 0 <= i < r.len() implies all_sat(#[trigger] r[i].1, p) by {
            if i > 0 {
                assert(r[i] == gs[i]);
            }
        }
    } else {
        assert forall|i: int| 0 <= i < r.len() implies all_sat(#[trigger] r[i].1, p) by {
            if i > 0 {
                assert(r[i] == gs[i - 1]);
            } else {
                assert(all_sat(seq![a], p));
            }
        }
    }
}

/// Every entry's group is its title ID's low eight digits, and is `only` when given.
pub open spec fn entries_wf(es: Seq<(Seq<char>, ArtifactView)>, only: Option<Seq<char>>) -> bool {
    forall|k: int|
        0 <= k < es.len() ==> {
            &&& (#[trigger] es[k]).0 == group_of(es[k].1.title_id)
            &&& (only matches Some(x) ==> es[k].0 == x)
        }
}

/// The entries of a manifest are well formed.
proof fn lemma_entries_wf(lines: Seq<Seq<char>>, only: Option<Seq<char>>, i: int)
    ensures
        entries_upto(lines, only, i) matches Ok(es) ==> entries_wf(es, only),
    decreases i,
{
    if i > 0 {
        lemma_entries_wf(lines, only, i - 1);
        if let Ok(es) = entries_upto(lines, only, i - 1) {
            if let Ok(Some(e)) = spec_line_entry(lines[i - 1], only, i as nat) {
                let n = es.push(e);
                assert forall|k: int| 0 <= k < n.len() implies {
                    &&& (#[trigger] n[k]).0 == group_of(n[k].1.title_id)
                    &&& (only matches Some(x) ==> n[k].0 == x)
                } by {
                    if k < es.len() {
                        assert(n[k] == es[k]);
                    }
                }
            }
        }
    }
}

/// The groups of well-formed entries are well formed, and every source in them has the
/// group `only` when it is given.
proof fn lemma_group_all_wf(es: Seq<(Seq<char>, ArtifactView)>, only: Option<Seq<char>>)
    requires
        entries_wf(es, only),
    ensures
        groups_wf(group_all(es)),
        forall|i: int|
            0 <= i < group_all(es).len() ==> all_sat(
                #[trigger] group_all(es)[i].1,
                |a: ArtifactView| only matches Some(x) ==> group_of(a.title_id) == x,
            ),
    decreases es.len(),
{
    if es.len() > 0 {
        let d = es.drop_last();
        assert forall|k: int| 0 <= k < d.len() implies {
            &&& (#[trigger] d[k]).0 == group_of(d[k].1.title_id)
            &&& (only matches Some(x) ==> d[k].0 == x)
        } by {
            assert(d[k] == es[k]);
        }
        lemma_group_all_wf(d, only);
        let e = es.last();
        assert(e == es[es.len() - 1]);
        lemma_group_insert_wf(group_all(d), e.0, e.1);
        let p = |a: ArtifactView| only matches Some(x) ==> group_of(a.title_id) == x;
        assert(p(e.1));
        lemma_group_insert_sat(group_all(d), e.0, e.1, p);
    }
}

/// The jobs of the first `i` groups follow the groups one for one, and each passed the
/// component check.
proof fn lemma_build_jobs(gs: Seq<(Seq<char>, Seq<ArtifactView>)>, i: int)
    requires
        0 <= i <= gs.len(),
    ensures
        build_jobs(gs, i) matches Ok(js) ==> {
            &&& js.len() == i
            &&& forall|j: int|
                0 <= j < i ==> {
                    &&& (#[trigger] js[j]).id == gs[j].0
                    &&& js[j].sources == gs[j].1
                    &&& spec_validate(gs[j].0, gs[j].1) is Ok
                    &&& exists|n: nat| n >= 1 && output_file(js[j].display_name, n) == js[j].output_name
                }
        },
    decreases i,
{
    if i > 0 {
        lemma_build_jobs(gs, i - 1);
        if let Ok(js) = build_jobs(gs, i - 1) {
            if let Ok(jb) = spec_job(gs[i - 1].0, gs[i - 1].1, js) {
                let n = js.push(jb);
                let c = display_count(js, jb.display_name) + 1;
                assert(output_file(jb.display_name, c) == jb.output_name);
                assert forall|j: int| 0 <= j < i implies {
                    &&& (#[trigger] n[j]).id == gs[j].0
                    &&& n[j].sources == gs[j].1
                    &&& spec_validate(gs[j].0, gs[j].1) is Ok
                    &&& exists|m: nat| m >= 1 && output_file(n[j].display_name, m) == n[j].output_name
                } by {
                    if j < i - 1 {
                        assert(n[j] == js[j]);
                    } else {
                        assert(n[j] == jb);
                    }
                }
            }
        }
    }
}

/// The output file of a job is its display name with `.wua`, or with `-<n>.wua` for the
/// `n`-th job of that name.
pub open spec fn output_form(j: JobView) -> bool {
    exists|n: nat| n >= 1 && #[trigger] output_file(j.display_name, n) == j.output_name
}

/// An upper-case hexadecimal digit.
pub open spec fn upper_hex(c: char) -> bool {
    crate::text::is_digit(c) || ('A' <= c && c <= 'F')
}

/// A title ID as the inventory keeps it: sixteen upper-case hexadecimal digits.
pub open spec fn title_form(t: Seq<char>) -> bool {
    t.len() == 16 && forall|k: int| 0 <= k < 16 ==> upper_hex(#[trigger] t[k])
}

/// The upper case of a hexadecimal digit is an upper-case hexadecimal digit.
proof fn lemma_upper_hex(c: char)
    requires
        crate::text::is_hex(c),
    ensures
        upper_hex(crate::text::upper(c)),
{
    if 'a' <= c && c <= 'f' {
        assert((c as u32) >= 97 && (c as u32) <= 102);
        assert(((c as u32) - 32) as char as u32 == (c as u32) - 32);
    }
}

/// Every entry of a manifest has a title ID of sixteen upper-case hexadecimal digits.
proof fn lemma_entries_title_form(lines: Seq<Seq<char>>, only: Option<Seq<char>>, i: int)
    ensures
        entries_upto(lines, only, i) matches Ok(es) ==> forall|k: int|
            0 <= k < es.len() ==> title_form((#[trigger] es[k]).1.title_id),
    decreases i,
{
    if i > 0 {
        lemma_entries_title_form(lines, only, i - 1);
        if let Ok(es) = entries_upto(lines, only, i - 1) {
            if let Ok(Some(e)) = spec_line_entry(lines[i - 1], only, i as nat) {
                let line = lines[i - 1];
                let (size, name) = spec_split_once(line, seq!['\t'])->0;
                lemma_first_id(name, 0);
                let at = first_id_from(name, 0)->0;
                let t = spec_upper(name.subrange(at + 1, at + 17));
                assert(e.1.title_id == t);
                assert forall|k: int| 0 <= k < 16 implies upper_hex(#[trigger] t[k]) by {
                    assert(name.subrange(at + 1, at + 17)[k] == name[at + 1 + k]);
                    lemma_upper_hex(name[at + 1 + k]);
                }
                let n = es.push(e);
                assert forall|k: int| 0 <= k < n.len() implies title_form((#[trigger] n[k]).1.title_id) by {
                    if k < es.len() {
                        assert(n[k] == es[k]);
                    }
                }
            }
        }
    }
}

/// Every source in the groups of entries satisfies what every entry's source does.
proof fn lemma_group_all_sat(es: Seq<(Seq<char>, ArtifactView)>, p: spec_fn(ArtifactView) -> bool)
    requires
        forall|k: int| 0 <= k < es.len() ==> p((#[trigger] es[k]).1),
    ensures
        forall|i: int| 0 <= i < group_all(es).len() ==> all_sat(#[trigger] group_all(es)[i].1, p),
    decreases es.len(),
{
    if es.len() > 0 {
        let d = es.drop_last();
        assert forall|k: int| 0 <= k < d.len() implies p((#[trigger] d[k]).1) by {
            assert(d[k] == es[k]);
        }
        lemma_group_all_sat(d, p);
        assert(es.last() == es[es.len() - 1]);
        lemma_group_insert_sat(group_all(d), es.last().0, es.last().1, p);
    }
}

/// Sources in job order: no source comes before one ahead of it.
pub open spec fn sources_sorted(s: Seq<ArtifactView>) -> bool {
    forall|i: int, j: int| 0 <= i < j < s.len() ==> !source_before(#[trigger] s[j], #[trigger] s[i])
}

/// Of two sources, at most one comes before the other.
proof fn lemma_source_before_asymmetric(a: ArtifactView, b: ArtifactView)
    requires
        source_before(a, b),
    ensures
        !source_before(b, a),
{
    if lex_less(a.title_id, b.title_id) {
        crate::order::lemma_lex_asymmetric(a.title_id, b.title_id);
    }
    if lex_less(a.name, b.name) {
        crate::order::lemma_lex_asymmetric(a.name, b.name);
    }
    crate::order::lemma_lex_irreflexive(a.title_id);
}

/// Three strings in each of whose pairs one is less or they are equal are ordered
/// transitively.
proof fn lemma_lex_three(a: Seq<char>, b: Seq<char>, c: Seq<char>)
    ensures
        lex_less(a, b) && lex_less(b, c) ==> lex_less(a, c),
        lex_less(a, c) && lex_less(c, b) ==> lex_less(a, b),
        lex_less(b, a) && lex_less(a, c) ==> lex_less(b, c),
        lex_less(b, c) && lex_less(c, a) ==> lex_less(b, a),
        lex_less(c, a) && lex_less(a, b) ==> lex_less(c, b),
        lex_less(c, b) && lex_less(b, a) ==> lex_less(c, a),
        a == b || lex_less(a, b) || lex_less(b, a),
        b == c || lex_less(b, c) || lex_less(c, b),
        a == c || lex_less(a, c) || lex_less(c, a),
        !lex_less(a, a),
        !lex_less(b, b),
        !lex_less(c, c),
{
    if lex_less(a, b) && lex_less(b, c) {
        crate::order::lemma_lex_transitive(a, b, c);
    }
    if lex_less(a, c) && lex_less(c, b) {
        crate::order::lemma_lex_transitive(a, c, b);
    }
    if lex_less(b, a) && lex_less(a, c) {
        crate::order::lemma_lex_transitive(b, a, c);
    }
    if lex_less(b, c) && lex_less(c, a) {
        crate::order::lemma_lex_transitive(b, c, a);
    }
    if lex_less(c, a) && lex_less(a, b) {
        crate::order::lemma_lex_transitive(c, a, b);
    }
    if lex_less(c, b) && lex_less(b, a) {
        crate::order::lemma_lex_transitive(c, b, a);
    }
    crate::order::lemma_lex_total(a, b);
    crate::order::lemma_lex_total(b, c);
    crate::order::lemma_lex_total(a, c);
    crate::order::lemma_lex_irreflexive(a);
    crate::order::lemma_lex_irreflexive(b);
    crate::order::lemma_lex_irreflexive(c);
}

/// Not coming before is transitive: the job order is a total preorder.
proof fn lemma_source_not_before_transitive(x: ArtifactView, y: ArtifactView, z: ArtifactView)
    requires
        !source_before(x, y),
        !source_before(y, z),
    ensures
        !source_before(x, z),
{
    lemma_lex_three(x.title_id, y.title_id, z.title_id);
    lemma_lex_three(x.name, y.name, z.name);
    assert(role_rank(x.role) == role_rank(y.role) ==> x.role == y.role);
    assert(role_rank(y.role) == role_rank(z.role) ==> y.role == z.role);
}

/// Inserting a source keeps the sources in job order.
proof fn lemma_insert_source_sorted(s: Seq<ArtifactView>, x: ArtifactView)
    requires
        sources_sorted(s),
    ensures
        sources_sorted(insert_source_spec(s, x)),
    decreases s.len(),
{
    if s.len() > 0 {
        let last = s.last();
        let n = s.len() as int;
        if source_before(x, last) {
            let d = s.drop_last();
            assert forall|i: int, j: int| 0 <= i < j < d.len() implies !source_before(
                #[trigger] d[j],
                #[trigger] d[i],
            ) by {
                assert(d[i] == s[i] && d[j] == s[j]);
            }
            lemma_insert_source_sorted(d, x);
            let r = insert_source_spec(d, x);
            let p = |a: ArtifactView| a == x || d.contains(a);
            assert forall|k: int| 0 <= k < d.len() implies p(#[trigger] d[k]) by {}
            lemma_insert_source_sat(d, x, p);
            lemma_source_before_asymmetric(x, last);
            let t = r.push(last);
            assert forall|i: int, j: int| 0 <= i < j < t.len() implies !source_before(
                #[trigger] t[j],
                #[trigger] t[i],
            ) by {
                assert(t[i] == r[i]);
                if j < r.len() {
                    assert(t[j] == r[j]);
                } else {
                    assert(t[j] == last);
                    assert(p(r[i]));
                    if r[i] != x {
                        let m = choose|m: int| 0 <= m < d.len() && d[m] == r[i];
                        assert(s[m] == d[m]);
                        assert(s[n - 1] == last);
                    }
                }
            }
        } else {
            let t = s.push(x);
            assert forall|i: int, j: int| 0 <= i < j < t.len() implies !source_before(
                #[trigger] t[j],
                #[trigger] t[i],
            ) by {
                assert(t[i] == s[i]);
                if j < n {
                    assert(t[j] == s[j]);
                } else {
                    assert(t[j] == x);
                    assert(s[n - 1] == last);
                    if i < n - 1 {
                        lemma_source_not_before_transitive(x, last, s[i]);
                    }
                }
            }
        }
    }
}

/// Adding a source keeps every group's sources in job order.
proof fn lemma_group_insert_sorted(gs: Seq<(Seq<char>, Seq<ArtifactView>)>, g: Seq<char>, a: ArtifactView)
    requires
        forall|i: int| 0 <= i < gs.len() ==> sources_sorted(#[trigger] gs[i].1),
    ensures
        forall|i: int|
            0 <= i < group_insert(gs, g, a).len() ==> sources_sorted(#[trigger] group_insert(gs, g, a)[i].1),
    decreases gs.len(),
{
    let r = group_insert(gs, g, a);
    if gs.len() == 0 {
        assert(sources_sorted(r[0].1));
    } else if lex_less(gs[0].0, g) {
        let t = gs.drop_first();
        assert forall|i: int| 0 <= i < t.len() implies sources_sorted(#[trigger] t[i].1) by {
            assert(t[i] == gs[i + 1]);
        }
        lemma_group_insert_sorted(t, g, a);
        let q = group_insert(t, g, a);
        assert forall|i: int| 0 <= i < r.len() implies sources_sorted(#[trigger] r[i].1) by {
            if i == 0 {
                assert(r[0] == gs[0]);
            } else {
                assert(r[i] == q[i - 1]);
            }
        }
    } else if gs[0].0 == g {
        lemma_insert_source_sorted(gs[0].1, a);
        assert forall|i: int| 0 <= i < r.len() implies sources_sorted(#[trigger] r[i].1) by {
            if i > 0 {
                assert(r[i] == gs[i]);
            }
        }
    } else {
        assert forall|i: int| 0 <= i < r.len() implies sources_sorted(#[trigger] r[i].1) by {
            if i > 0 {
                assert(r[i] == gs[i - 1]);
            }
        }
    }
}

/// The groups of any entries keep their sources in job order.
proof fn lemma_group_all_sorted(es: Seq<(Seq<char>, ArtifactView)>)
    ensures
        forall|i: int| 0 <= i < group_all(es).len() ==> sources_sorted(#[trigger] group_all(es)[i].1),
    decreases es.len(),
{
    if es.len() > 0 {
        lemma_group_all_sorted(es.drop_last());
        lemma_group_insert_sorted(group_all(es.drop_last()), es.last().0, es.last().1);
    }
}

/// A Wii U inventory holds one job per group, in increasing order of group ID; a group ID is
/// eight upper-case hexadecimal digits, and every source's title ID sixteen; each job has
/// exactly one base and at most one update and one DLC, its sources are in order of role,
/// title ID and name, every source belongs to its job's
/// group (the low eight digits of its title ID), its output file is its display name with
/// `.wua` (or `-<n>.wua`, `n >= 2`, for a repeated name), and with `only` given every job is
/// that group.
pub proof fn lemma_wiiu_inventory_groups(text: Seq<char>, only: Option<Seq<char>>)
    ensures
        spec_wiiu_inventory(text, only) matches Ok(js) ==> {
            &&& forall|i: int, j: int|
                0 <= i < j < js.len() ==> lex_less(#[trigger] js[i].id, #[trigger] js[j].id)
            &&& forall|i: int|
                0 <= i < js.len() ==> {
                    &&& role_count((#[trigger] js[i]).sources, ComponentKind::Base) == 1
                    &&& role_count(js[i].sources, ComponentKind::Update) <= 1
                    &&& role_count(js[i].sources, ComponentKind::Dlc) <= 1
                }
            &&& forall|i: int, k: int|
                0 <= i < js.len() && 0 <= k < js[i].sources.len() ==> group_of(
                    (#[trigger] js[i].sources[k]).title_id,
                ) == js[i].id
            &&& only matches Some(o) ==> forall|i: int|
                0 <= i < js.len() ==> (#[trigger] js[i]).id == spec_upper(o)
            &&& forall|i: int|
                0 <= i < js.len() ==> {
                    &&& (#[trigger] js[i]).id.len() == 8
                    &&& forall|k: int| 0 <= k < 8 ==> upper_hex(#[trigger] js[i].id[k])
                }
            &&& forall|i: int, k: int|
                0 <= i < js.len() && 0 <= k < js[i].sources.len() ==> title_form(
                    (#[trigger] js[i].sources[k]).title_id,
                )
            &&& forall|i: int| 0 <= i < js.len() ==> output_form(#[trigger] js[i])
            &&& forall|i: int| 0 <= i < js.len() ==> sources_sorted((#[trigger] js[i]).sources)
        },
{
    let ls = spec_lines(text);
    let o = match only {
        Some(x) => Some(spec_upper(x)),
        None => None,
    };
    lemma_entries_wf(ls, o, ls.len() as int);
    lemma_entries_title_form(ls, o, ls.len() as int);
    if let Ok(es) = entries_upto(ls, o, ls.len() as int) {
        lemma_group_all_wf(es, o);
        let tf = |a: ArtifactView| title_form(a.title_id);
        assert forall|k: int| 0 <= k < es.len() implies tf((#[trigger] es[k]).1) by {}
        lemma_group_all_sat(es, tf);
        let gs = group_all(es);
        lemma_build_jobs(gs, gs.len() as int);
        if let Ok(js) = build_jobs(gs, gs.len() as int) {
            assert forall|i: int, j: int| 0 <= i < j < js.len() implies lex_less(
                #[trigger] js[i].id,
                #[trigger] js[j].id,
            ) by {
                assert(js[i].id == gs[i].0 && js[j].id == gs[j].0);
            }
            assert forall|i: int, k: int|
                0 <= i < js.len() && 0 <= k < js[i].sources.len() implies group_of(
                (#[trigger] js[i].sources[k]).title_id,
            ) == js[i].id by {
                assert(js[i].sources == gs[i].1);
                assert(all_sat(gs[i].1, |a: ArtifactView| group_of(a.title_id) == gs[i].0));
                assert(gs[i].1[k] == js[i].sources[k]);
            }
            if let Some(x) = only {
                assert forall|i: int| 0 <= i < js.len() implies (#[trigger] js[i]).id == spec_upper(
                    x,
                ) by {
                    let srcs = gs[i].1;
                    assert(js[i].sources == srcs);
                    assert(spec_validate(gs[i].0, srcs) is Ok);
                    if srcs.len() == 0 {
                        assert(role_count(srcs, ComponentKind::Base) == 0);
                    }
                    assert(all_sat(srcs, |a: ArtifactView| group_of(a.title_id) == gs[i].0));
                    assert(all_sat(
                        srcs,
                        |a: ArtifactView| o matches Some(y) ==> group_of(a.title_id) == y,
                    ));
                    assert(srcs[0] == srcs[0]);
                }
            }
            assert forall|i: int, k: int|
                0 <= i < js.len() && 0 <= k < js[i].sources.len() implies title_form(
                (#[trigger] js[i].sources[k]).title_id,
            ) by {
                assert(js[i].sources == gs[i].1);
                assert(all_sat(gs[i].1, tf));
                assert(gs[i].1[k] == js[i].sources[k]);
                assert(tf(gs[i].1[k]));
            }
            assert forall|i: int| 0 <= i < js.len() implies {
                &&& (#[trigger] js[i]).id.len() == 8
                &&& forall|k: int| 0 <= k < 8 ==> upper_hex(#[trigger] js[i].id[k])
            } by {
                let srcs = gs[i].1;
                assert(js[i].sources == srcs);
                assert(spec_validate(gs[i].0, srcs) is Ok);
                if srcs.len() == 0 {
                    assert(role_count(srcs, ComponentKind::Base) == 0);
                }
                assert(all_sat(srcs, |a: ArtifactView| group_of(a.title_id) == gs[i].0));
                assert(all_sat(srcs, tf));
                let t = srcs[0].title_id;
                assert(tf(srcs[0]));
                assert(group_of(t) == gs[i].0);
                assert forall|k: int| 0 <= k < 8 implies upper_hex(#[trigger] js[i].id[k]) by {
                    assert(js[i].id[k] == t[k + 8]);
                }
            }
            lemma_group_all_sorted(es);
            assert forall|i: int| 0 <= i < js.len() implies sources_sorted((#[trigger] js[i]).sources) by {
                assert(js[i].sources == gs[i].1);
            }
            assert forall|i: int| 0 <= i < js.len() implies output_form(#[trigger] js[i]) by {
                let js_i = js[i];
                assert(exists|m: nat| m >= 1 && output_file(js_i.display_name, m) == js_i.output_name);
            }
        }
    }
}

/// The path that `Path::with_file_name` makes of a path and a file name.
pub uninterp spec fn spec_with_file_name(path: Seq<char>, name: Seq<char>) -> Seq<char>;

/// Trusted: `std::path::Path::with_file_name` replaces the last component of `path` with
/// `name` (or appends `name` when there is no last file name); the result depends on the
/// two strings alone, and it ends with `name` (the buffer is popped, then `name` pushed,
/// which appends it after a separator, or replaces the buffer when `name` is absolute).
/// What remains before `name` is left unsaid.
#[verifier::external_body]
fn with_file_name(path: &str, name: &str) -> (r: String)
    ensures
        r@ == spec_with_file_name(path@, name@),
        name@.len() <= r@.len() && r@.skip(r@.len() - name@.len()) == name@,
{
    std::path::Path::new(path).with_file_name(name).to_string_lossy().into_owned()
}

/// The path of an output's checksum file: beside it, named after it with `.sha256`.
///
/// Fails when the output path has no file name.
pub fn sidecar_path(output: &str) -> (r: Result<String>)
    ensures
        match spec_file_name(output@) {
            Some(f) => r matches Ok(p) && p@ == spec_with_file_name(output@, f + ".sha256"@)
                && (f + ".sha256"@).len() <= p@.len() && p@.skip(p@.len() - (f + ".sha256"@).len())
                == f + ".sha256"@,
            None => r matches Err(PipelineError::Message(m)) && m@ == "output has no filename"@,
        },
{
    let o = output.to_owned();
    match file_name(&o) {
        Some(mut f) => {
            append_chars(&mut f, &lit(".sha256"));
            let name = string_of(&f);
            Ok(with_file_name(output, name.as_str()))
        },
        None => Err(message("output has no filename")),
    }
}

/// The path under which an output is written before it is complete: beside it, hidden,
/// with `.partial`.
///
/// Fails when the output path has no file name.
pub fn partial_path(output: &str) -> (r: Result<String>)
    ensures
        match spec_file_name(output@) {
            Some(f) => r matches Ok(p) && p@ == spec_with_file_name(
                output@,
                "."@ + f + ".partial"@,
            ) && ("."@ + f + ".partial"@).len() <= p@.len() && p@.skip(
                p@.len() - ("."@ + f + ".partial"@).len(),
            ) == "."@ + f + ".partial"@,
            None => r matches Err(PipelineError::Message(m)) && m@ == "output has no filename"@,
        },
{
    let o = output.to_owned();
    match file_name(&o) {
        Some(f) => {
            let mut n = lit(".");
            append_chars(&mut n, &f);
            append_chars(&mut n, &lit(".partial"));
            let name = string_of(&n);
            Ok(with_file_name(output, name.as_str()))
        },
        None => Err(message("output has no filename")),
    }
}

/// The line of an output's checksum file: the hash, two spaces, and the output's name.
pub fn sidecar_line(hash: &str, output_name: &str) -> (r: String)
    ensures
        r@ == hash@ + "  "@ + output_name@ + "\n"@,
{
    let mut v = chars_of(hash);
    append_chars(&mut v, &lit("  "));
    append_chars(&mut v, &chars_of(output_name));
    append_chars(&mut v, &lit("\n"));
    string_of(&v)
}


/// Every entry of the first `i` lines is listed on one of them with its size.
proof fn lemma_entries_listed(lines: Seq<Seq<char>>, only: Option<Seq<char>>, i: int)
    requires
        0 <= i <= lines.len(),
    ensures
        entries_upto(lines, only, i) matches Ok(es) ==> forall|k: int|
            0 <= k < es.len() ==> crate::manifest::manifest_lists(
                lines,
                (#[trigger] es[k]).1.name,
                es[k].1.expected_size,
            ),
    decreases i,
{
    if i > 0 {
        lemma_entries_listed(lines, only, i - 1);
        if let Ok(es) = entries_upto(lines, only, i - 1) {
            if let Ok(Some(e)) = spec_line_entry(lines[i - 1], only, i as nat) {
                assert(crate::manifest::line_lists(lines[i - 1], e.1.name, e.1.expected_size));
                let n = es.push(e);
                assert forall|k: int| 0 <= k < n.len() implies crate::manifest::manifest_lists(
                    lines,
                    (#[trigger] n[k]).1.name,
                    n[k].1.expected_size,
                ) by {
                    if k < es.len() {
                        assert(n[k] == es[k]);
                    }
                }
            }
        }
    }
}

/// The jobs of the first `i` groups read exactly those groups' sources.
proof fn lemma_build_sources(gs: Seq<(Seq<char>, Seq<ArtifactView>)>, i: int)
    requires
        0 <= i <= gs.len(),
    ensures
        build_jobs(gs, i) matches Ok(js) ==> js.len() == i && forall|v: int|
            0 <= v < js.len() ==> (#[trigger] js[v]).sources == gs[v].1,
    decreases i,
{
    if i > 0 {
        lemma_build_sources(gs, i - 1);
        if let Ok(js) = build_jobs(gs, i - 1) {
            if let Ok(n) = build_jobs(gs, i) {
                assert forall|v: int| 0 <= v < n.len() implies (#[trigger] n[v]).sources == gs[v].1 by {
                    if v < js.len() {
                        assert(n[v] == js[v]);
                    }
                }
            }
        }
    }
}

/// A Wii U manifest's jobs read their archives with the sizes the manifest gives: every
/// source of every job has as expected size the number in the size field of a line that
/// lists its archive's name.
pub proof fn lemma_wiiu_sizes_from_manifest(text: Seq<char>, only: Option<Seq<char>>)
    ensures
        spec_wiiu_inventory(text, only) matches Ok(js) ==> forall|v: int, a: int|
            0 <= v < js.len() && 0 <= a < js[v].sources.len() ==> crate::manifest::manifest_lists(
                spec_lines(text),
                (#[trigger] js[v].sources[a]).name,
                js[v].sources[a].expected_size,
            ),
{
    let ls = spec_lines(text);
    let o = match only {
        Some(x) => Some(spec_upper(x)),
        None => None,
    };
    lemma_entries_listed(ls, o, ls.len() as int);
    if let Ok(es) = entries_upto(ls, o, ls.len() as int) {
        let p = |a: ArtifactView| crate::manifest::manifest_lists(ls, a.name, a.expected_size);
        assert forall|k: int| 0 <= k < es.len() implies p((#[trigger] es[k]).1) by {}
        lemma_group_all_sat(es, p);
        let gs = group_all(es);
        lemma_build_sources(gs, gs.len() as int);
        if let Ok(js) = build_jobs(gs, gs.len() as int) {
            assert forall|v: int, a: int| 0 <= v < js.len() && 0 <= a < js[v].sources.len() implies
                crate::manifest::manifest_lists(
                ls,
                (#[trigger] js[v].sources[a]).name,
                js[v].sources[a].expected_size,
            ) by {
                assert(js[v].sources == gs[v].1);
                assert(all_sat(gs[v].1, p));
                assert(p(gs[v].1[a]));
            }
        }
    }
}


/// Inserting a source keeps every source and adds the inserted one.
proof fn lemma_insert_source_keeps(s: Seq<ArtifactView>, x: ArtifactView)
    ensures
        insert_source_spec(s, x).contains(x),
        forall|k: int| 0 <= k < s.len() ==> insert_source_spec(s, x).contains(#[trigger] s[k]),
    decreases s.len(),
{
    let r = insert_source_spec(s, x);
    if s.len() > 0 && source_before(x, s.last()) {
        let d = s.drop_last();
        lemma_insert_source_keeps(d, x);
        let t = insert_source_spec(d, x);
        assert(r == t.push(s.last()));
        let m = choose|m: int| 0 <= m < t.len() && t[m] == x;
        assert(r[m] == t[m]);
        assert forall|k: int| 0 <= k < s.len() implies r.contains(#[trigger] s[k]) by {
            if k < d.len() {
                assert(d[k] == s[k]);
                assert(t.contains(d[k]));
                let q = choose|q: int| 0 <= q < t.len() && t[q] == d[k];
                assert(r[q] == t[q]);
            } else {
                assert(r[t.len() as int] == s.last());
            }
        }
    } else if s.len() > 0 {
        assert(r == s.push(x));
        assert(r[s.len() as int] == x);
        assert forall|k: int| 0 <= k < s.len() implies r.contains(#[trigger] s[k]) by {
            assert(r[k] == s[k]);
        }
    } else {
        assert(r[0] == x);
    }
}

/// Some group holds the source `a`.
pub open spec fn in_groups(gs: Seq<(Seq<char>, Seq<ArtifactView>)>, a: ArtifactView) -> bool {
    exists|i: int| 0 <= i < gs.len() && (#[trigger] gs[i]).1.contains(a)
}

/// Adding a source to the groups keeps every source they held and holds the new one.
proof fn lemma_group_insert_keeps(gs: Seq<(Seq<char>, Seq<ArtifactView>)>, g: Seq<char>, a: ArtifactView)
    ensures
        in_groups(group_insert(gs, g, a), a),
        forall|b: ArtifactView| in_groups(gs, b) ==> #[trigger] in_groups(group_insert(gs, g, a), b),
    decreases gs.len(),
{
    let r = group_insert(gs, g, a);
    if gs.len() == 0 {
        assert(r[0].1[0] == a);
        assert(r[0].1.contains(a));
    } else if lex_less(gs[0].0, g) {
        let rest = gs.drop_first();
        lemma_group_insert_keeps(rest, g, a);
        let rr = group_insert(rest, g, a);
        assert(r == seq![gs[0]] + rr);
        let i = choose|i: int| 0 <= i < rr.len() && (#[trigger] rr[i]).1.contains(a);
        assert(r[i + 1] == rr[i]);
        assert forall|b: ArtifactView| in_groups(gs, b) implies #[trigger] in_groups(r, b) by {
            let j = choose|j: int| 0 <= j < gs.len() && (#[trigger] gs[j]).1.contains(b);
            if j == 0 {
                assert(r[0] == gs[0]);
            } else {
                assert(rest[j - 1] == gs[j]);
                assert(in_groups(rest, b));
                assert(in_groups(rr, b));
                let q = choose|q: int| 0 <= q < rr.len() && (#[trigger] rr[q]).1.contains(b);
                assert(r[q + 1] == rr[q]);
            }
        }
    } else if gs[0].0 == g {
        lemma_insert_source_keeps(gs[0].1, a);
        assert(r[0].1 == insert_source_spec(gs[0].1, a));
        assert forall|b: ArtifactView| in_groups(gs, b) implies #[trigger] in_groups(r, b) by {
            let j = choose|j: int| 0 <= j < gs.len() && (#[trigger] gs[j]).1.contains(b);
            if j == 0 {
                let k = choose|k: int| 0 <= k < gs[0].1.len() && gs[0].1[k] == b;
                assert(r[0].1.contains(gs[0].1[k]));
            } else {
                assert(r[j] == gs[j]);
            }
        }
    } else {
        assert(r == seq![(g, seq![a])] + gs);
        assert(r[0].1[0] == a);
        assert(r[0].1.contains(a));
        assert forall|b: ArtifactView| in_groups(gs, b) implies #[trigger] in_groups(r, b) by {
            let j = choose|j: int| 0 <= j < gs.len() && (#[trigger] gs[j]).1.contains(b);
            assert(r[j + 1] == gs[j]);
        }
    }
}

/// Grouping entries holds every entry's source.
proof fn lemma_group_all_keeps(es: Seq<(Seq<char>, ArtifactView)>)
    ensures
        forall|k: int| 0 <= k < es.len() ==> in_groups(group_all(es), (#[trigger] es[k]).1),
    decreases es.len(),
{
    if es.len() > 0 {
        let d = es.drop_last();
        lemma_group_all_keeps(d);
        lemma_group_insert_keeps(group_all(d), es.last().0, es.last().1);
        assert forall|k: int| 0 <= k < es.len() implies in_groups(group_all(es), (#[trigger] es[k]).1) by {
            if k < d.len() {
                assert(d[k] == es[k]);
                assert(in_groups(group_all(d), d[k].1));
            } else {
                assert(es[k] == es.last());
            }
        }
    }
}

/// Line `line` of a Wii U manifest names the `.7z` archive `name`.
pub open spec fn names_wiiu_archive(line: Seq<char>, name: Seq<char>) -> bool {
    spec_split_once(line, seq!['\t']) matches Some((_, n)) && n == name && spec_ends_with(
        spec_lower(name),
        ".7z"@,
    )
}

/// Without a group filter, every archive that the first `i` lines name is an entry.
proof fn lemma_entries_complete(lines: Seq<Seq<char>>, i: int)
    requires
        0 <= i <= lines.len(),
    ensures
        entries_upto(lines, None, i) matches Ok(es) ==> forall|l: int, name: Seq<char>|
            0 <= l < i && #[trigger] names_wiiu_archive(lines[l], name) ==> exists|k: int|
                0 <= k < es.len() && (#[trigger] es[k]).1.name == name,
    decreases i,
{
    if i > 0 {
        lemma_entries_complete(lines, i - 1);
        if let Ok(n) = entries_upto(lines, None, i) {
            assert(entries_upto(lines, None, i - 1) is Ok);
            let es = entries_upto(lines, None, i - 1)->Ok_0;
            assert forall|l: int, name: Seq<char>|
                0 <= l < i && #[trigger] names_wiiu_archive(lines[l], name) implies exists|k: int|
                    0 <= k < n.len() && (#[trigger] n[k]).1.name == name by {
                if l < i - 1 {
                    let k = choose|k: int| 0 <= k < es.len() && (#[trigger] es[k]).1.name == name;
                    if let Ok(Some(e)) = spec_line_entry(lines[i - 1], None, i as nat) {
                        assert(n == es.push(e));
                    }
                    assert(n[k] == es[k]);
                } else {
                    assert(spec_line_entry(lines[i - 1], None, i as nat) matches Ok(Some(_)));
                    let e = spec_line_entry(lines[i - 1], None, i as nat)->Ok_0->0;
                    assert(n == es.push(e));
                    assert(n[es.len() as int] == e);
                }
            }
        }
    }
}

/// A Wii U manifest read without a group filter has a job for every archive it names: each
/// line that names a `.7z` archive gives a source of some job with that name.
pub proof fn lemma_wiiu_every_archive_in_a_job(text: Seq<char>)
    ensures
        spec_wiiu_inventory(text, None) matches Ok(js) ==> forall|l: int, name: Seq<char>|
            0 <= l < spec_lines(text).len() && #[trigger] names_wiiu_archive(spec_lines(text)[l], name)
                ==> exists|v: int, a: int|
                0 <= v < js.len() && 0 <= a < js[v].sources.len() && (#[trigger] js[v].sources[a]).name
                    == name,
{
    let ls = spec_lines(text);
    lemma_entries_complete(ls, ls.len() as int);
    if let Ok(js) = spec_wiiu_inventory(text, None) {
        let o: Option<Seq<char>> = None;
        assert(entries_upto(ls, o, ls.len() as int) is Ok);
        let es = entries_upto(ls, o, ls.len() as int)->Ok_0;
        let gs = group_all(es);
        lemma_group_all_keeps(es);
        lemma_build_sources(gs, gs.len() as int);
        assert(build_jobs(gs, gs.len() as int) == Ok::<Seq<JobView>, Seq<char>>(js));
        assert forall|l: int, name: Seq<char>|
            0 <= l < ls.len() && #[trigger] names_wiiu_archive(ls[l], name) implies exists|v: int, a: int|
                0 <= v < js.len() && 0 <= a < js[v].sources.len() && (#[trigger] js[v].sources[a]).name
                    == name by {
            let k = choose|k: int| 0 <= k < es.len() && (#[trigger] es[k]).1.name == name;
            assert(in_groups(gs, es[k].1));
            let v = choose|v: int| 0 <= v < gs.len() && (#[trigger] gs[v]).1.contains(es[k].1);
            let a = choose|a: int| 0 <= a < gs[v].1.len() && gs[v].1[a] == es[k].1;
            assert(js[v].sources == gs[v].1);
            assert(js[v].sources[a].name == name);
        }
    }
}

} // verus!
