//! The local status screen: its forms, the rules that guard its actions, and the escaping
//! of the values it shows.
use vstd::prelude::*;

use crate::config::{profile_index, AppConfig, ProfileConfig, SystemKind};
use crate::error::{invalid_with, message, PipelineError, Result};
use crate::text::{append_chars, chars_eq, chars_of, is_blank, lit, spec_blank, string_of};

verus! {

/// The profile a status request asks for.
#[derive(Clone, Debug, PartialEq, Eq)]
pub struct ProfileQuery {
    pub profile: String,
}

/// A request to start a profile's run.
#[derive(Clone, Debug, PartialEq, Eq)]
pub struct StartForm {
    pub profile: String,
    pub limit: usize,
}

/// A request to stop a profile cleanly.
#[derive(Clone, Debug, PartialEq, Eq)]
pub struct StopForm {
    pub profile: String,
}

/// A request to publish outputs or prune sources.
#[derive(Clone, Debug, PartialEq, Eq)]
pub struct LibraryActionForm {
    pub profile: String,
    pub limit: usize,
    pub confirm: Option<String>,
}

/// The edited configuration of a profile.
#[derive(Clone, Debug, PartialEq, Eq)]
pub struct SaveProfileForm {
    pub profile: String,
    pub name: String,
    pub source_format: String,
    pub source_dir: String,
    pub done_dir: String,
    pub work_dir: String,
    pub state_dir: String,
    pub log_dir: String,
    pub output_dir: String,
    pub library_dir: Option<String>,
    pub output_format: String,
    pub batch_limit: usize,
    pub manifest: Option<String>,
    pub cdecrypt: Option<String>,
    pub zarchive: Option<String>,
    pub wait_seconds: Option<u64>,
    pub chdman: Option<String>,
    pub dolphin_tool: Option<String>,
    pub block_size: Option<u32>,
    pub compression: Option<String>,
    pub compression_level: Option<i32>,
    pub codec: Option<String>,
    pub hunk_size: Option<u32>,
    pub verify_round_trip: Option<bool>,
    pub minimum_savings_percent: Option<u8>,
    pub preserve_when_compression_is_not_worthwhile: Option<bool>,
}

/// A configuration may be edited only while its profile's service is not active.
pub fn ensure_editable(service_state: &str) -> (r: Result<()>)
    ensures
        r is Ok <==> service_state@ != "active"@,
        r matches Err(e) ==> e matches PipelineError::Message(m) && m@
            == "stop the profile before changing its configuration"@,
{
    if chars_eq(&chars_of(service_state), &lit("active")) {
        Err(message("stop the profile before changing its configuration"))
    } else {
        Ok(())
    }
}

/// The systems whose outputs the screen can publish and whose sources it can prune.
pub open spec fn screen_library_system(system: SystemKind) -> bool {
    match system {
        SystemKind::GameCube | SystemKind::PlayStationPortable | SystemKind::PlayStation2 => true,
        _ => false,
    }
}

/// Whether the screen can publish or prune for a system.
fn is_screen_library_system(system: &SystemKind) -> (r: bool)
    ensures
        r == screen_library_system(*system),
{
    match system {
        SystemKind::GameCube | SystemKind::PlayStationPortable | SystemKind::PlayStation2 => true,
        _ => false,
    }
}

/// Checks that the screen can publish for a system.
pub fn ensure_publishable(system: &SystemKind) -> (r: Result<()>)
    ensures
        r is Ok <==> screen_library_system(*system),
        r matches Err(e) ==> e matches PipelineError::Message(m) && m@
            == "publish is currently implemented only for GameCube, PSP, and PS2"@,
{
    if is_screen_library_system(system) {
        Ok(())
    } else {
        Err(message("publish is currently implemented only for GameCube, PSP, and PS2"))
    }
}

/// Checks that pruning was confirmed (asked before anything else).
pub fn ensure_prune_confirmed(confirm: &Option<String>) -> (r: Result<()>)
    ensures
        r is Ok <==> (confirm matches Some(c) && c@ == "yes"@),
        r matches Err(e) ==> e matches PipelineError::Message(m) && m@
            == "source pruning requires explicit confirmation"@,
{
    let confirmed = match confirm {
        Some(c) => chars_eq(&chars_of(c.as_str()), &lit("yes")),
        None => false,
    };
    if confirmed {
        Ok(())
    } else {
        Err(message("source pruning requires explicit confirmation"))
    }
}

/// Checks that the screen can prune for a system.
pub fn ensure_prunable(system: &SystemKind) -> (r: Result<()>)
    ensures
        r is Ok <==> screen_library_system(*system),
        r matches Err(e) ==> e matches PipelineError::Message(m) && m@
            == "prune is currently implemented only for GameCube, PSP, and PS2"@,
{
    if is_screen_library_system(system) {
        Ok(())
    } else {
        Err(message("prune is currently implemented only for GameCube, PSP, and PS2"))
    }
}

/// A required form value, or the error naming its field.
pub fn required(value: Option<String>, field: &str) -> (r: Result<String>)
    ensures
        value matches Some(v) ==> r == Ok::<String, PipelineError>(v),
        value is None ==> (r matches Err(PipelineError::InvalidConfig(m)) && m@ == field@
            + " is required"@),
{
    match value {
        Some(v) => Ok(v),
        None => {
            let mut m = chars_of(field);
            append_chars(&mut m, &lit(" is required"));
            Err(PipelineError::InvalidConfig(string_of(&m)))
        },
    }
}

/// A required form number, or the error naming its field.
fn required_copy<T: Copy>(value: Option<T>, field: &str) -> (r: Result<T>)
    ensures
        value matches Some(v) ==> r == Ok::<T, PipelineError>(v),
        value is None ==> (r matches Err(PipelineError::InvalidConfig(m)) && m@ == field@
            + " is required"@),
{
    match value {
        Some(v) => Ok(v),
        None => {
            let mut m = chars_of(field);
            append_chars(&mut m, &lit(" is required"));
            Err(PipelineError::InvalidConfig(string_of(&m)))
        },
    }
}

/// The message of a missing form value.
pub open spec fn missing(field: Seq<char>) -> Seq<char> {
    field + " is required"@
}

/// The message of a form value that is missing, for the system-specific settings of a
/// profile, checked in the order the form's fields are read.
pub open spec fn form_problem(p: ProfileConfig, f: SaveProfileForm) -> Option<Seq<char>> {
    match p.system {
        SystemKind::WiiU => if p.wiiu is None {
            Some("missing Wii U settings"@)
        } else if f.manifest is None {
            Some(missing("manifest"@))
        } else if f.cdecrypt is None {
            Some(missing("cdecrypt"@))
        } else if f.zarchive is None {
            Some(missing("zarchive"@))
        } else if f.wait_seconds is None {
            Some(missing("wait_seconds"@))
        } else {
            None
        },
        SystemKind::GameCube => if p.gamecube is None {
            Some("missing GameCube settings"@)
        } else if f.manifest is None {
            Some(missing("manifest"@))
        } else if f.dolphin_tool is None {
            Some(missing("dolphin_tool"@))
        } else if f.block_size is None {
            Some(missing("block_size"@))
        } else if f.compression is None {
            Some(missing("compression"@))
        } else if f.compression_level is None {
            Some(missing("compression_level"@))
        } else if f.verify_round_trip is None {
            Some(missing("verify_round_trip"@))
        } else {
            None
        },
        SystemKind::Nintendo3ds => None,
        SystemKind::PlayStationPortable => if p.psp is None {
            Some("missing PSP settings"@)
        } else if f.chdman is None {
            Some(missing("chdman"@))
        } else if f.codec is None {
            Some(missing("codec"@))
        } else if f.hunk_size is None {
            Some(missing("hunk_size"@))
        } else if f.verify_round_trip is None {
            Some(missing("verify_round_trip"@))
        } else {
            None
        },
        SystemKind::PlayStation2 => if p.ps2 is None {
            Some("missing PS2 settings"@)
        } else if f.manifest is None {
            Some(missing("manifest"@))
        } else if f.chdman is None {
            Some(missing("chdman"@))
        } else if f.minimum_savings_percent is None {
            Some(missing("minimum_savings_percent"@))
        } else if f.preserve_when_compression_is_not_worthwhile is None {
            Some(missing("preserve_when_compression_is_not_worthwhile"@))
        } else if f.verify_round_trip is None {
            Some(missing("verify_round_trip"@))
        } else {
            None
        },
    }
}

/// A profile with the form's common fields; a blank library folder clears it, and a
/// missing one keeps it.
pub open spec fn with_common_fields(p: ProfileConfig, f: SaveProfileForm) -> ProfileConfig {
    ProfileConfig {
        name: f.name,
        source_format: f.source_format,
        source_dir: f.source_dir,
        done_dir: f.done_dir,
        work_dir: f.work_dir,
        state_dir: f.state_dir,
        log_dir: f.log_dir,
        output_dir: f.output_dir,
        library_dir: match f.library_dir {
            Some(l) => if spec_blank(l@) {
                None
            } else {
                Some(l)
            },
            None => p.library_dir,
        },
        output_format: f.output_format,
        batch_limit: f.batch_limit,
        ..p
    }
}

/// A profile with the form's fields, when no value is missing.
pub open spec fn edited_profile(p: ProfileConfig, f: SaveProfileForm) -> ProfileConfig {
    let q = with_common_fields(p, f);
    match p.system {
        SystemKind::WiiU => ProfileConfig {
            wiiu: Some(
                crate::config::WiiUSettings {
                    manifest: f.manifest->0,
                    cdecrypt: f.cdecrypt->0,
                    zarchive: f.zarchive->0,
                    wait_seconds: f.wait_seconds->0,
                    ..p.wiiu->0
                },
            ),
            ..q
        },
        SystemKind::GameCube => ProfileConfig {
            gamecube: Some(
                crate::config::GameCubeSettings {
                    manifest: f.manifest->0,
                    dolphin_tool: f.dolphin_tool->0,
                    block_size: f.block_size->0,
                    compression: f.compression->0,
                    compression_level: f.compression_level->0,
                    verify_round_trip: f.verify_round_trip->0,
                },
            ),
            ..q
        },
        SystemKind::Nintendo3ds => q,
        SystemKind::PlayStationPortable => ProfileConfig {
            psp: Some(
                crate::config::PspSettings {
                    chdman: f.chdman->0,
                    codec: f.codec->0,
                    hunk_size: f.hunk_size->0,
                    verify_round_trip: f.verify_round_trip->0,
                },
            ),
            ..q
        },
        SystemKind::PlayStation2 => ProfileConfig {
            ps2: Some(
                crate::config::Ps2Settings {
                    manifest: f.manifest->0,
                    chdman: f.chdman->0,
                    minimum_savings_percent: f.minimum_savings_percent->0,
                    preserve_when_compression_is_not_worthwhile:
                        f.preserve_when_compression_is_not_worthwhile->0,
                    verify_round_trip: f.verify_round_trip->0,
                },
            ),
            ..q
        },
    }
}

/// The error of the first missing value, for the system-specific settings of a profile.
fn form_error(p: &ProfileConfig, f: &SaveProfileForm) -> (r: Option<PipelineError>)
    ensures
        match form_problem(*p, *f) {
            Some(m) => r matches Some(PipelineError::InvalidConfig(x)) && x@ == m,
            None => r is None,
        },
{
    let problem: Option<&str> = match p.system {
        SystemKind::WiiU => if p.wiiu.is_none() {
            return Some(crate::error::invalid("missing Wii U settings"));
        } else if f.manifest.is_none() {
            Some("manifest")
        } else if f.cdecrypt.is_none() {
            Some("cdecrypt")
        } else if f.zarchive.is_none() {
            Some("zarchive")
        } else if f.wait_seconds.is_none() {
            Some("wait_seconds")
        } else {
            None
        },
        SystemKind::GameCube => if p.gamecube.is_none() {
            return Some(crate::error::invalid("missing GameCube settings"));
        } else if f.manifest.is_none() {
            Some("manifest")
        } else if f.dolphin_tool.is_none() {
            Some("dolphin_tool")
        } else if f.block_size.is_none() {
            Some("block_size")
        } else if f.compression.is_none() {
            Some("compression")
        } else if f.compression_level.is_none() {
            Some("compression_level")
        } else if f.verify_round_trip.is_none() {
            Some("verify_round_trip")
        } else {
            None
        },
        SystemKind::Nintendo3ds => None,
        SystemKind::PlayStationPortable => if p.psp.is_none() {
            return Some(crate::error::invalid("missing PSP settings"));
        } else if f.chdman.is_none() {
            Some("chdman")
        } else if f.codec.is_none() {
            Some("codec")
        } else if f.hunk_size.is_none() {
            Some("hunk_size")
        } else if f.verify_round_trip.is_none() {
            Some("verify_round_trip")
        } else {
            None
        },
        SystemKind::PlayStation2 => if p.ps2.is_none() {
            return Some(crate::error::invalid("missing PS2 settings"));
        } else if f.manifest.is_none() {
            Some("manifest")
        } else if f.chdman.is_none() {
            Some("chdman")
        } else if f.minimum_savings_percent.is_none() {
            Some("minimum_savings_percent")
        } else if f.preserve_when_compression_is_not_worthwhile.is_none() {
            Some("preserve_when_compression_is_not_worthwhile")
        } else if f.verify_round_trip.is_none() {
            Some("verify_round_trip")
        } else {
            None
        },
    };
    match problem {
        Some(field) => {
            let mut m = chars_of(field);
            append_chars(&mut m, &lit(" is required"));
            Some(PipelineError::InvalidConfig(string_of(&m)))
        },
        None => None,
    }
}

/// Applies a form with every needed value to one profile.
fn edit_profile(p: ProfileConfig, f: SaveProfileForm) -> (r: ProfileConfig)
    requires
        form_problem(p, f) is None,
    ensures
        r == edited_profile(p, f),
{
    let ghost p0 = p;
    let ghost f0 = f;
    let mut p = p;
    p.name = f.name;
    p.source_format = f.source_format;
    p.source_dir = f.source_dir;
    p.done_dir = f.done_dir;
    p.work_dir = f.work_dir;
    p.state_dir = f.state_dir;
    p.log_dir = f.log_dir;
    p.output_dir = f.output_dir;
    if let Some(library_dir) = f.library_dir {
        if is_blank(&chars_of(library_dir.as_str())) {
            p.library_dir = None;
        } else {
            p.library_dir = Some(library_dir);
        }
    }
    p.output_format = f.output_format;
    p.batch_limit = f.batch_limit;
    assert(p == with_common_fields(p0, f0));
    match p.system {
        SystemKind::WiiU => {
            match (p.wiiu, f.manifest, f.cdecrypt, f.zarchive, f.wait_seconds) {
                (Some(w), Some(manifest), Some(cdecrypt), Some(zarchive), Some(wait)) => {
                    p.wiiu = Some(
                        crate::config::WiiUSettings {
                            manifest,
                            cdecrypt,
                            zarchive,
                            wait_seconds: wait,
                            source_service: w.source_service,
                        },
                    );
                },
                (w, _, _, _, _) => {
                    p.wiiu = w;
                },
            }
        },
        SystemKind::GameCube => {
            if let (Some(manifest), Some(tool), Some(block), Some(compression), Some(level), Some(
                verify,
            )) = (
                f.manifest,
                f.dolphin_tool,
                f.block_size,
                f.compression,
                f.compression_level,
                f.verify_round_trip,
            ) {
                p.gamecube = Some(
                    crate::config::GameCubeSettings {
                        manifest,
                        dolphin_tool: tool,
                        block_size: block,
                        compression,
                        compression_level: level,
                        verify_round_trip: verify,
                    },
                );
            }
        },
        SystemKind::Nintendo3ds => {},
        SystemKind::PlayStationPortable => {
            if let (Some(chdman), Some(codec), Some(hunk), Some(verify)) = (
                f.chdman,
                f.codec,
                f.hunk_size,
                f.verify_round_trip,
            ) {
                p.psp = Some(
                    crate::config::PspSettings {
                        chdman,
                        codec,
                        hunk_size: hunk,
                        verify_round_trip: verify,
                    },
                );
            }
        },
        SystemKind::PlayStation2 => {
            if let (Some(manifest), Some(chdman), Some(savings), Some(preserve), Some(verify)) = (
                f.manifest,
                f.chdman,
                f.minimum_savings_percent,
                f.preserve_when_compression_is_not_worthwhile,
                f.verify_round_trip,
            ) {
                p.ps2 = Some(
                    crate::config::Ps2Settings {
                        manifest,
                        chdman,
                        minimum_savings_percent: savings,
                        preserve_when_compression_is_not_worthwhile: preserve,
                        verify_round_trip: verify,
                    },
                );
            }
        },
    }
    p
}

/// Applies an edited profile form to a configuration: the first profile with the form's ID
/// takes the form's values, and every other profile stays as it was; on an error nothing
/// changes.
///
/// Fails when no profile has the ID, the profile lacks its system's settings, or a value
/// that its system needs is missing.
pub fn apply_profile_form(config: &mut AppConfig, form: SaveProfileForm) -> (r: Result<()>)
    ensures
        match profile_index(old(config).profiles@, form.profile@) {
            None => r matches Err(PipelineError::InvalidConfig(m)) && m@ == "unknown profile: "@
                + form.profile@,
            Some(i) => match form_problem(old(config).profiles@[i], form) {
                Some(m) => r matches Err(PipelineError::InvalidConfig(x)) && x@ == m,
                None => r is Ok && final(config).profiles@ == old(config).profiles@.update(
                    i,
                    edited_profile(old(config).profiles@[i], form),
                ),
            },
        },
        r is Err ==> *final(config) == *old(config),
        final(config).service == old(config).service,
{
    let mut i: usize = 0;
    while i < config.profiles.len()
        invariant
            *config == *old(config),
            i <= config.profiles@.len(),
            forall|j: int| 0 <= j < i ==> #[trigger] config.profiles@[j].id@ != form.profile@,
        decreases config.profiles@.len() - i,
    {
        if config.profiles[i].id == form.profile {
            let ghost k = i as int;
            let ghost c = profile_index(config.profiles@, form.profile@)->0;
            assert(0 <= k < config.profiles@.len() && config.profiles@[k].id@ == form.profile@);
            assert(c == k) by {
                if c < k {
                    assert(config.profiles@[c].id@ != form.profile@);
                } else if c > k {
                    assert(config.profiles@[k].id@ != form.profile@);
                }
            }
            if let Some(e) = form_error(&config.profiles[i], &form) {
                return Err(e);
            }
            let ghost before = config.profiles@;
            let profile = config.profiles.remove(i);
            let edited = edit_profile(profile, form);
            config.profiles.insert(i, edited);
            assert(config.profiles@ =~= before.update(k, edited));
            return Ok(());
        }
        i += 1;
    }
    Err(invalid_with("unknown profile: ", &chars_of(form.profile.as_str())))
}

/// `value` with `&`, `<`, `>`, `"` and `'` written as HTML character references.
pub open spec fn spec_escape(s: Seq<char>) -> Seq<char>
    decreases s.len(),
{
    if s.len() == 0 {
        seq![]
    } else {
        spec_escape(s.drop_last()) + escape_char(s.last())
    }
}

/// The HTML text of one character.
pub open spec fn escape_char(c: char) -> Seq<char> {
    if c == '&' {
        "&amp;"@
    } else if c == '<' {
        "&lt;"@
    } else if c == '>' {
        "&gt;"@
    } else if c == '"' {
        "&quot;"@
    } else if c == '\'' {
        "&#39;"@
    } else {
        seq![c]
    }
}

/// Escaped text holds no `<`, `>`, `"` or `'`, so it can close no tag and no attribute
/// value.
pub proof fn lemma_escape_safe(s: Seq<char>)
    ensures
        forall|i: int|
            0 <= i < spec_escape(s).len() ==> {
                let c = #[trigger] spec_escape(s)[i];
                c != '<' && c != '>' && c != '"' && c != '\''
            },
    decreases s.len(),
{
    if s.len() > 0 {
        lemma_escape_safe(s.drop_last());
        let a = spec_escape(s.drop_last());
        let b = escape_char(s.last());
        assert(spec_escape(s) == a + b);
        assert forall|i: int| 0 <= i < b.len() implies {
            let c = #[trigger] b[i];
            c != '<' && c != '>' && c != '"' && c != '\''
        } by {
            let x = s.last();
            if x == '&' {
                reveal_strlit("&amp;");
            } else if x == '<' {
                reveal_strlit("&lt;");
            } else if x == '>' {
                reveal_strlit("&gt;");
            } else if x == '"' {
                reveal_strlit("&quot;");
            } else if x == '\'' {
                reveal_strlit("&#39;");
            }
        }
        assert forall|i: int| 0 <= i < spec_escape(s).len() implies {
            let c = #[trigger] spec_escape(s)[i];
            c != '<' && c != '>' && c != '"' && c != '\''
        } by {
            if i < a.len() {
                assert(spec_escape(s)[i] == a[i]);
            } else {
                assert(spec_escape(s)[i] == b[i - a.len()]);
            }
        }
    }
}

/// Escapes a value for HTML text and attributes.
pub fn escape(value: &str) -> (r: String)
    ensures
        r@ == spec_escape(value@),
{
    let v = chars_of(value);
    let mut out: Vec<char> = Vec::new();
    let mut i: usize = 0;
    while i < v.len()
        invariant
            i <= v@.len(),
            out@ == spec_escape(v@.take(i as int)),
        decreases v@.len() - i,
    {
        let c = v[i];
        assert(v@.take(i + 1 as int).drop_last() =~= v@.take(i as int));
        if c == '&' {
            append_chars(&mut out, &lit("&amp;"));
        } else if c == '<' {
            append_chars(&mut out, &lit("&lt;"));
        } else if c == '>' {
            append_chars(&mut out, &lit("&gt;"));
        } else if c == '"' {
            append_chars(&mut out, &lit("&quot;"));
        } else if c == '\'' {
            append_chars(&mut out, &lit("&#39;"));
        } else {
            let ghost before = out@;
            out.push(c);
            assert(out@ =~= before + seq![c]);
        }
        i += 1;
    }
    assert(v@.take(v@.len() as int) =~= v@);
    string_of(&out)
}

/// A labelled, required input of a form.
pub open spec fn spec_field(label: Seq<char>, name: Seq<char>, value: Seq<char>, kind: Seq<char>) -> Seq<
    char,
> {
    "<label>"@ + spec_escape(label) + "<input type=\""@ + spec_escape(kind) + "\" name=\""@
        + spec_escape(name) + "\" value=\""@ + spec_escape(value) + "\" required></label>"@
}

/// A labelled, required input of a form.
pub fn field(label: &str, name: &str, value: &str, kind: &str) -> (r: String)
    ensures
        r@ == spec_field(label@, name@, value@, kind@),
{
    let mut out = lit("<label>");
    append_chars(&mut out, &chars_of(escape(label).as_str()));
    append_chars(&mut out, &lit("<input type=\""));
    append_chars(&mut out, &chars_of(escape(kind).as_str()));
    append_chars(&mut out, &lit("\" name=\""));
    append_chars(&mut out, &chars_of(escape(name).as_str()));
    append_chars(&mut out, &lit("\" value=\""));
    append_chars(&mut out, &chars_of(escape(value).as_str()));
    append_chars(&mut out, &lit("\" required></label>"));
    string_of(&out)
}

/// The share of a count in a total, in whole percent as the progress bars show it; no
/// share of an empty total.
pub open spec fn spec_progress_percent(done: usize, total: usize) -> usize {
    if total == 0 {
        0
    } else {
        let scaled = done * 100;
        (if scaled > usize::MAX {
            usize::MAX as int
        } else {
            scaled
        } / total as int) as usize
    }
}

/// The share of a count in a total, in whole percent.
pub fn progress_percent(done: usize, total: usize) -> (r: usize)
    ensures
        r == spec_progress_percent(done, total),
{
    if total == 0 {
        0
    } else {
        let scaled: usize = if done > usize::MAX / 100 {
            usize::MAX
        } else {
            done * 100
        };
        scaled / total
    }
}


/// Saving a profile from the screen writes every common field the form carries: the edited
/// profile has the form's name, folders, formats and batch limit, keeps its ID and system,
/// and its library folder is the form's (cleared when blank) or, when the form has none, the
/// one it had.
pub proof fn lemma_saved_profile_takes_form_fields(p: ProfileConfig, f: SaveProfileForm)
    requires
        form_problem(p, f) is None,
    ensures
        ({
            let q = edited_profile(p, f);
            &&& q.id == p.id
            &&& q.system == p.system
            &&& q.name == f.name
            &&& q.source_format == f.source_format
            &&& q.source_dir == f.source_dir
            &&& q.done_dir == f.done_dir
            &&& q.work_dir == f.work_dir
            &&& q.state_dir == f.state_dir
            &&& q.log_dir == f.log_dir
            &&& q.output_dir == f.output_dir
            &&& q.output_format == f.output_format
            &&& q.batch_limit == f.batch_limit
            &&& match f.library_dir {
                Some(l) => if spec_blank(l@) {
                    q.library_dir is None
                } else {
                    q.library_dir == Some(l)
                },
                None => q.library_dir == p.library_dir,
            }
        }),
{
}

/// Saving a profile from the screen writes the settings of its own system from the form
/// (keeping the Wii U source service and the 3DS settings, which the form does not carry),
/// and leaves the settings of every other system as they were.
pub proof fn lemma_saved_profile_takes_form_settings(p: ProfileConfig, f: SaveProfileForm)
    requires
        form_problem(p, f) is None,
    ensures
        ({
            let q = edited_profile(p, f);
            &&& q.nintendo_3ds == p.nintendo_3ds
            &&& p.system != SystemKind::WiiU ==> q.wiiu == p.wiiu
            &&& p.system != SystemKind::GameCube ==> q.gamecube == p.gamecube
            &&& p.system != SystemKind::PlayStationPortable ==> q.psp == p.psp
            &&& p.system != SystemKind::PlayStation2 ==> q.ps2 == p.ps2
            &&& p.system == SystemKind::WiiU ==> (q.wiiu matches Some(w) && f.manifest == Some(w.manifest)
                && f.cdecrypt == Some(w.cdecrypt) && f.zarchive == Some(w.zarchive)
                && f.wait_seconds == Some(w.wait_seconds) && p.wiiu is Some
                && w.source_service == p.wiiu->0.source_service)
            &&& p.system == SystemKind::GameCube ==> (q.gamecube matches Some(g) && f.manifest == Some(
                g.manifest,
            ) && f.dolphin_tool == Some(g.dolphin_tool) && f.block_size == Some(g.block_size)
                && f.compression == Some(g.compression) && f.compression_level == Some(
                g.compression_level,
            ) && f.verify_round_trip == Some(g.verify_round_trip))
            &&& p.system == SystemKind::PlayStationPortable ==> (q.psp matches Some(x) && f.chdman
                == Some(x.chdman) && f.codec == Some(x.codec) && f.hunk_size == Some(x.hunk_size)
                && f.verify_round_trip == Some(x.verify_round_trip))
            &&& p.system == SystemKind::PlayStation2 ==> (q.ps2 matches Some(x) && f.manifest == Some(
                x.manifest,
            ) && f.chdman == Some(x.chdman) && f.minimum_savings_percent == Some(
                x.minimum_savings_percent,
            ) && f.preserve_when_compression_is_not_worthwhile == Some(
                x.preserve_when_compression_is_not_worthwhile,
            ) && f.verify_round_trip == Some(x.verify_round_trip))
        }),
{
}

} // verus!
