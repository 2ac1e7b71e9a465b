//! Profile configuration and its validation rules.
use vstd::prelude::*;

use crate::domain::BatchPolicy;
use crate::error::{invalid, invalid_with, text, text_with, PipelineError, Result};
use crate::text::{chars_eq, chars_of, is_blank, spec_blank, spec_split, split_char, views};

verus! {

/// The console or media family that a profile processes.
#[derive(Clone, Copy, Debug, PartialEq, Eq)]
pub enum SystemKind {
    WiiU,
    GameCube,
    Nintendo3ds,
    PlayStationPortable,
    PlayStation2,
}

/// Settings of the local status service.
#[derive(Clone, Debug, PartialEq, Eq)]
pub struct ServiceConfig {
    pub bind: String,
    pub default_batch_limit: usize,
}

impl Default for ServiceConfig {
    /// The loopback address `127.0.0.1:8787` and a batch limit of five.
    fn default() -> (r: Self)
        ensures
            r.bind@ == "127.0.0.1:8787"@,
            r.default_batch_limit == 5,
    {
        ServiceConfig { bind: text("127.0.0.1:8787"), default_batch_limit: 5 }
    }
}

/// Wii U tools and source manifest.
#[derive(Clone, Debug, PartialEq, Eq)]
pub struct WiiUSettings {
    pub manifest: String,
    pub cdecrypt: String,
    pub zarchive: String,
    pub wait_seconds: u64,
    pub source_service: String,
}

/// The default pause, in seconds, while Wii U sources are still downloading.
pub fn default_wait_seconds() -> (r: u64)
    ensures
        r == 60,
{
    60
}

/// The default user service that downloads Wii U sources.
pub fn default_source_service() -> (r: String)
    ensures
        r@ == "archive-wiiu-download.service"@,
{
    text("archive-wiiu-download.service")
}

/// PS2 tools, manifest and compression policy.
#[derive(Clone, Debug, PartialEq, Eq)]
pub struct Ps2Settings {
    pub manifest: String,
    pub chdman: String,
    pub minimum_savings_percent: u8,
    pub preserve_when_compression_is_not_worthwhile: bool,
    pub verify_round_trip: bool,
}

/// GameCube tools, manifest and RVZ parameters.
#[derive(Clone, Debug, PartialEq, Eq)]
pub struct GameCubeSettings {
    pub manifest: String,
    pub dolphin_tool: String,
    pub block_size: u32,
    pub compression: String,
    pub compression_level: i32,
    pub verify_round_trip: bool,
}

/// The default RVZ block size.
pub fn default_rvz_block_size() -> (r: u32)
    ensures
        r == 131_072,
{
    131_072
}

/// The default RVZ compression method.
pub fn default_rvz_compression() -> (r: String)
    ensures
        r@ == "zstd"@,
{
    text("zstd")
}

/// The default RVZ compression level.
pub fn default_rvz_compression_level() -> (r: i32)
    ensures
        r == 5,
{
    5
}

/// Nintendo 3DS tools and manifest.
#[derive(Clone, Debug, PartialEq, Eq)]
pub struct Nintendo3dsSettings {
    pub manifest: String,
    pub seven_zip: String,
    pub python: String,
    pub converter: String,
    pub ctrtool: String,
    pub normalize_crypto_flags: bool,
}

/// PSP tools and CHD parameters.
#[derive(Clone, Debug, PartialEq, Eq)]
pub struct PspSettings {
    pub chdman: String,
    pub codec: String,
    pub hunk_size: u32,
    pub verify_round_trip: bool,
}

/// The default PSP CHD codec.
pub fn default_psp_codec() -> (r: String)
    ensures
        r@ == "zstd"@,
{
    text("zstd")
}

/// The default PSP CHD hunk size.
pub fn default_psp_hunk_size() -> (r: u32)
    ensures
        r == 2048,
{
    2048
}

/// The default of the switches that are on unless configured off.
pub fn enabled() -> (r: bool)
    ensures
        r,
{
    true
}

/// One configured processing profile.
#[derive(Clone, Debug, PartialEq, Eq)]
pub struct ProfileConfig {
    pub id: String,
    pub name: String,
    pub system: SystemKind,
    pub source_format: String,
    pub source_dir: String,
    pub done_dir: String,
    pub work_dir: String,
    pub state_dir: String,
    pub log_dir: String,
    pub output_dir: String,
    pub library_dir: Option<String>,
    pub output_format: String,
    pub batch_limit: usize,
    pub wiiu: Option<WiiUSettings>,
    pub gamecube: Option<GameCubeSettings>,
    pub nintendo_3ds: Option<Nintendo3dsSettings>,
    pub psp: Option<PspSettings>,
    pub ps2: Option<Ps2Settings>,
}

/// A character that a profile ID may hold.
pub open spec fn id_char(c: char) -> bool {
    ('a' <= c && c <= 'z') || ('0' <= c && c <= '9') || c == '-'
}

/// A profile ID: non-empty lowercase letters, digits and hyphens.
pub open spec fn valid_profile_id(id: Seq<char>) -> bool {
    id.len() > 0 && forall|i: int| 0 <= i < id.len() ==> id_char(#[trigger] id[i])
}

/// An absolute path (`Path::is_absolute` on Unix: it begins at the root).
pub open spec fn is_absolute(p: Seq<char>) -> bool {
    p.len() > 0 && p[0] == '/'
}

/// The components of a path, as `Path::components` yields them on Unix: the root (written
/// `/`), a leading `.` of a relative path, then every segment that is neither empty nor `.`.
pub open spec fn path_components(p: Seq<char>) -> Seq<Seq<char>> {
    let segments = spec_split(p, '/');
    let head = if is_absolute(p) {
        seq![seq!['/']]
    } else if segments[0] == seq!['.'] {
        seq![seq!['.']]
    } else {
        Seq::<Seq<char>>::empty()
    };
    head + segments.filter(|c: Seq<char>| is_component(c))
}

/// A path segment that names something: neither empty nor `.`.
pub open spec fn is_component(c: Seq<char>) -> bool {
    c != Seq::<char>::empty() && c != seq!['.']
}

/// Two paths are equal as `Path`s: they have the same components.
pub open spec fn same_path(a: Seq<char>, b: Seq<char>) -> bool {
    path_components(a) == path_components(b)
}

/// The first problem with the system-specific settings of a profile.
pub open spec fn system_problem(p: ProfileConfig) -> Option<Seq<char>> {
    match p.system {
        SystemKind::WiiU => if p.wiiu is None {
            Some("Wii U profile requires [profiles.wiiu] settings"@)
        } else {
            None
        },
        SystemKind::GameCube => match p.gamecube {
            None => Some("GameCube profile requires [profiles.gamecube] settings"@),
            Some(g) => if g.block_size == 0 {
                Some("GameCube RVZ block_size must exceed zero"@)
            } else if spec_blank(g.compression@) {
                Some("GameCube RVZ compression cannot be empty"@)
            } else {
                None
            },
        },
        SystemKind::Nintendo3ds => if p.nintendo_3ds is None {
            Some("Nintendo 3DS profile requires [profiles.3ds] settings"@)
        } else {
            None
        },
        SystemKind::PlayStationPortable => if p.psp is None {
            Some("PSP profile requires [profiles.psp] settings"@)
        } else {
            None
        },
        SystemKind::PlayStation2 => match p.ps2 {
            None => Some("PS2 profile requires [profiles.ps2] settings"@),
            Some(s) => if s.minimum_savings_percent > 100 {
                Some("PS2 minimum_savings_percent cannot exceed 100"@)
            } else {
                None
            },
        },
    }
}

/// The first problem with the directories of a profile.
pub open spec fn directory_problem(p: ProfileConfig) -> Option<Seq<char>> {
    if !is_absolute(p.source_dir@) {
        Some("source_dir must be absolute: "@ + p.source_dir@)
    } else if !is_absolute(p.done_dir@) {
        Some("done_dir must be absolute: "@ + p.done_dir@)
    } else if !is_absolute(p.work_dir@) {
        Some("work_dir must be absolute: "@ + p.work_dir@)
    } else if !is_absolute(p.state_dir@) {
        Some("state_dir must be absolute: "@ + p.state_dir@)
    } else if !is_absolute(p.log_dir@) {
        Some("log_dir must be absolute: "@ + p.log_dir@)
    } else if !is_absolute(p.output_dir@) {
        Some("output_dir must be absolute: "@ + p.output_dir@)
    } else if p.library_dir matches Some(l) && !is_absolute(l@) {
        Some("library_dir must be absolute: "@ + p.library_dir->0@)
    } else if same_path(p.done_dir@, p.source_dir@) {
        Some("done_dir cannot equal source_dir"@)
    } else if same_path(p.work_dir@, p.source_dir@) {
        Some("work_dir cannot equal source_dir"@)
    } else if same_path(p.state_dir@, p.source_dir@) {
        Some("state_dir cannot equal source_dir"@)
    } else if same_path(p.log_dir@, p.source_dir@) {
        Some("log_dir cannot equal source_dir"@)
    } else if same_path(p.output_dir@, p.source_dir@) {
        Some("output_dir cannot equal source_dir"@)
    } else if same_path(p.output_dir@, p.done_dir@) {
        Some("output_dir cannot equal done_dir"@)
    } else {
        None
    }
}

/// The first problem with a profile, in the order in which validation checks them.
pub open spec fn profile_problem(p: ProfileConfig) -> Option<Seq<char>> {
    if !valid_profile_id(p.id@) {
        Some("profile id must use lowercase letters, digits, or hyphens: "@ + p.id@)
    } else if spec_blank(p.name@) {
        Some("name cannot be empty"@)
    } else if spec_blank(p.source_format@) {
        Some("source_format cannot be empty"@)
    } else if spec_blank(p.output_format@) {
        Some("output_format cannot be empty"@)
    } else if p.batch_limit == 0 {
        Some("batch limit must exceed zero"@)
    } else if directory_problem(p) is Some {
        directory_problem(p)
    } else {
        system_problem(p)
    }
}

/// Whether a string is a valid profile ID.
pub fn is_valid_profile_id(id: &[char]) -> (r: bool)
    ensures
        r == valid_profile_id(id@),
{
    if id.len() == 0 {
        return false;
    }
    let mut i: usize = 0;
    while i < id.len()
        invariant
            i <= id@.len(),
            forall|j: int| 0 <= j < i ==> id_char(#[trigger] id@[j]),
        decreases id@.len() - i,
    {
        let c = id[i];
        if !(('a' <= c && c <= 'z') || ('0' <= c && c <= '9') || c == '-') {
            return false;
        }
        i += 1;
    }
    true
}

/// Whether a path is absolute.
pub fn path_is_absolute(p: &String) -> (r: bool)
    ensures
        r == is_absolute(p@),
{
    let c = chars_of(p.as_str());
    c.len() > 0 && c[0] == '/'
}

/// The components of a path, as `path_components` describes them.
pub fn components(p: &String) -> (r: Vec<Vec<char>>)
    ensures
        views(r@) == path_components(p@),
{
    let c = chars_of(p.as_str());
    let pieces = split_char(&c, '/');
    let mut out: Vec<Vec<char>> = Vec::new();
    if c.len() > 0 && c[0] == '/' {
        let mut root: Vec<char> = Vec::new();
        root.push('/');
        assert(root@ =~= seq!['/']);
        out.push(root);
    } else if pieces[0].len() == 1 && pieces[0][0] == '.' {
        let mut dot: Vec<char> = Vec::new();
        dot.push('.');
        assert(dot@ =~= seq!['.']);
        out.push(dot);
    }
    let ghost head = views(out@);
    proof {
        assert(views(pieces@)[0] == pieces@[0]@);
        if pieces@[0]@ == seq!['.'] {
            assert(pieces@[0]@.len() == 1);
        }
        if pieces@[0]@.len() == 1 && pieces@[0]@[0] == '.' {
            assert(pieces@[0]@ =~= seq!['.']);
        }
        if c@.len() > 0 && c@[0] == '/' {
            assert(views(out@) =~= seq![seq!['/']]);
        } else if pieces@[0]@ == seq!['.'] {
            assert(views(out@) =~= seq![seq!['.']]);
        } else {
            assert(views(out@) =~= Seq::<Seq<char>>::empty());
        }
    }
    for i in 0..pieces.len()
        invariant
            views(pieces@) == spec_split(p@, '/'),
            views(out@) == head + views(pieces@).take(i as int).filter(|c: Seq<char>| is_component(c)),
    {
        let piece = &pieces[i];
        let keep = !(piece.len() == 0 || (piece.len() == 1 && piece[0] == '.'));
        assert(keep == is_component(piece@)) by {
            if piece@.len() == 0 {
                assert(piece@ =~= Seq::<char>::empty());
            }
            if piece@.len() == 1 && piece@[0] == '.' {
                assert(piece@ =~= seq!['.']);
            }
            if piece@ == seq!['.'] {
                assert(piece@.len() == 1);
            }
        }
        let ghost before = views(out@);
        assert(views(pieces@).take(i + 1 as int).drop_last() =~= views(pieces@).take(i as int));
        reveal_with_fuel(Seq::filter, 1);
        if keep {
            out.push(piece.clone());
            assert(views(out@) =~= before.push(piece@));
            assert(views(out@) =~= head + views(pieces@).take(i + 1 as int).filter(
                |c: Seq<char>| is_component(c),
            ));
        } else {
            assert(views(out@) =~= before);
        }
    }
    assert(views(pieces@).take(pieces@.len() as int) =~= views(pieces@));
    proof {
        assert(views(out@) == head + spec_split(p@, '/').filter(|c: Seq<char>| is_component(c)));
    }
    out
}

/// Whether two absolute paths name the same location.
pub fn paths_equal(a: &String, b: &String) -> (r: bool)
    ensures
        r == same_path(a@, b@),
{
    let ca = components(a);
    let cb = components(b);
    if ca.len() != cb.len() {
        assert(views(ca@).len() != views(cb@).len());
        return false;
    }
    let mut i: usize = 0;
    while i < ca.len()
        invariant
            i <= ca@.len(),
            ca@.len() == cb@.len(),
            views(ca@) == path_components(a@),
            views(cb@) == path_components(b@),
            forall|j: int| 0 <= j < i ==> ca@[j]@ == cb@[j]@,
        decreases ca@.len() - i,
    {
        if !chars_eq(&ca[i], &cb[i]) {
            assert(views(ca@)[i as int] != views(cb@)[i as int]);
            return false;
        }
        i += 1;
    }
    assert(views(ca@) =~= views(cb@));
    true
}

fn absolute_check(message: &str, path: &String) -> (r: Result<()>)
    ensures
        r is Ok <==> is_absolute(path@),
        r matches Err(e) ==> e matches PipelineError::InvalidConfig(m) && m@ == message@ + path@,
{
    if path_is_absolute(path) {
        Ok(())
    } else {
        Err(invalid_with(message, &chars_of(path.as_str())))
    }
}

fn validate_directories(p: &ProfileConfig) -> (r: Result<()>)
    ensures
        r is Ok <==> directory_problem(*p) is None,
        r matches Err(e) ==> e matches PipelineError::InvalidConfig(m) && Some(m@)
            == directory_problem(*p),
{
    absolute_check("source_dir must be absolute: ", &p.source_dir)?;
    absolute_check("done_dir must be absolute: ", &p.done_dir)?;
    absolute_check("work_dir must be absolute: ", &p.work_dir)?;
    absolute_check("state_dir must be absolute: ", &p.state_dir)?;
    absolute_check("log_dir must be absolute: ", &p.log_dir)?;
    absolute_check("output_dir must be absolute: ", &p.output_dir)?;
    if let Some(library) = &p.library_dir {
        absolute_check("library_dir must be absolute: ", library)?;
    }
    if paths_equal(&p.done_dir, &p.source_dir) {
        return Err(invalid("done_dir cannot equal source_dir"));
    }
    if paths_equal(&p.work_dir, &p.source_dir) {
        return Err(invalid("work_dir cannot equal source_dir"));
    }
    if paths_equal(&p.state_dir, &p.source_dir) {
        return Err(invalid("state_dir cannot equal source_dir"));
    }
    if paths_equal(&p.log_dir, &p.source_dir) {
        return Err(invalid("log_dir cannot equal source_dir"));
    }
    if paths_equal(&p.output_dir, &p.source_dir) {
        return Err(invalid("output_dir cannot equal source_dir"));
    }
    if paths_equal(&p.output_dir, &p.done_dir) {
        return Err(invalid("output_dir cannot equal done_dir"));
    }
    Ok(())
}

/// Checks the settings that the profile's system requires.
pub fn validate_system_settings(p: &ProfileConfig) -> (r: Result<()>)
    ensures
        r is Ok <==> system_problem(*p) is None,
        r matches Err(e) ==> e matches PipelineError::InvalidConfig(m) && Some(m@)
            == system_problem(*p),
{
    match p.system {
        SystemKind::WiiU => {
            if p.wiiu.is_none() {
                return Err(invalid("Wii U profile requires [profiles.wiiu] settings"));
            }
        },
        SystemKind::GameCube => {
            match &p.gamecube {
                None => {
                    return Err(invalid("GameCube profile requires [profiles.gamecube] settings"));
                },
                Some(g) => {
                    if g.block_size == 0 {
                        return Err(invalid("GameCube RVZ block_size must exceed zero"));
                    }
                    let c = chars_of(g.compression.as_str());
                    if is_blank(&c) {
                        return Err(invalid("GameCube RVZ compression cannot be empty"));
                    }
                },
            }
        },
        SystemKind::Nintendo3ds => {
            if p.nintendo_3ds.is_none() {
                return Err(invalid("Nintendo 3DS profile requires [profiles.3ds] settings"));
            }
        },
        SystemKind::PlayStationPortable => {
            if p.psp.is_none() {
                return Err(invalid("PSP profile requires [profiles.psp] settings"));
            }
        },
        SystemKind::PlayStation2 => {
            match &p.ps2 {
                None => {
                    return Err(invalid("PS2 profile requires [profiles.ps2] settings"));
                },
                Some(s) => {
                    if s.minimum_savings_percent > 100 {
                        return Err(invalid("PS2 minimum_savings_percent cannot exceed 100"));
                    }
                },
            }
        },
    }
    Ok(())
}

impl ProfileConfig {
    /// Validates the ID, names, batch limit, directories and system settings, and reports
    /// the first problem found.
    pub fn validate(&self) -> (r: Result<()>)
        ensures
            r is Ok <==> profile_problem(*self) is None,
            r matches Err(e) ==> e matches PipelineError::InvalidConfig(m) && Some(m@)
                == profile_problem(*self),
    {
        let id = chars_of(self.id.as_str());
        if !is_valid_profile_id(&id) {
            return Err(
                invalid_with("profile id must use lowercase letters, digits, or hyphens: ", &id),
            );
        }
        if is_blank(&chars_of(self.name.as_str())) {
            return Err(invalid("name cannot be empty"));
        }
        if is_blank(&chars_of(self.source_format.as_str())) {
            return Err(invalid("source_format cannot be empty"));
        }
        if is_blank(&chars_of(self.output_format.as_str())) {
            return Err(invalid("output_format cannot be empty"));
        }
        let _ = BatchPolicy::new(self.batch_limit)?;
        validate_directories(self)?;
        validate_system_settings(self)
    }

    /// The profile's batch limit, rejected when zero.
    pub fn batch_policy(&self) -> (r: Result<BatchPolicy>)
        ensures
            r is Ok <==> self.batch_limit > 0,
            r matches Ok(b) ==> b.spec_limit() == self.batch_limit,
            r matches Err(e) ==> e matches PipelineError::InvalidConfig(m) && m@
                == "batch limit must exceed zero"@,
    {
        BatchPolicy::new(self.batch_limit)
    }
}

/// The whole configuration: service settings and profiles.
#[derive(Clone, Debug, PartialEq, Eq)]
pub struct AppConfig {
    pub service: ServiceConfig,
    pub profiles: Vec<ProfileConfig>,
}

/// Some profile before index `i` has the ID of profile `i`.
pub open spec fn repeats_earlier_id(ps: Seq<ProfileConfig>, i: int) -> bool {
    exists|j: int| 0 <= j < i && #[trigger] ps[j].id@ == ps[i].id@
}

/// The first problem with the profiles from index `i` on: each profile is validated, then
/// its ID is checked against the earlier ones.
pub open spec fn profiles_problem_from(ps: Seq<ProfileConfig>, i: int) -> Option<Seq<char>>
    decreases ps.len() - i,
{
    if i < 0 || i >= ps.len() {
        None
    } else if profile_problem(ps[i]) is Some {
        profile_problem(ps[i])
    } else if repeats_earlier_id(ps, i) {
        Some("duplicate profile id: "@ + ps[i].id@)
    } else {
        profiles_problem_from(ps, i + 1)
    }
}

/// The first problem with a configuration.
pub open spec fn config_problem(c: AppConfig) -> Option<Seq<char>> {
    if c.service.default_batch_limit == 0 {
        Some("batch limit must exceed zero"@)
    } else {
        profiles_problem_from(c.profiles@, 0)
    }
}

/// The index of the first profile with an ID.
pub open spec fn profile_index(ps: Seq<ProfileConfig>, id: Seq<char>) -> Option<int> {
    if exists|i: int| 0 <= i < ps.len() && #[trigger] ps[i].id@ == id {
        Some(
            choose|i: int|
                0 <= i < ps.len() && ps[i].id@ == id && forall|j: int|
                    0 <= j < i ==> #[trigger] ps[j].id@ != id,
        )
    } else {
        None
    }
}

proof fn lemma_problem_from_ok(ps: Seq<ProfileConfig>, i: int)
    requires
        0 <= i,
        profiles_problem_from(ps, i) is None,
    ensures
        forall|k: int| i <= k < ps.len() ==> profile_problem(#[trigger] ps[k]) is None,
        forall|k: int| i <= k < ps.len() ==> !repeats_earlier_id(ps, k),
    decreases ps.len() - i,
{
    if i < ps.len() {
        lemma_problem_from_ok(ps, i + 1);
    }
}

/// A configuration that validates has only valid profiles and no two profiles with one ID.
pub proof fn lemma_valid_config(c: AppConfig)
    requires
        config_problem(c) is None,
    ensures
        c.service.default_batch_limit > 0,
        forall|k: int| 0 <= k < c.profiles@.len() ==> profile_problem(#[trigger] c.profiles@[k])
            is None,
        forall|a: int, b: int|
            0 <= a < c.profiles@.len() && 0 <= b < c.profiles@.len() && a != b
                ==> #[trigger] c.profiles@[a].id@ != #[trigger] c.profiles@[b].id@,
{
    lemma_problem_from_ok(c.profiles@, 0);
    assert forall|a: int, b: int|
        0 <= a < c.profiles@.len() && 0 <= b < c.profiles@.len() && a != b implies #[trigger] c.profiles@[a].id@
        != #[trigger] c.profiles@[b].id@ by {
        if a < b {
            assert(!repeats_earlier_id(c.profiles@, b));
        } else {
            assert(!repeats_earlier_id(c.profiles@, a));
        }
    }
}

impl AppConfig {
    /// Validates the service's batch limit, every profile, and that profile IDs are unique;
    /// reports the first problem found.
    pub fn validate(&self) -> (r: Result<()>)
        ensures
            r is Ok <==> config_problem(*self) is None,
            r matches Err(e) ==> e matches PipelineError::InvalidConfig(m) && Some(m@)
                == config_problem(*self),
    {
        let _ = BatchPolicy::new(self.service.default_batch_limit)?;
        let ghost ps = self.profiles@;
        for i in 0..self.profiles.len()
            invariant
                ps == self.profiles@,
                self.service.default_batch_limit > 0,
                config_problem(*self) == profiles_problem_from(ps, i as int),
        {
            let profile = &self.profiles[i];
            profile.validate()?;
            let mut j: usize = 0;
            while j < i
                invariant
                    j <= i < ps.len(),
                    ps == self.profiles@,
                    profile_problem(ps[i as int]) is None,
                    *profile == ps[i as int],
                    self.service.default_batch_limit > 0,
                    config_problem(*self) == profiles_problem_from(ps, i as int),
                    forall|k: int| 0 <= k < j ==> #[trigger] ps[k].id@ != ps[i as int].id@,
                decreases i - j,
            {
                if self.profiles[j].id == profile.id {
                    assert(repeats_earlier_id(ps, i as int)) by {
                        assert(ps[j as int].id@ == ps[i as int].id@);
                    }
                    return Err(
                        invalid_with("duplicate profile id: ", &chars_of(profile.id.as_str())),
                    );
                }
                j += 1;
            }
            assert(!repeats_earlier_id(ps, i as int));
        }
        Ok(())
    }

    /// The first profile with an ID.
    pub fn profile(&self, id: &str) -> (r: Result<&ProfileConfig>)
        ensures
            r is Ok <==> profile_index(self.profiles@, id@) is Some,
            r matches Ok(p) ==> *p == self.profiles@[profile_index(self.profiles@, id@)->0],
            r matches Err(e) ==> e matches PipelineError::InvalidConfig(m) && m@
                == "unknown profile: "@ + id@,
    {
        let wanted = id.to_owned();
        let mut i: usize = 0;
        while i < self.profiles.len()
            invariant
                i <= self.profiles@.len(),
                wanted@ == id@,
                forall|j: int| 0 <= j < i ==> #[trigger] self.profiles@[j].id@ != id@,
            decreases self.profiles@.len() - i,
        {
            if self.profiles[i].id == wanted {
                let ghost k = i as int;
                assert(0 <= k < self.profiles@.len() && self.profiles@[k].id@ == id@);
                let ghost c = profile_index(self.profiles@, id@)->0;
                assert(c == k) by {
                    if c < k {
                        assert(self.profiles@[c].id@ != id@);
                    } else if c > k {
                        assert(self.profiles@[k].id@ != id@);
                    }
                }
                return Ok(&self.profiles[i]);
            }
            i += 1;
        }
        Err(invalid_with("unknown profile: ", &chars_of(id)))
    }
}


/// The name of a system in an adapter's messages.
pub open spec fn adapter_system_name(system: SystemKind) -> Seq<char> {
    match system {
        SystemKind::WiiU => "Wii U"@,
        SystemKind::GameCube => "GameCube"@,
        SystemKind::Nintendo3ds => "Nintendo 3DS"@,
        SystemKind::PlayStationPortable => "PSP"@,
        SystemKind::PlayStation2 => "PS2"@,
    }
}

/// Checks a profile for the adapter of `system`: the profile is valid and processes that
/// system.
pub fn check_adapter_profile(profile: &ProfileConfig, system: SystemKind) -> (r: Result<()>)
    ensures
        match profile_problem(*profile) {
            Some(m) => r matches Err(PipelineError::InvalidConfig(x)) && x@ == m,
            None => if profile.system != system {
                r matches Err(PipelineError::InvalidConfig(x)) && x@ == "profile "@ + profile.id@
                    + " is not "@ + adapter_system_name(system)
            } else {
                r is Ok
            },
        },
{
    match profile.validate() {
        Ok(()) => {},
        Err(e) => return Err(e),
    }
    let same = match (profile.system, system) {
        (SystemKind::WiiU, SystemKind::WiiU) => true,
        (SystemKind::GameCube, SystemKind::GameCube) => true,
        (SystemKind::Nintendo3ds, SystemKind::Nintendo3ds) => true,
        (SystemKind::PlayStationPortable, SystemKind::PlayStationPortable) => true,
        (SystemKind::PlayStation2, SystemKind::PlayStation2) => true,
        _ => false,
    };
    if same {
        return Ok(());
    }
    let name = match system {
        SystemKind::WiiU => "Wii U",
        SystemKind::GameCube => "GameCube",
        SystemKind::Nintendo3ds => "Nintendo 3DS",
        SystemKind::PlayStationPortable => "PSP",
        SystemKind::PlayStation2 => "PS2",
    };
    let mut m = chars_of("profile ");
    crate::text::append_chars(&mut m, &chars_of(profile.id.as_str()));
    crate::text::append_chars(&mut m, &chars_of(" is not "));
    crate::text::append_chars(&mut m, &chars_of(name));
    Err(PipelineError::InvalidConfig(crate::text::string_of(&m)))
}

} // verus!
