//! The HTML of the status screen: one card per profile with its live status, its
//! actions and its configuration form.
use vstd::prelude::*;

use crate::config::{
    AppConfig, GameCubeSettings, Nintendo3dsSettings, ProfileConfig, Ps2Settings, PspSettings,
    SystemKind, WiiUSettings,
};
use crate::numbers::{decimal, decimal_chars};
use crate::status::{
    spec_supports_library_actions, supports_library_actions, ProfileStatus, PruneProgress,
    PublicationProgress,
};
use crate::text::{append_chars, chars_of, string_of};
use crate::web::{escape, field, spec_escape, spec_field, spec_progress_percent, progress_percent};

verus! {

/// Appends a literal.
fn push(v: &mut Vec<char>, s: &str)
    ensures
        final(v)@ == old(v)@ + s@,
{
    append_chars(v, &chars_of(s));
}

/// Appends a string.
fn push_string(v: &mut Vec<char>, s: &String)
    ensures
        final(v)@ == old(v)@ + s@,
{
    append_chars(v, &chars_of(s.as_str()));
}

/// Appends a value escaped for HTML.
fn push_escaped(v: &mut Vec<char>, s: &str)
    ensures
        final(v)@ == old(v)@ + spec_escape(s@),
{
    let e = escape(s);
    append_chars(v, &chars_of(e.as_str()));
}

/// Appends a count in decimal.
fn push_count(v: &mut Vec<char>, n: usize)
    ensures
        final(v)@ == old(v)@ + decimal_chars(n as nat),
{
    append_chars(v, &decimal(n as u64));
}

/// `true` or `false`, as `bool::to_string` writes it.
pub open spec fn spec_bool_text(b: bool) -> Seq<char> {
    if b {
        "true"@
    } else {
        "false"@
    }
}

/// `true` or `false`.
fn bool_text(b: bool) -> (r: String)
    ensures
        r@ == spec_bool_text(b),
{
    if b {
        "true".to_owned()
    } else {
        "false".to_owned()
    }
}

/// A signed number in decimal, as `i32::to_string` writes it.
pub open spec fn spec_signed_text(n: i32) -> Seq<char> {
    if n < 0 {
        "-"@ + decimal_chars((-n) as nat)
    } else {
        decimal_chars(n as nat)
    }
}

/// A signed number in decimal.
fn signed_text(n: i32) -> (r: String)
    ensures
        r@ == spec_signed_text(n),
{
    if n < 0 {
        let magnitude: u64 = (0i64 - (n as i64)) as u64;
        let mut v: Vec<char> = Vec::new();
        push(&mut v, "-");
        append_chars(&mut v, &decimal(magnitude));
        string_of(&v)
    } else {
        string_of(&decimal(n as u64))
    }
}

/// A count in decimal.
fn count_text(n: u64) -> (r: String)
    ensures
        r@ == decimal_chars(n as nat),
{
    string_of(&decimal(n))
}

/// The name of a system as the cards show it (the variant's name).
pub open spec fn spec_system_name(s: SystemKind) -> Seq<char> {
    match s {
        SystemKind::WiiU => "WiiU"@,
        SystemKind::GameCube => "GameCube"@,
        SystemKind::Nintendo3ds => "Nintendo3ds"@,
        SystemKind::PlayStationPortable => "PlayStationPortable"@,
        SystemKind::PlayStation2 => "PlayStation2"@,
    }
}

/// The name of a system as the cards show it.
fn system_name(s: &SystemKind) -> (r: &'static str)
    ensures
        r@ == spec_system_name(*s),
{
    match s {
        SystemKind::WiiU => "WiiU",
        SystemKind::GameCube => "GameCube",
        SystemKind::Nintendo3ds => "Nintendo3ds",
        SystemKind::PlayStationPortable => "PlayStationPortable",
        SystemKind::PlayStation2 => "PlayStation2",
    }
}

/// The inputs that every profile's configuration form has.
pub open spec fn spec_common_fields(p: ProfileConfig) -> Seq<char> {
    spec_field("Display name"@, "name"@, p.name@, "text"@) + spec_field(
        "Source contents"@,
        "source_format"@,
        p.source_format@,
        "text"@,
    ) + spec_field("Source folder"@, "source_dir"@, p.source_dir@, "text"@) + spec_field(
        "Done folder"@,
        "done_dir"@,
        p.done_dir@,
        "text"@,
    ) + spec_field("Work folder"@, "work_dir"@, p.work_dir@, "text"@) + spec_field(
        "State folder"@,
        "state_dir"@,
        p.state_dir@,
        "text"@,
    ) + spec_field("Log folder"@, "log_dir"@, p.log_dir@, "text"@) + spec_field(
        "Output folder"@,
        "output_dir"@,
        p.output_dir@,
        "text"@,
    ) + match p.library_dir {
        Some(d) => spec_field("Final library folder"@, "library_dir"@, d@, "text"@),
        None => Seq::<char>::empty(),
    } + spec_field("Output format"@, "output_format"@, p.output_format@, "text"@) + spec_field(
        "Default batch"@,
        "batch_limit"@,
        decimal_chars(p.batch_limit as nat),
        "number"@,
    )
}

/// Appends an input.
fn push_field(v: &mut Vec<char>, label: &str, name: &str, value: &str, kind: &str)
    ensures
        final(v)@ == old(v)@ + spec_field(label@, name@, value@, kind@),
{
    let f = field(label, name, value, kind);
    push_string(v, &f);
}

/// The inputs that every profile's configuration form has.
pub fn common_configuration_fields(p: &ProfileConfig) -> (r: Vec<char>)
    ensures
        r@ == spec_common_fields(*p),
{
    let mut v: Vec<char> = Vec::new();
    push_field(&mut v, "Display name", "name", p.name.as_str(), "text");
    push_field(&mut v, "Source contents", "source_format", p.source_format.as_str(), "text");
    push_field(&mut v, "Source folder", "source_dir", p.source_dir.as_str(), "text");
    push_field(&mut v, "Done folder", "done_dir", p.done_dir.as_str(), "text");
    push_field(&mut v, "Work folder", "work_dir", p.work_dir.as_str(), "text");
    push_field(&mut v, "State folder", "state_dir", p.state_dir.as_str(), "text");
    push_field(&mut v, "Log folder", "log_dir", p.log_dir.as_str(), "text");
    push_field(&mut v, "Output folder", "output_dir", p.output_dir.as_str(), "text");
    match &p.library_dir {
        Some(d) => push_field(&mut v, "Final library folder", "library_dir", d.as_str(), "text"),
        None => {
            assert(v@ + Seq::<char>::empty() =~= v@);
        },
    }
    push_field(&mut v, "Output format", "output_format", p.output_format.as_str(), "text");
    let batch = count_text(p.batch_limit as u64);
    push_field(&mut v, "Default batch", "batch_limit", batch.as_str(), "number");
    v
}

/// The inputs of a Wii U profile.
pub open spec fn spec_wiiu_fields(p: ProfileConfig, s: WiiUSettings) -> Seq<char> {
    spec_common_fields(p) + spec_field("Manifest"@, "manifest"@, s.manifest@, "text"@) + spec_field(
        "CDecrypt"@,
        "cdecrypt"@,
        s.cdecrypt@,
        "text"@,
    ) + spec_field("ZArchive"@, "zarchive"@, s.zarchive@, "text"@) + spec_field(
        "Source wait seconds"@,
        "wait_seconds"@,
        decimal_chars(s.wait_seconds as nat),
        "number"@,
    )
}

/// The inputs of a Wii U profile.
pub fn configuration_fields(p: &ProfileConfig, s: &WiiUSettings) -> (r: Vec<char>)
    ensures
        r@ == spec_wiiu_fields(*p, *s),
{
    let mut v = common_configuration_fields(p);
    push_field(&mut v, "Manifest", "manifest", s.manifest.as_str(), "text");
    push_field(&mut v, "CDecrypt", "cdecrypt", s.cdecrypt.as_str(), "text");
    push_field(&mut v, "ZArchive", "zarchive", s.zarchive.as_str(), "text");
    let wait = count_text(s.wait_seconds);
    push_field(&mut v, "Source wait seconds", "wait_seconds", wait.as_str(), "number");
    v
}

/// The inputs of a GameCube profile.
pub open spec fn spec_gamecube_fields(p: ProfileConfig, s: GameCubeSettings) -> Seq<char> {
    spec_common_fields(p) + spec_field("Download manifest"@, "manifest"@, s.manifest@, "text"@)
        + spec_field("Dolphin Tool"@, "dolphin_tool"@, s.dolphin_tool@, "text"@) + spec_field(
        "RVZ block size"@,
        "block_size"@,
        decimal_chars(s.block_size as nat),
        "number"@,
    ) + spec_field("RVZ compression"@, "compression"@, s.compression@, "text"@) + spec_field(
        "RVZ compression level"@,
        "compression_level"@,
        spec_signed_text(s.compression_level),
        "number"@,
    ) + spec_field(
        "Full round-trip verification"@,
        "verify_round_trip"@,
        spec_bool_text(s.verify_round_trip),
        "text"@,
    )
}

/// The inputs of a GameCube profile.
pub fn gamecube_configuration_fields(p: &ProfileConfig, s: &GameCubeSettings) -> (r: Vec<char>)
    ensures
        r@ == spec_gamecube_fields(*p, *s),
{
    let mut v = common_configuration_fields(p);
    push_field(&mut v, "Download manifest", "manifest", s.manifest.as_str(), "text");
    push_field(&mut v, "Dolphin Tool", "dolphin_tool", s.dolphin_tool.as_str(), "text");
    let block = count_text(s.block_size as u64);
    push_field(&mut v, "RVZ block size", "block_size", block.as_str(), "number");
    push_field(&mut v, "RVZ compression", "compression", s.compression.as_str(), "text");
    let level = signed_text(s.compression_level);
    push_field(&mut v, "RVZ compression level", "compression_level", level.as_str(), "number");
    let verify = bool_text(s.verify_round_trip);
    push_field(&mut v, "Full round-trip verification", "verify_round_trip", verify.as_str(), "text");
    v
}

/// The inputs of a 3DS profile.
pub open spec fn spec_nintendo_3ds_fields(p: ProfileConfig, s: Nintendo3dsSettings) -> Seq<char> {
    spec_common_fields(p) + spec_field("Download manifest"@, "manifest"@, s.manifest@, "text"@)
        + spec_field("7-Zip"@, "seven_zip"@, s.seven_zip@, "text"@) + spec_field(
        "Python"@,
        "python"@,
        s.python@,
        "text"@,
    ) + spec_field("CCI-to-CIA converter"@, "converter"@, s.converter@, "text"@) + spec_field(
        "CTRTool"@,
        "ctrtool"@,
        s.ctrtool@,
        "text"@,
    )
}

/// The inputs of a 3DS profile.
pub fn nintendo_3ds_configuration_fields(p: &ProfileConfig, s: &Nintendo3dsSettings) -> (r: Vec<
    char,
>)
    ensures
        r@ == spec_nintendo_3ds_fields(*p, *s),
{
    let mut v = common_configuration_fields(p);
    push_field(&mut v, "Download manifest", "manifest", s.manifest.as_str(), "text");
    push_field(&mut v, "7-Zip", "seven_zip", s.seven_zip.as_str(), "text");
    push_field(&mut v, "Python", "python", s.python.as_str(), "text");
    push_field(&mut v, "CCI-to-CIA converter", "converter", s.converter.as_str(), "text");
    push_field(&mut v, "CTRTool", "ctrtool", s.ctrtool.as_str(), "text");
    v
}

/// The inputs of a PSP profile.
pub open spec fn spec_psp_fields(p: ProfileConfig, s: PspSettings) -> Seq<char> {
    spec_common_fields(p) + spec_field("CHDMan"@, "chdman"@, s.chdman@, "text"@) + spec_field(
        "Compression codec"@,
        "codec"@,
        s.codec@,
        "text"@,
    ) + spec_field("Hunk size"@, "hunk_size"@, decimal_chars(s.hunk_size as nat), "number"@)
        + spec_field(
        "Full round-trip verification"@,
        "verify_round_trip"@,
        spec_bool_text(s.verify_round_trip),
        "text"@,
    )
}

/// The inputs of a PSP profile.
pub fn psp_configuration_fields(p: &ProfileConfig, s: &PspSettings) -> (r: Vec<char>)
    ensures
        r@ == spec_psp_fields(*p, *s),
{
    let mut v = common_configuration_fields(p);
    push_field(&mut v, "CHDMan", "chdman", s.chdman.as_str(), "text");
    push_field(&mut v, "Compression codec", "codec", s.codec.as_str(), "text");
    let hunk = count_text(s.hunk_size as u64);
    push_field(&mut v, "Hunk size", "hunk_size", hunk.as_str(), "number");
    let verify = bool_text(s.verify_round_trip);
    push_field(&mut v, "Full round-trip verification", "verify_round_trip", verify.as_str(), "text");
    v
}

/// The inputs of a PS2 profile.
pub open spec fn spec_ps2_fields(p: ProfileConfig, s: Ps2Settings) -> Seq<char> {
    spec_common_fields(p) + spec_field("Download manifest"@, "manifest"@, s.manifest@, "text"@)
        + spec_field("CHDMan"@, "chdman"@, s.chdman@, "text"@) + spec_field(
        "Minimum savings percent"@,
        "minimum_savings_percent"@,
        decimal_chars(s.minimum_savings_percent as nat),
        "number"@,
    ) + spec_field(
        "Preserve original when compression is not worthwhile"@,
        "preserve_when_compression_is_not_worthwhile"@,
        spec_bool_text(s.preserve_when_compression_is_not_worthwhile),
        "text"@,
    ) + spec_field(
        "Full round-trip verification"@,
        "verify_round_trip"@,
        spec_bool_text(s.verify_round_trip),
        "text"@,
    )
}

/// The inputs of a PS2 profile.
pub fn ps2_configuration_fields(p: &ProfileConfig, s: &Ps2Settings) -> (r: Vec<char>)
    ensures
        r@ == spec_ps2_fields(*p, *s),
{
    let mut v = common_configuration_fields(p);
    push_field(&mut v, "Download manifest", "manifest", s.manifest.as_str(), "text");
    push_field(&mut v, "CHDMan", "chdman", s.chdman.as_str(), "text");
    let minimum = count_text(s.minimum_savings_percent as u64);
    push_field(&mut v, "Minimum savings percent", "minimum_savings_percent", minimum.as_str(), "number");
    let keep = bool_text(s.preserve_when_compression_is_not_worthwhile);
    push_field(
        &mut v,
        "Preserve original when compression is not worthwhile",
        "preserve_when_compression_is_not_worthwhile",
        keep.as_str(),
        "text",
    );
    let verify = bool_text(s.verify_round_trip);
    push_field(&mut v, "Full round-trip verification", "verify_round_trip", verify.as_str(), "text");
    v
}

/// The fields of a profile's configuration form, or `None` when its system's settings are
/// missing.
pub open spec fn spec_settings_fields(p: ProfileConfig) -> Option<Seq<char>> {
    match p.system {
        SystemKind::WiiU => match p.wiiu {
            Some(s) => Some(spec_wiiu_fields(p, s)),
            None => None,
        },
        SystemKind::GameCube => match p.gamecube {
            Some(s) => Some(spec_gamecube_fields(p, s)),
            None => None,
        },
        SystemKind::Nintendo3ds => match p.nintendo_3ds {
            Some(s) => Some(spec_nintendo_3ds_fields(p, s)),
            None => None,
        },
        SystemKind::PlayStationPortable => match p.psp {
            Some(s) => Some(spec_psp_fields(p, s)),
            None => None,
        },
        SystemKind::PlayStation2 => match p.ps2 {
            Some(s) => Some(spec_ps2_fields(p, s)),
            None => None,
        },
    }
}

/// What the form says when a system's settings are missing.
pub open spec fn spec_missing_settings(system: SystemKind) -> Seq<char> {
    match system {
        SystemKind::WiiU => "<p>Wii U settings are missing.</p>"@,
        SystemKind::GameCube => "<p>GameCube settings are missing.</p>"@,
        SystemKind::Nintendo3ds => "<p>Nintendo 3DS settings are missing.</p>"@,
        SystemKind::PlayStationPortable => "<p>PSP settings are missing.</p>"@,
        SystemKind::PlayStation2 => "<p>PS2 settings are missing.</p>"@,
    }
}

/// A profile's configuration form.
pub open spec fn spec_configuration_form(p: ProfileConfig) -> Seq<char> {
    match spec_settings_fields(p) {
        None => spec_missing_settings(p.system),
        Some(f) => "<details><summary>Configuration</summary>\n<form class=\"config-form\" method=\"post\" action=\"/profiles/save\">\n<input type=\"hidden\" name=\"profile\" value=\""@
            + spec_escape(p.id@) + "\">\n<div class=\"config\">"@ + f
            + "</div>\n<button class=\"save\" type=\"submit\">Save configuration</button>\n</form></details>"@,
    }
}

/// A profile's configuration form.
pub fn configuration_form(p: &ProfileConfig) -> (r: String)
    ensures
        r@ == spec_configuration_form(*p),
{
    let fields = match p.system {
        SystemKind::WiiU => match &p.wiiu {
            Some(s) => configuration_fields(p, s),
            None => return "<p>Wii U settings are missing.</p>".to_owned(),
        },
        SystemKind::GameCube => match &p.gamecube {
            Some(s) => gamecube_configuration_fields(p, s),
            None => return "<p>GameCube settings are missing.</p>".to_owned(),
        },
        SystemKind::Nintendo3ds => match &p.nintendo_3ds {
            Some(s) => nintendo_3ds_configuration_fields(p, s),
            None => return "<p>Nintendo 3DS settings are missing.</p>".to_owned(),
        },
        SystemKind::PlayStationPortable => match &p.psp {
            Some(s) => psp_configuration_fields(p, s),
            None => return "<p>PSP settings are missing.</p>".to_owned(),
        },
        SystemKind::PlayStation2 => match &p.ps2 {
            Some(s) => ps2_configuration_fields(p, s),
            None => return "<p>PS2 settings are missing.</p>".to_owned(),
        },
    };
    let mut v: Vec<char> = Vec::new();
    push(
        &mut v,
        "<details><summary>Configuration</summary>\n<form class=\"config-form\" method=\"post\" action=\"/profiles/save\">\n<input type=\"hidden\" name=\"profile\" value=\"",
    );
    push_escaped(&mut v, p.id.as_str());
    push(&mut v, "\">\n<div class=\"config\">");
    append_chars(&mut v, &fields);
    push(
        &mut v,
        "</div>\n<button class=\"save\" type=\"submit\">Save configuration</button>\n</form></details>",
    );
    string_of(&v)
}

/// The start and stop buttons of a profile.
pub open spec fn spec_run_actions(p: ProfileConfig) -> Seq<char> {
    "<div class=\"actions\"><form method=\"post\" action=\"/profiles/start\">\n<input type=\"hidden\" name=\"profile\" value=\""@
        + spec_escape(p.id@)
        + "\">\n<label>Titles this run <input name=\"limit\" type=\"number\" min=\"1\" value=\""@
        + decimal_chars(p.batch_limit as nat)
        + "\"></label>\n<button type=\"submit\">Start / Resume</button></form>\n<form method=\"post\" action=\"/profiles/stop\"><input type=\"hidden\" name=\"profile\" value=\""@
        + spec_escape(p.id@)
        + "\">\n<button class=\"secondary\" type=\"submit\">Stop cleanly</button></form></div>"@
}

/// The start and stop buttons of a profile.
pub fn run_actions(p: &ProfileConfig) -> (r: String)
    ensures
        r@ == spec_run_actions(*p),
{
    let mut v: Vec<char> = Vec::new();
    push(
        &mut v,
        "<div class=\"actions\"><form method=\"post\" action=\"/profiles/start\">\n<input type=\"hidden\" name=\"profile\" value=\"",
    );
    push_escaped(&mut v, p.id.as_str());
    push(&mut v, "\">\n<label>Titles this run <input name=\"limit\" type=\"number\" min=\"1\" value=\"");
    push_count(&mut v, p.batch_limit);
    push(
        &mut v,
        "\"></label>\n<button type=\"submit\">Start / Resume</button></form>\n<form method=\"post\" action=\"/profiles/stop\"><input type=\"hidden\" name=\"profile\" value=\"",
    );
    push_escaped(&mut v, p.id.as_str());
    push(&mut v, "\">\n<button class=\"secondary\" type=\"submit\">Stop cleanly</button></form></div>");
    string_of(&v)
}

/// Whether a profile shows library progress and actions: its system has them and it
/// names a final library.
pub open spec fn spec_has_library(p: ProfileConfig) -> bool {
    spec_supports_library_actions(p.system) && p.library_dir is Some
}

/// Whether a profile shows library progress and actions.
fn has_library(p: &ProfileConfig) -> (r: bool)
    ensures
        r == spec_has_library(*p),
{
    supports_library_actions(&p.system) && p.library_dir.is_some()
}

/// The publish and prune buttons of a profile, when it has a final library.
pub open spec fn spec_library_actions(p: ProfileConfig) -> Seq<char> {
    if !spec_has_library(p) {
        Seq::<char>::empty()
    } else {
        "<div class=\"actions library-actions\">\n<form method=\"post\" action=\"/profiles/publish\">\n<input type=\"hidden\" name=\"profile\" value=\""@
            + spec_escape(p.id@)
            + "\">\n<label>Games to publish <input name=\"limit\" type=\"number\" min=\"1\" value=\""@
            + decimal_chars(p.batch_limit as nat)
            + "\"></label>\n<button type=\"submit\">Publish verified outputs</button></form>\n<form method=\"post\" action=\"/profiles/prune\">\n<input type=\"hidden\" name=\"profile\" value=\""@
            + spec_escape(p.id@)
            + "\">\n<label>Games to prune <input name=\"limit\" type=\"number\" min=\"1\" value=\""@
            + decimal_chars(p.batch_limit as nat)
            + "\"></label>\n<label><input name=\"confirm\" type=\"checkbox\" value=\"yes\" required> Permanently delete verified source files</label>\n<button class=\"danger\" type=\"submit\">Prune source files</button></form></div>"@
    }
}

/// The publish and prune buttons of a profile.
pub fn library_actions(p: &ProfileConfig) -> (r: String)
    ensures
        r@ == spec_library_actions(*p),
{
    if !has_library(p) {
        return String::new();
    }
    let mut v: Vec<char> = Vec::new();
    push(
        &mut v,
        "<div class=\"actions library-actions\">\n<form method=\"post\" action=\"/profiles/publish\">\n<input type=\"hidden\" name=\"profile\" value=\"",
    );
    push_escaped(&mut v, p.id.as_str());
    push(&mut v, "\">\n<label>Games to publish <input name=\"limit\" type=\"number\" min=\"1\" value=\"");
    push_count(&mut v, p.batch_limit);
    push(
        &mut v,
        "\"></label>\n<button type=\"submit\">Publish verified outputs</button></form>\n<form method=\"post\" action=\"/profiles/prune\">\n<input type=\"hidden\" name=\"profile\" value=\"",
    );
    push_escaped(&mut v, p.id.as_str());
    push(&mut v, "\">\n<label>Games to prune <input name=\"limit\" type=\"number\" min=\"1\" value=\"");
    push_count(&mut v, p.batch_limit);
    push(
        &mut v,
        "\"></label>\n<label><input name=\"confirm\" type=\"checkbox\" value=\"yes\" required> Permanently delete verified source files</label>\n<button class=\"danger\" type=\"submit\">Prune source files</button></form></div>",
    );
    string_of(&v)
}

/// A current game, or `none`.
pub open spec fn spec_game(g: Option<String>) -> Seq<char> {
    match g {
        Some(s) => s@,
        None => "none"@,
    }
}

/// Appends a current game, escaped.
fn push_game(v: &mut Vec<char>, g: &Option<String>)
    ensures
        final(v)@ == old(v)@ + spec_escape(spec_game(*g)),
{
    match g {
        Some(s) => push_escaped(v, s.as_str()),
        None => push_escaped(v, "none"),
    }
}

/// The publication progress block of a profile.
pub open spec fn spec_publication_block(id: Seq<char>, g: PublicationProgress) -> Seq<char> {
    let id = spec_escape(id);
    let pct = decimal_chars(spec_progress_percent(g.published, g.total) as nat);
    "<div class=\"publication\">\n<div class=\"publication-heading\"><h3>Publication progress</h3>\n<strong id=\"publication-count-"@
        + id + "\">"@ + decimal_chars(g.published as nat) + " / "@ + decimal_chars(g.total as nat)
        + " published ("@ + pct
        + "%)</strong></div>\n<div class=\"progress-track\"><div class=\"progress-fill\" id=\"publication-bar-"@
        + id + "\" style=\"width:"@ + pct
        + "%\"></div></div>\n<div class=\"publication-grid\">\n<div><span>Remaining</span><strong id=\"publication-remaining-"@
        + id + "\">"@ + decimal_chars(g.remaining as nat)
        + "</strong></div>\n<div><span>Converted and ready</span><strong id=\"publication-ready-"@
        + id + "\">"@ + decimal_chars(g.ready as nat)
        + "</strong></div>\n<div><span>Phase</span><strong id=\"publication-phase-"@ + id + "\">"@
        + spec_escape(g.phase@)
        + "</strong></div>\n<div><span>Current game</span><strong id=\"publication-game-"@ + id
        + "\">"@ + spec_escape(spec_game(g.current_game))
        + "</strong></div>\n<div><span>Temporary partials</span><strong id=\"publication-partial-"@
        + id + "\">"@ + decimal_chars(g.partial_files as nat) + "</strong></div>\n</div></div>"@
}

/// The publication progress block of a profile.
fn publication_block(id: &String, g: &PublicationProgress) -> (r: String)
    ensures
        r@ == spec_publication_block(id@, *g),
{
    let pct = progress_percent(g.published, g.total);
    let mut v: Vec<char> = Vec::new();
    push(
        &mut v,
        "<div class=\"publication\">\n<div class=\"publication-heading\"><h3>Publication progress</h3>\n<strong id=\"publication-count-",
    );
    push_escaped(&mut v, id.as_str());
    push(&mut v, "\">");
    push_count(&mut v, g.published);
    push(&mut v, " / ");
    push_count(&mut v, g.total);
    push(&mut v, " published (");
    push_count(&mut v, pct);
    push(
        &mut v,
        "%)</strong></div>\n<div class=\"progress-track\"><div class=\"progress-fill\" id=\"publication-bar-",
    );
    push_escaped(&mut v, id.as_str());
    push(&mut v, "\" style=\"width:");
    push_count(&mut v, pct);
    push(
        &mut v,
        "%\"></div></div>\n<div class=\"publication-grid\">\n<div><span>Remaining</span><strong id=\"publication-remaining-",
    );
    push_escaped(&mut v, id.as_str());
    push(&mut v, "\">");
    push_count(&mut v, g.remaining);
    push(&mut v, "</strong></div>\n<div><span>Converted and ready</span><strong id=\"publication-ready-");
    push_escaped(&mut v, id.as_str());
    push(&mut v, "\">");
    push_count(&mut v, g.ready);
    push(&mut v, "</strong></div>\n<div><span>Phase</span><strong id=\"publication-phase-");
    push_escaped(&mut v, id.as_str());
    push(&mut v, "\">");
    push_escaped(&mut v, g.phase.as_str());
    push(&mut v, "</strong></div>\n<div><span>Current game</span><strong id=\"publication-game-");
    push_escaped(&mut v, id.as_str());
    push(&mut v, "\">");
    push_game(&mut v, &g.current_game);
    push(&mut v, "</strong></div>\n<div><span>Temporary partials</span><strong id=\"publication-partial-");
    push_escaped(&mut v, id.as_str());
    push(&mut v, "\">");
    push_count(&mut v, g.partial_files);
    push(&mut v, "</strong></div>\n</div></div>");
    string_of(&v)
}

/// The pruning progress block of a profile.
pub open spec fn spec_prune_block(id: Seq<char>, g: PruneProgress) -> Seq<char> {
    let id = spec_escape(id);
    let pct = decimal_chars(spec_progress_percent(g.removed, g.total) as nat);
    "<div class=\"publication prune-progress\">\n<div class=\"publication-heading\"><h3>Source pruning progress</h3>\n<strong id=\"prune-count-"@
        + id + "\">"@ + decimal_chars(g.removed as nat) + " / "@ + decimal_chars(g.total as nat)
        + " source files removed ("@ + pct
        + "%)</strong></div>\n<div class=\"progress-track\"><div class=\"progress-fill\" id=\"prune-bar-"@
        + id + "\" style=\"width:"@ + pct
        + "%\"></div></div>\n<div class=\"publication-grid\">\n<div><span>Source files remaining</span><strong id=\"prune-remaining-"@
        + id + "\">"@ + decimal_chars(g.remaining as nat)
        + "</strong></div>\n<div><span>Phase</span><strong id=\"prune-phase-"@ + id + "\">"@
        + spec_escape(g.phase@)
        + "</strong></div>\n<div><span>Current game</span><strong id=\"prune-game-"@ + id + "\">"@
        + spec_escape(spec_game(g.current_game)) + "</strong></div>\n</div></div>"@
}

/// The pruning progress block of a profile.
fn prune_block(id: &String, g: &PruneProgress) -> (r: String)
    ensures
        r@ == spec_prune_block(id@, *g),
{
    let pct = progress_percent(g.removed, g.total);
    let mut v: Vec<char> = Vec::new();
    push(
        &mut v,
        "<div class=\"publication prune-progress\">\n<div class=\"publication-heading\"><h3>Source pruning progress</h3>\n<strong id=\"prune-count-",
    );
    push_escaped(&mut v, id.as_str());
    push(&mut v, "\">");
    push_count(&mut v, g.removed);
    push(&mut v, " / ");
    push_count(&mut v, g.total);
    push(&mut v, " source files removed (");
    push_count(&mut v, pct);
    push(
        &mut v,
        "%)</strong></div>\n<div class=\"progress-track\"><div class=\"progress-fill\" id=\"prune-bar-",
    );
    push_escaped(&mut v, id.as_str());
    push(&mut v, "\" style=\"width:");
    push_count(&mut v, pct);
    push(
        &mut v,
        "%\"></div></div>\n<div class=\"publication-grid\">\n<div><span>Source files remaining</span><strong id=\"prune-remaining-",
    );
    push_escaped(&mut v, id.as_str());
    push(&mut v, "\">");
    push_count(&mut v, g.remaining);
    push(&mut v, "</strong></div>\n<div><span>Phase</span><strong id=\"prune-phase-");
    push_escaped(&mut v, id.as_str());
    push(&mut v, "\">");
    push_escaped(&mut v, g.phase.as_str());
    push(&mut v, "</strong></div>\n<div><span>Current game</span><strong id=\"prune-game-");
    push_escaped(&mut v, id.as_str());
    push(&mut v, "\">");
    push_game(&mut v, &g.current_game);
    push(&mut v, "</strong></div>\n</div></div>");
    string_of(&v)
}

/// The publication progress of a profile, when it has a library and its status carries
/// publication progress.
pub open spec fn spec_publication_status(p: ProfileConfig, st: Option<ProfileStatus>) -> Seq<char> {
    if spec_has_library(p) && (st matches Some(s) && s.publication is Some) {
        spec_publication_block(p.id@, st->0.publication->0)
    } else {
        Seq::<char>::empty()
    }
}

/// The publication progress of a profile.
pub fn publication_status(p: &ProfileConfig, st: Option<&ProfileStatus>) -> (r: String)
    ensures
        r@ == spec_publication_status(*p, owned(st)),
{
    if !has_library(p) {
        return String::new();
    }
    match st {
        Some(s) => match &s.publication {
            Some(g) => publication_block(&p.id, g),
            None => String::new(),
        },
        None => String::new(),
    }
}

/// The pruning progress of a profile, when it has a library and its status carries
/// pruning progress.
pub open spec fn spec_prune_status(p: ProfileConfig, st: Option<ProfileStatus>) -> Seq<char> {
    if spec_has_library(p) && (st matches Some(s) && s.prune is Some) {
        spec_prune_block(p.id@, st->0.prune->0)
    } else {
        Seq::<char>::empty()
    }
}

/// The pruning progress of a profile.
pub fn prune_status(p: &ProfileConfig, st: Option<&ProfileStatus>) -> (r: String)
    ensures
        r@ == spec_prune_status(*p, owned(st)),
{
    if !has_library(p) {
        return String::new();
    }
    match st {
        Some(s) => match &s.prune {
            Some(g) => prune_block(&p.id, g),
            None => String::new(),
        },
        None => String::new(),
    }
}

/// A borrowed status as a value.
pub open spec fn owned(st: Option<&ProfileStatus>) -> Option<ProfileStatus> {
    match st {
        Some(s) => Some(*s),
        None => None,
    }
}

/// The first status at or after `i` that belongs to the profile `id`.
pub open spec fn status_from(sts: Seq<ProfileStatus>, id: Seq<char>, i: int) -> Option<ProfileStatus>
    decreases sts.len() - i,
{
    if i < 0 || i >= sts.len() {
        None
    } else if sts[i].profile@ == id {
        Some(sts[i])
    } else {
        status_from(sts, id, i + 1)
    }
}

/// The status that belongs to the profile `id`: the first one that names it.
pub open spec fn status_of(sts: Seq<ProfileStatus>, id: Seq<char>) -> Option<ProfileStatus> {
    status_from(sts, id, 0)
}

/// The status that belongs to a profile.
fn find_status<'a>(sts: &'a [ProfileStatus], id: &String) -> (r: Option<&'a ProfileStatus>)
    ensures
        owned(r) == status_of(sts@, id@),
{
    let mut i: usize = 0;
    while i < sts.len()
        invariant
            i <= sts@.len(),
            status_of(sts@, id@) == status_from(sts@, id@, i as int),
        decreases sts@.len() - i,
    {
        if crate::text::chars_eq(&chars_of(sts[i].profile.as_str()), &chars_of(id.as_str())) {
            return Some(&sts[i]);
        }
        i += 1;
    }
    None
}

/// What a status says of a profile's activity, or `unknown` without one.
pub open spec fn spec_activity_of(st: Option<ProfileStatus>) -> Seq<char> {
    match st {
        Some(s) => s.activity@,
        None => "unknown"@,
    }
}

/// Appends a profile's activity, escaped.
fn push_activity(v: &mut Vec<char>, st: Option<&ProfileStatus>)
    ensures
        final(v)@ == old(v)@ + spec_escape(spec_activity_of(owned(st))),
{
    match st {
        Some(s) => push_escaped(v, s.activity.as_str()),
        None => push_escaped(v, "unknown"),
    }
}

/// ` selected` on the first card and option.
pub open spec fn spec_selected(index: int) -> Seq<char> {
    if index == 0 {
        " selected"@
    } else {
        Seq::<char>::empty()
    }
}

/// Appends ` selected` on the first card and option.
fn push_selected(v: &mut Vec<char>, index: usize)
    ensures
        final(v)@ == old(v)@ + spec_selected(index as int),
{
    if index == 0 {
        push(v, " selected");
    } else {
        assert(v@ + Seq::<char>::empty() =~= v@);
    }
}

/// The card of a profile: its status, progress, actions and configuration; the first
/// card is the selected one.
pub open spec fn spec_card(index: int, p: ProfileConfig, st: Option<ProfileStatus>) -> Seq<char> {
    let id = spec_escape(p.id@);
    let act = spec_escape(spec_activity_of(st));
    let cur = spec_escape(
        match st {
            Some(s) => s.current@,
            None => "not started"@,
        },
    );
    let completed: usize = match st {
        Some(s) => s.completed_groups,
        None => 0,
    };
    let total: usize = match st {
        Some(s) => s.total_groups,
        None => 0,
    };
    let worker = spec_escape(
        match st {
            Some(s) => match s.active_worker {
                Some(w) => w@,
                None => "none"@,
            },
            None => "none"@,
        },
    );
    "<section class=\"card"@ + spec_selected(index) + "\" data-profile=\""@ + id
        + "\" data-vita=\"false\">\n<div class=\"heading\"><div><p class=\"eyebrow\">"@
        + spec_escape(spec_system_name(p.system)) + "</p><h2>"@ + spec_escape(p.name@)
        + "</h2></div>\n<span class=\"badge "@ + act + "\">"@ + act
        + "</span></div>\n<div class=\"status-grid\">\n<div><span>Current</span><strong id=\"current-"@
        + id + "\">"@ + cur
        + "</strong></div>\n<div><span>Completed</span><strong id=\"groups-"@ + id + "\">"@
        + decimal_chars(completed as nat) + "/"@ + decimal_chars(total as nat)
        + "</strong></div>\n<div><span>Worker</span><strong id=\"worker-"@ + id + "\">"@ + worker
        + "</strong></div></div>\n"@ + spec_publication_status(p, st) + "\n"@ + spec_prune_status(
        p,
        st,
    ) + "\n"@ + spec_run_actions(p) + "\n"@ + spec_library_actions(p) + "\n"@
        + spec_configuration_form(p) + "</section>"@
}

/// The card of a profile.
fn card(index: usize, p: &ProfileConfig, st: Option<&ProfileStatus>) -> (r: Vec<char>)
    ensures
        r@ == spec_card(index as int, *p, owned(st)),
{
    let mut v: Vec<char> = Vec::new();
    push(&mut v, "<section class=\"card");
    push_selected(&mut v, index);
    push(&mut v, "\" data-profile=\"");
    push_escaped(&mut v, p.id.as_str());
    push(&mut v, "\" data-vita=\"false\">\n<div class=\"heading\"><div><p class=\"eyebrow\">");
    push_escaped(&mut v, system_name(&p.system));
    push(&mut v, "</p><h2>");
    push_escaped(&mut v, p.name.as_str());
    push(&mut v, "</h2></div>\n<span class=\"badge ");
    push_activity(&mut v, st);
    push(&mut v, "\">");
    push_activity(&mut v, st);
    push(
        &mut v,
        "</span></div>\n<div class=\"status-grid\">\n<div><span>Current</span><strong id=\"current-",
    );
    push_escaped(&mut v, p.id.as_str());
    push(&mut v, "\">");
    match st {
        Some(s) => push_escaped(&mut v, s.current.as_str()),
        None => push_escaped(&mut v, "not started"),
    }
    push(&mut v, "</strong></div>\n<div><span>Completed</span><strong id=\"groups-");
    push_escaped(&mut v, p.id.as_str());
    push(&mut v, "\">");
    match st {
        Some(s) => push_count(&mut v, s.completed_groups),
        None => push_count(&mut v, 0),
    }
    push(&mut v, "/");
    match st {
        Some(s) => push_count(&mut v, s.total_groups),
        None => push_count(&mut v, 0),
    }
    push(&mut v, "</strong></div>\n<div><span>Worker</span><strong id=\"worker-");
    push_escaped(&mut v, p.id.as_str());
    push(&mut v, "\">");
    match st {
        Some(s) => match &s.active_worker {
            Some(w) => push_escaped(&mut v, w.as_str()),
            None => push_escaped(&mut v, "none"),
        },
        None => push_escaped(&mut v, "none"),
    }
    push(&mut v, "</strong></div></div>\n");
    push_string(&mut v, &publication_status(p, st));
    push(&mut v, "\n");
    push_string(&mut v, &prune_status(p, st));
    push(&mut v, "\n");
    push_string(&mut v, &run_actions(p));
    push(&mut v, "\n");
    push_string(&mut v, &library_actions(p));
    push(&mut v, "\n");
    push_string(&mut v, &configuration_form(p));
    push(&mut v, "</section>");
    v
}

/// The cards of the first `n` profiles.
pub open spec fn spec_cards(ps: Seq<ProfileConfig>, sts: Seq<ProfileStatus>, n: int) -> Seq<char>
    decreases n,
{
    if n <= 0 {
        Seq::<char>::empty()
    } else {
        spec_cards(ps, sts, n - 1) + spec_card(n - 1, ps[n - 1], status_of(sts, ps[n - 1].id@))
    }
}

/// The cards of all profiles, in their configured order.
pub fn render_profiles(config: &AppConfig, sts: &[ProfileStatus]) -> (r: String)
    ensures
        r@ == spec_cards(config.profiles@, sts@, config.profiles@.len() as int),
{
    let mut v: Vec<char> = Vec::new();
    for i in 0..config.profiles.len()
        invariant
            v@ == spec_cards(config.profiles@, sts@, i as int),
    {
        let p = &config.profiles[i];
        let st = find_status(sts, &p.id);
        let c = card(i, p, st);
        append_chars(&mut v, &c);
    }
    string_of(&v)
}

/// The option of a profile in the profile picker.
pub open spec fn spec_option(index: int, p: ProfileConfig, st: Option<ProfileStatus>) -> Seq<char> {
    "<option value=\""@ + spec_escape(p.id@) + "\""@ + spec_selected(index) + ">"@ + spec_escape(
        p.name@,
    ) + " - "@ + spec_escape(spec_activity_of(st)) + "</option>"@
}

/// The options of the first `n` profiles.
pub open spec fn spec_options(ps: Seq<ProfileConfig>, sts: Seq<ProfileStatus>, n: int) -> Seq<char>
    decreases n,
{
    if n <= 0 {
        Seq::<char>::empty()
    } else {
        spec_options(ps, sts, n - 1) + spec_option(n - 1, ps[n - 1], status_of(sts, ps[n - 1].id@))
    }
}

/// The profile picker.
pub open spec fn spec_profile_selector(ps: Seq<ProfileConfig>, sts: Seq<ProfileStatus>) -> Seq<char> {
    "<label class=\"profile-picker\">System <select id=\"profile-select\">"@ + spec_options(
        ps,
        sts,
        ps.len() as int,
    ) + "</select></label>"@
}

/// The profile picker: one option per profile, with its activity.
pub fn profile_selector(config: &AppConfig, sts: &[ProfileStatus]) -> (r: String)
    ensures
        r@ == spec_profile_selector(config.profiles@, sts@),
{
    let mut options: Vec<char> = Vec::new();
    for i in 0..config.profiles.len()
        invariant
            options@ == spec_options(config.profiles@, sts@, i as int),
    {
        let p = &config.profiles[i];
        let st = find_status(sts, &p.id);
        push(&mut options, "<option value=\"");
        push_escaped(&mut options, p.id.as_str());
        push(&mut options, "\"");
        push_selected(&mut options, i);
        push(&mut options, ">");
        push_escaped(&mut options, p.name.as_str());
        push(&mut options, " - ");
        push_activity(&mut options, st);
        push(&mut options, "</option>");
    }
    let mut v: Vec<char> = Vec::new();
    push(&mut v, "<label class=\"profile-picker\">System <select id=\"profile-select\">");
    append_chars(&mut v, &options);
    push(&mut v, "</select></label>");
    string_of(&v)
}

} // verus!
