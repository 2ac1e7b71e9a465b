//! The configuration checks that each adapter makes before it touches a file.
use vstd::prelude::*;

use crate::config::{Nintendo3dsSettings, ProfileConfig};
use crate::error::{invalid, PipelineError, Result};
use crate::text::{chars_of, eq_ignore_case, lit, spec_lower};

verus! {

/// Whether a file with these permission bits may be run by someone: a regular file with
/// any of the execute bits (`0o111`) set.
pub fn tool_is_executable(is_file: bool, mode: u32) -> (r: bool)
    ensures
        r == (is_file && (mode & 0o111u32) != 0),
{
    is_file && (mode & 0o111u32) != 0
}

/// Whether two texts are equal ignoring ASCII case.
pub open spec fn same_word(a: Seq<char>, b: Seq<char>) -> bool {
    spec_lower(a) == spec_lower(b)
}

/// The GameCube adapter's check of a profile: ISO sources become RVZ outputs, and the
/// profile carries GameCube settings.
pub open spec fn gamecube_config_problem(p: ProfileConfig) -> Option<Seq<char>> {
    if !(same_word(p.source_format@, "iso"@) && same_word(p.output_format@, "rvz"@)) {
        Some("GameCube conversion requires source_format=iso and output_format=rvz"@)
    } else if p.gamecube is None {
        Some("missing GameCube settings"@)
    } else {
        None
    }
}

/// Checks a profile's formats and settings for GameCube conversion.
pub fn gamecube_config(profile: &ProfileConfig) -> (r: Result<()>)
    ensures
        match gamecube_config_problem(*profile) {
            None => r is Ok,
            Some(m) => r matches Err(PipelineError::InvalidConfig(e)) && e@ == m,
        },
{
    if !(eq_ignore_case(&chars_of(profile.source_format.as_str()), &lit("iso"))
        && eq_ignore_case(&chars_of(profile.output_format.as_str()), &lit("rvz"))) {
        return Err(invalid("GameCube conversion requires source_format=iso and output_format=rvz"));
    }
    if profile.gamecube.is_none() {
        return Err(invalid("missing GameCube settings"));
    }
    Ok(())
}

/// The Vita adapter's check of a profile's formats: NoNpDRM ZIP sources are deployed as
/// native Vita folders.
pub open spec fn vita_formats_ok(p: ProfileConfig) -> bool {
    same_word(p.source_format@, "nonpdrm-zip"@) && same_word(p.output_format@, "native-vita-tree"@)
}

/// Checks a profile's formats for Vita deployment.
pub fn vita_config(profile: &ProfileConfig) -> (r: Result<()>)
    ensures
        vita_formats_ok(*profile) ==> r is Ok,
        !vita_formats_ok(*profile) ==> (r matches Err(PipelineError::InvalidConfig(e)) && e@
            == "Vita deployment requires source_format=nonpdrm-zip and output_format=native-vita-tree"@),
{
    if eq_ignore_case(&chars_of(profile.source_format.as_str()), &lit("nonpdrm-zip"))
        && eq_ignore_case(&chars_of(profile.output_format.as_str()), &lit("native-vita-tree")) {
        Ok(())
    } else {
        Err(invalid("Vita deployment requires source_format=nonpdrm-zip and output_format=native-vita-tree"))
    }
}

/// The root of the Vita card a profile deploys to: its `library_dir`, the card's mounted
/// `ux0`.
pub fn vita_device_root(profile: &ProfileConfig) -> (r: Result<&String>)
    ensures
        match profile.library_dir {
            Some(d) => r == Ok::<&String, PipelineError>(&d),
            None => r matches Err(PipelineError::InvalidConfig(e)) && e@
                == "Vita library_dir must point to mounted ux0"@,
        },
{
    match &profile.library_dir {
        Some(d) => Ok(d),
        None => Err(invalid("Vita library_dir must point to mounted ux0")),
    }
}

/// The 3DS adapter's check of a profile: 3DS ZIP sources become CIA outputs, the profile
/// carries 3DS settings, and crypto-flag normalization is on.
pub open spec fn nintendo_3ds_config_problem(p: ProfileConfig) -> Option<Seq<char>> {
    if !(same_word(p.source_format@, "zip-3ds"@) && same_word(p.output_format@, "cia"@)) {
        Some("Nintendo 3DS conversion requires source_format=zip-3ds and output_format=cia"@)
    } else {
        match p.nintendo_3ds {
            None => Some("missing Nintendo 3DS settings"@),
            Some(s) => if !s.normalize_crypto_flags {
                Some("Nintendo 3DS crypto-flag normalization must be enabled"@)
            } else {
                None
            },
        }
    }
}

/// Checks a profile's formats and settings for 3DS conversion, and gives its settings.
pub fn nintendo_3ds_config(profile: &ProfileConfig) -> (r: Result<&Nintendo3dsSettings>)
    ensures
        match nintendo_3ds_config_problem(*profile) {
            None => r matches Ok(s) && profile.nintendo_3ds == Some(*s),
            Some(m) => r matches Err(PipelineError::InvalidConfig(e)) && e@ == m,
        },
{
    if !(eq_ignore_case(&chars_of(profile.source_format.as_str()), &lit("zip-3ds"))
        && eq_ignore_case(&chars_of(profile.output_format.as_str()), &lit("cia"))) {
        return Err(
            invalid("Nintendo 3DS conversion requires source_format=zip-3ds and output_format=cia"),
        );
    }
    match &profile.nintendo_3ds {
        None => Err(invalid("missing Nintendo 3DS settings")),
        Some(s) => {
            if !s.normalize_crypto_flags {
                return Err(invalid("Nintendo 3DS crypto-flag normalization must be enabled"));
            }
            Ok(s)
        },
    }
}

/// The Wii U adapter's check of a profile: it carries Wii U settings.
pub fn wiiu_config(profile: &ProfileConfig) -> (r: Result<()>)
    ensures
        profile.wiiu is Some ==> r is Ok,
        profile.wiiu is None ==> (r matches Err(PipelineError::InvalidConfig(e)) && e@
            == "missing Wii U settings"@),
{
    if profile.wiiu.is_none() {
        return Err(invalid("missing Wii U settings"));
    }
    Ok(())
}

} // verus!
