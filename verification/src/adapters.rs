//! The Wii U, GameCube and Nintendo 3DS adapters: each is built only from a valid profile
//! of its system, and keeps that profile.
use vstd::prelude::*;

use crate::config::{adapter_system_name, check_adapter_profile, profile_problem, ProfileConfig, SystemKind};
use crate::error::{PipelineError, Result};

verus! {

/// Why a profile cannot build the adapter of `system`, if it cannot: the profile's first
/// problem, or that it processes another system.
pub open spec fn adapter_problem(p: ProfileConfig, system: SystemKind) -> Option<Seq<char>> {
    match profile_problem(p) {
        Some(m) => Some(m),
        None => if p.system != system {
            Some("profile "@ + p.id@ + " is not "@ + adapter_system_name(system))
        } else {
            None
        },
    }
}

/// The Wii U adapter's profile.
pub struct WiiUAdapter {
    profile: ProfileConfig,
}

impl WiiUAdapter {
    /// The profile the adapter was built from.
    pub closed spec fn profile_of(self) -> ProfileConfig {
        self.profile
    }

    /// A Wii U adapter for a valid Wii U profile; any other profile is an invalid
    /// configuration.
    pub fn new(profile: ProfileConfig) -> (r: Result<WiiUAdapter>)
        ensures
            match adapter_problem(profile, SystemKind::WiiU) {
                Some(m) => r matches Err(PipelineError::InvalidConfig(x)) && x@ == m,
                None => r matches Ok(a) && a.profile_of() == profile,
            },
    {
        match check_adapter_profile(&profile, SystemKind::WiiU) {
            Ok(()) => Ok(WiiUAdapter { profile }),
            Err(e) => Err(e),
        }
    }

    /// The adapter's profile.
    pub fn profile(&self) -> (r: &ProfileConfig)
        ensures
            *r == self.profile_of(),
    {
        &self.profile
    }
}

/// The GameCube adapter's profile.
pub struct GameCubeAdapter {
    profile: ProfileConfig,
}

impl GameCubeAdapter {
    /// The profile the adapter was built from.
    pub closed spec fn profile_of(self) -> ProfileConfig {
        self.profile
    }

    /// A GameCube adapter for a valid GameCube profile; any other profile is an invalid
    /// configuration.
    pub fn new(profile: ProfileConfig) -> (r: Result<GameCubeAdapter>)
        ensures
            match adapter_problem(profile, SystemKind::GameCube) {
                Some(m) => r matches Err(PipelineError::InvalidConfig(x)) && x@ == m,
                None => r matches Ok(a) && a.profile_of() == profile,
            },
    {
        match check_adapter_profile(&profile, SystemKind::GameCube) {
            Ok(()) => Ok(GameCubeAdapter { profile }),
            Err(e) => Err(e),
        }
    }

    /// The adapter's profile.
    pub fn profile(&self) -> (r: &ProfileConfig)
        ensures
            *r == self.profile_of(),
    {
        &self.profile
    }
}

/// The Nintendo 3DS adapter's profile.
pub struct Nintendo3dsAdapter {
    profile: ProfileConfig,
}

impl Nintendo3dsAdapter {
    /// The profile the adapter was built from.
    pub closed spec fn profile_of(self) -> ProfileConfig {
        self.profile
    }

    /// A Nintendo 3DS adapter for a valid Nintendo 3DS profile; any other profile is an invalid
    /// configuration.
    pub fn new(profile: ProfileConfig) -> (r: Result<Nintendo3dsAdapter>)
        ensures
            match adapter_problem(profile, SystemKind::Nintendo3ds) {
                Some(m) => r matches Err(PipelineError::InvalidConfig(x)) && x@ == m,
                None => r matches Ok(a) && a.profile_of() == profile,
            },
    {
        match check_adapter_profile(&profile, SystemKind::Nintendo3ds) {
            Ok(()) => Ok(Nintendo3dsAdapter { profile }),
            Err(e) => Err(e),
        }
    }

    /// The adapter's profile.
    pub fn profile(&self) -> (r: &ProfileConfig)
        ensures
            *r == self.profile_of(),
    {
        &self.profile
    }
}


} // verus!
