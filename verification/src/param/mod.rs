//! Parameters of media formats, as properties of objects.

pub mod audio;
pub mod format;

use vstd::prelude::*;

use crate::utils::names::{debug_name, spec_debug_name};

verus! {

/// The number of the parameter type that is no parameter.
pub const SPA_PARAM_INVALID: u32 = 0;

/// Property information.
pub const SPA_PARAM_PROP_INFO: u32 = 1;

/// Properties.
pub const SPA_PARAM_PROPS: u32 = 2;

/// Available formats.
pub const SPA_PARAM_ENUM_FORMAT: u32 = 3;

/// Configured format.
pub const SPA_PARAM_FORMAT: u32 = 4;

/// Buffer configurations.
pub const SPA_PARAM_BUFFERS: u32 = 5;

/// Allowed metadata for buffers.
pub const SPA_PARAM_META: u32 = 6;

/// Configurable IO areas.
pub const SPA_PARAM_IO: u32 = 7;

/// Profile enumeration.
pub const SPA_PARAM_ENUM_PROFILE: u32 = 8;

/// Profile configuration.
pub const SPA_PARAM_PROFILE: u32 = 9;

/// Port configuration enumeration.
pub const SPA_PARAM_ENUM_PORT_CONFIG: u32 = 10;

/// Port configuration.
pub const SPA_PARAM_PORT_CONFIG: u32 = 11;

/// Routing enumeration.
pub const SPA_PARAM_ENUM_ROUTE: u32 = 12;

/// Routing configuration.
pub const SPA_PARAM_ROUTE: u32 = 13;

/// Control parameter.
pub const SPA_PARAM_CONTROL: u32 = 14;

/// Latency reporting.
pub const SPA_PARAM_LATENCY: u32 = 15;

/// Processing latency.
pub const SPA_PARAM_PROCESS_LATENCY: u32 = 16;

/// Different parameter types that can be queried, by their numbers.
#[derive(Debug, Copy, Clone, PartialEq, Eq, Structural)]
pub struct ParamType(pub u32);

impl ParamType {
    /// Obtain a [`ParamType`] from its number.
    pub fn from_raw(raw: u32) -> (r: Self)
        ensures
            r.0 == raw,
    {
        Self(raw)
    }

    /// Get the number of this `ParamType`.
    pub fn as_raw(&self) -> (r: u32)
        ensures
            r == self.0,
    {
        self.0
    }

    /// The name under which this parameter type is printed for debugging,
    /// given the short name that the registry has for it.
    pub fn debug_name(&self, registered: Option<&str>) -> (r: String)
        ensures
            r@ == spec_debug_name(
                "ParamType"@,
                "Unknown"@,
                match registered {
                    None => None,
                    Some(name) => Some(name@),
                },
            ),
    {
        debug_name("ParamType", "Unknown", registered)
    }
}

} // verus!
