use vstd::prelude::*;

verus! {

/// The transport family used to reach a receiver.
#[derive(Debug, Clone, Copy, PartialEq, Eq, Structural)]
pub enum Route {
    Raop,
    AirPlay2Compat,
    AirPlay2Native,
}

/// What the receiver (and the local credential store) allow.
#[derive(Debug, Clone, Copy, PartialEq, Eq, Structural)]
pub struct ReceiverCapabilities {
    pub supports_airplay2: bool,
    pub supports_pairing: bool,
    pub supports_ptp: bool,
    pub has_stored_credentials: bool,
    pub requires_pin: bool,
    pub legacy_pairing: bool,
}

impl Default for ReceiverCapabilities {
    fn default() -> (r: Self)
        ensures
            !r.supports_airplay2,
            !r.supports_pairing,
            !r.supports_ptp,
            !r.has_stored_credentials,
            !r.requires_pin,
            !r.legacy_pairing,
    {
        ReceiverCapabilities {
            supports_airplay2: false,
            supports_pairing: false,
            supports_ptp: false,
            has_stored_credentials: false,
            requires_pin: false,
            legacy_pairing: false,
        }
    }
}

/// The route chosen for a receiver before any session starts.
pub open spec fn spec_route(caps: ReceiverCapabilities) -> Route {
    if !caps.supports_airplay2 {
        Route::Raop
    } else if caps.has_stored_credentials {
        Route::AirPlay2Native
    } else if caps.supports_pairing && !caps.requires_pin && !caps.legacy_pairing {
        Route::AirPlay2Native
    } else {
        Route::AirPlay2Compat
    }
}

pub struct RouteResolver;

impl RouteResolver {
    pub fn resolve(caps: ReceiverCapabilities) -> (route: Route)
        ensures
            route == spec_route(caps),
    {
        if !caps.supports_airplay2 {
            return Route::Raop;
        }
        if caps.has_stored_credentials {
            return Route::AirPlay2Native;
        }
        if caps.supports_pairing && !caps.requires_pin && !caps.legacy_pairing {
            return Route::AirPlay2Native;
        }
        Route::AirPlay2Compat
    }
}

/// Legacy RAOP and native AirPlay 2 are kept apart: a receiver without
/// AirPlay 2 always takes RAOP, whatever credentials or pairing it has, and
/// an AirPlay 2 receiver never does. Stored credentials give the native
/// route; without them, native needs pairing that asks for no PIN and is not
/// legacy, and everything else falls back to compat.
pub proof fn law_route_separation(caps: ReceiverCapabilities)
    ensures
        !caps.supports_airplay2 ==> spec_route(caps) == Route::Raop,
        spec_route(caps) == Route::Raop ==> !caps.supports_airplay2,
        spec_route(caps) == Route::AirPlay2Native ==> caps.supports_airplay2 && (
        caps.has_stored_credentials || (caps.supports_pairing && !caps.requires_pin
            && !caps.legacy_pairing)),
        caps.supports_airplay2 && caps.has_stored_credentials ==> spec_route(caps)
            == Route::AirPlay2Native,
        caps.supports_airplay2 && !caps.has_stored_credentials && (!caps.supports_pairing
            || caps.requires_pin || caps.legacy_pairing) ==> spec_route(caps)
            == Route::AirPlay2Compat,
{
}

} // verus!
