//! The conditions under which the add-on starts at all.

use vstd::prelude::*;
use vstd::string::*;

verus! {

/// Why the add-on refuses to start.
#[derive(Debug)]
pub enum PluginError {
    /// Another instance of the add-on is running already.
    AlreadyRunning,
    /// The loaded aircraft is none of the supported ones; carries its ICAO code.
    AircraftNotSupported(String),
}

/// Whether the ICAO code is that of a supported aircraft: B461, B462 or B463.
pub open spec fn supported_aircraft(icao: Seq<char>) -> bool {
    icao == "B461"@ || icao == "B462"@ || icao == "B463"@
}

/// Whether the ICAO code is that of a supported aircraft.
pub fn is_supported_aircraft(icao: &str) -> (r: bool)
    ensures
        r == supported_aircraft(icao@),
{
    proof {
        reveal_strlit("B461");
        reveal_strlit("B462");
        reveal_strlit("B463");
    }
    if icao.unicode_len() != 4 {
        return false;
    }
    let variant = icao.get_char(3);
    let family = icao.get_char(0) == 'B' && icao.get_char(1) == '4' && icao.get_char(2) == '6';
    let r = family && (variant == '1' || variant == '2' || variant == '3');
    proof {
        if r {
            if variant == '1' {
                assert(icao@ =~= "B461"@);
            } else if variant == '2' {
                assert(icao@ =~= "B462"@);
            } else {
                assert(icao@ =~= "B463"@);
            }
        }
    }
    r
}

/// Refuses to start beside a running instance.
pub fn ensure_single_instance(already_running: bool) -> (r: Result<(), PluginError>)
    ensures
        already_running ==> r == Err::<(), PluginError>(PluginError::AlreadyRunning),
        !already_running ==> r is Ok,
{
    if already_running {
        Err(PluginError::AlreadyRunning)
    } else {
        Ok(())
    }
}

/// Refuses to start in an aircraft that is not supported; the error carries the
/// aircraft's ICAO code.
pub fn ensure_supported_aircraft(acf_icao: String) -> (r: Result<(), PluginError>)
    ensures
        supported_aircraft(acf_icao@) ==> r is Ok,
        !supported_aircraft(acf_icao@) ==> r == Err::<(), PluginError>(
            PluginError::AircraftNotSupported(acf_icao),
        ),
{
    if is_supported_aircraft(acf_icao.as_str()) {
        Ok(())
    } else {
        Err(PluginError::AircraftNotSupported(acf_icao))
    }
}

} // verus!
