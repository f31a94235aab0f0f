//! Interface versions and the compatibility rule between a provider and the
//! host.

use vstd::prelude::*;

verus! {

/// Version of the host/guest contract: `major.minor`.
#[derive(Clone, Copy, Debug, PartialEq, Eq, Structural)]
pub struct InterfaceVersion {
    pub major: u32,
    pub minor: u32,
}

/// Why a provider cannot be loaded by this host.
#[derive(Clone, Copy, Debug, PartialEq, Eq, Structural)]
pub enum Incompatibility {
    /// The provider was built against another major line.
    MajorMismatch { declared: u32, host: u32 },
    /// Same major line, but the provider expects a newer minor than the host
    /// offers.
    MinorTooNew { declared: u32, host: u32 },
}

/// Verdict of the compatibility check.
#[derive(Clone, Copy, Debug, PartialEq, Eq, Structural)]
pub enum Compatibility {
    Compatible,
    Incompatible(Incompatibility),
}

/// A provider is compatible exactly when it shares the host's major version
/// and asks for no newer minor version than the host supports.
pub open spec fn compatible(declared: InterfaceVersion, host: InterfaceVersion) -> bool {
    declared.major == host.major && declared.minor <= host.minor
}

/// The verdict for each pair of versions, with the reason of a rejection.
pub open spec fn verdict(declared: InterfaceVersion, host: InterfaceVersion) -> Compatibility {
    if declared.major != host.major {
        Compatibility::Incompatible(
            Incompatibility::MajorMismatch { declared: declared.major, host: host.major },
        )
    } else if declared.minor > host.minor {
        Compatibility::Incompatible(
            Incompatibility::MinorTooNew { declared: declared.minor, host: host.minor },
        )
    } else {
        Compatibility::Compatible
    }
}

/// Checks the interface version a provider declares against the newest
/// version the host supports.
pub fn check(declared: InterfaceVersion, host: InterfaceVersion) -> (r: Compatibility)
    ensures
        r == verdict(declared, host),
        r is Compatible <==> compatible(declared, host),
{
    if declared.major != host.major {
        Compatibility::Incompatible(
            Incompatibility::MajorMismatch { declared: declared.major, host: host.major },
        )
    } else if declared.minor > host.minor {
        Compatibility::Incompatible(
            Incompatibility::MinorTooNew { declared: declared.minor, host: host.minor },
        )
    } else {
        Compatibility::Compatible
    }
}

/// A host stays compatible with everything it was compatible with when it
/// moves to a newer minor version of the same major line, and it is never
/// compatible with a provider of another major line.
pub proof fn lemma_backward_compatible(
    declared: InterfaceVersion,
    host: InterfaceVersion,
    newer: InterfaceVersion,
)
    requires
        newer.major == host.major,
        newer.minor >= host.minor,
    ensures
        compatible(declared, host) ==> compatible(declared, newer),
        declared.major != host.major ==> !compatible(declared, host),
        declared.major == host.major && declared.minor > host.minor ==> !compatible(declared, host),
{
}

} // verus!
