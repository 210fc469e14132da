//! Network types a device can be connected to, with their wire vocabulary.

use vstd::prelude::*;
use vstd::string::StringExecFns;
use crate::text::chars_eq_str;
use crate::text::lower_chars;
use crate::text::str_to_chars;
use crate::text::to_lower_chars;

verus! {

/// Network types a device could be connected to.
#[derive(Clone, Copy, Debug, Eq, PartialEq, Structural)]
pub enum NetworkType {
    /// e.g. Wi-Fi
    Wireless,
    /// Ethernet cable
    Ethernet,
}

/// Canonical protocol string of a network type.
pub open spec fn spec_network_name(n: NetworkType) -> Seq<char> {
    match n {
        NetworkType::Wireless => "Wireless"@,
        NetworkType::Ethernet => "Ethernet"@,
    }
}

/// Network type named by wire text: `ethernet` in any ASCII case is
/// Ethernet; anything else falls back to Wireless.
pub open spec fn spec_network_of(s: Seq<char>) -> NetworkType {
    if lower_chars(s) == "ethernet"@ {
        NetworkType::Ethernet
    } else {
        NetworkType::Wireless
    }
}

impl NetworkType {
    /// Render the canonical protocol string.
    pub fn to_string(&self) -> (r: String)
        ensures
            r@ == spec_network_name(*self),
    {
        match self {
            NetworkType::Wireless => String::from_str("Wireless"),
            NetworkType::Ethernet => String::from_str("Ethernet"),
        }
    }

    /// Decode wire text, case-insensitively, falling back to Wireless.
    pub fn from_string(s: &str) -> (r: NetworkType)
        ensures
            r == spec_network_of(s@),
    {
        let v = str_to_chars(s);
        let low = to_lower_chars(&v);
        if chars_eq_str(&low, "ethernet") {
            NetworkType::Ethernet
        } else {
            NetworkType::Wireless
        }
    }
}

} // verus!
