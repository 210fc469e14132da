//! Power states a device can report, with their wire vocabulary.

use vstd::prelude::*;
use vstd::string::StringExecFns;
use crate::device::Device;
use crate::device::same_device_data;
use crate::remote::button::Button;
use crate::remote::button::spec_button_name;
use crate::session::Request;
use crate::session::RequestKind;
use crate::session::SessionPort;
use crate::session::WakePort;
use crate::text::chars_eq_str;
use crate::text::lower_chars;
use crate::text::str_to_chars;
use crate::text::to_lower_chars;

verus! {

/// Possible power states for a device to be in.
#[derive(Clone, Copy, Debug, Eq, PartialEq, Structural)]
pub enum PowerState {
    /// Powered down; reachable only through a wake signal.
    Off,
    /// Screen off, hardware on, still accessible.
    DisplayOff,
    /// Screen is on.
    On,
    /// Not known yet.
    Unknown,
}

/// Canonical protocol string of a power state.
pub open spec fn spec_power_name(p: PowerState) -> Seq<char> {
    match p {
        PowerState::Off => "Off"@,
        PowerState::DisplayOff => "DisplayOff"@,
        PowerState::On => "On"@,
        PowerState::Unknown => "Unknown"@,
    }
}

/// Power state named by wire text, case-insensitively; unrecognized
/// input maps to Unknown.
pub open spec fn spec_power_of(s: Seq<char>) -> PowerState {
    let low = lower_chars(s);
    if low == "off"@ || low == "poweroff"@ {
        PowerState::Off
    } else if low == "displayoff"@ {
        PowerState::DisplayOff
    } else if low == "on"@ || low == "poweron"@ {
        PowerState::On
    } else {
        PowerState::Unknown
    }
}

impl PowerState {
    /// Render the canonical protocol string.
    pub fn to_string(&self) -> (r: String)
        ensures
            r@ == spec_power_name(*self),
    {
        match self {
            PowerState::Off => String::from_str("Off"),
            PowerState::DisplayOff => String::from_str("DisplayOff"),
            PowerState::On => String::from_str("On"),
            PowerState::Unknown => String::from_str("Unknown"),
        }
    }

    /// Decode wire text, case-insensitively, falling back to Unknown.
    pub fn from_string(s: &str) -> (r: PowerState)
        ensures
            r == spec_power_of(s@),
    {
        let v = str_to_chars(s);
        let low = to_lower_chars(&v);
        if chars_eq_str(&low, "off") || chars_eq_str(&low, "poweroff") {
            PowerState::Off
        } else if chars_eq_str(&low, "displayoff") {
            PowerState::DisplayOff
        } else if chars_eq_str(&low, "on") || chars_eq_str(&low, "poweron") {
            PowerState::On
        } else {
            PowerState::Unknown
        }
    }
}

impl<S: SessionPort> Device<S> {
    /// Whether the device supports being woken over the network.
    pub fn supports_wake_on_lan(&self) -> (r: bool)
        ensures
            r == (self.mac_wol is Some),
    {
        match &self.mac_wol {
            None => false,
            Some(_) => true,
        }
    }

    /// Toggle the device power state. A device known to be off needs
    /// its wake hardware address: with one, a single wake signal goes
    /// out through the wake capability (a send failure is swallowed,
    /// since no session exists to report through); without one,
    /// nothing at all is sent. In any other state the Power key is
    /// pressed through the active session.
    pub fn toggle_power_state<W: WakePort>(&mut self, wake: &mut W)
        ensures
            old(self).power_state == PowerState::Off ==> *final(self) == *old(self) && (match old(
                self,
            ).mac_wol {
                None => final(wake).woken() == old(wake).woken(),
                Some(m) => final(wake).woken() == old(wake).woken().push(m@),
            }),
            old(self).power_state != PowerState::Off ==> {
                &&& final(wake).woken() == old(wake).woken()
                &&& same_device_data(*final(self), *old(self))
                &&& (old(self).connection is None ==> *final(self) == *old(self))
                &&& (old(self).connection is Some ==> {
                    let s0 = old(self).connection.unwrap();
                    let s1 = final(self).connection.unwrap();
                    &&& final(self).connection is Some
                    &&& (exists|req: Request|
                        s1.sent() == s0.sent().push(req) && req.request_id == s1.seqs().last()
                            && (req.kind matches RequestKind::PressKey { key } && key@
                            == spec_button_name(Button::Power)))
                    &&& s1.seqs() == s0.seqs().push(s1.seqs().last())
                    &&& s1.spec_authenticated() == s0.spec_authenticated()
                })
            },
    {
        match self.power_state {
            PowerState::Off => {
                if !self.supports_wake_on_lan() {
                    return ;
                }
                match &self.mac_wol {
                    Some(m) => {
                        let _ = wake.send_wake(m);
                    },
                    None => {},
                }
            },
            _ => {
                let _ = self.press_button(Button::Power);
            },
        }
    }
}

} // verus!
