//! One installed application on a device.

use vstd::prelude::*;
use crate::device::Device;
use crate::device::same_device_data;
use crate::session::ContentData;
use crate::session::Request;
use crate::session::RequestKind;
use crate::session::SessionPort;

verus! {

/// One installed app on a device, constructed while decoding an
/// installed-applications response.
#[derive(Clone, Debug)]
pub struct App {
    /// Numeric identifier, parsed from the first attribute.
    pub id: i32,
    /// Type tag, from the second attribute.
    pub apptype: String,
    /// Version, from the third attribute.
    pub version: String,
    /// Display name, from the element text.
    pub name: String,
    /// Icon payload, absent until explicitly fetched.
    pub icon: Option<Vec<u8>>,
}

/// The mathematical value of an application record.
pub struct GApp {
    pub id: int,
    pub apptype: Seq<char>,
    pub version: Seq<char>,
    pub name: Seq<char>,
    pub icon: Option<Seq<u8>>,
}

impl View for App {
    type V = GApp;

    open spec fn view(&self) -> GApp {
        GApp {
            id: self.id as int,
            apptype: self.apptype@,
            version: self.version@,
            name: self.name@,
            icon: match self.icon {
                None => None,
                Some(b) => Some(b@),
            },
        }
    }
}

impl App {
    /// Download the icon for this app from the device that owns it,
    /// then update this record. The request goes straight through the
    /// session handle, unstamped, as a side channel beside the sequenced
    /// funnel; without a session nothing is sent and nothing changes.
    pub fn fetch_icon<S: SessionPort>(&mut self, parent_device: &mut Device<S>)
        ensures
            old(parent_device).connection is None ==> *final(self) == *old(self)
                && *final(parent_device) == *old(parent_device),
            old(parent_device).connection is Some ==> {
                let s0 = old(parent_device).connection.unwrap();
                let s1 = final(parent_device).connection.unwrap();
                let icon_req = (Request {
                    kind: RequestKind::QueryAppIcon { channel_id: old(self).id },
                    request_id: 0,
                });
                &&& final(parent_device).connection is Some
                &&& s1.sent() == s0.sent().push(icon_req)
                &&& s1.replies() == s0.replies().push(s1.replies().last())
                &&& s1.seqs() == s0.seqs()
                &&& s1.spec_authenticated() == s0.spec_authenticated()
                &&& same_device_data(*final(parent_device), *old(parent_device))
                &&& final(self).id == old(self).id
                &&& final(self).apptype == old(self).apptype
                &&& final(self).version == old(self).version
                &&& final(self).name == old(self).name
                &&& (match s1.replies().last() {
                    Some(resp) => match resp.content_data {
                        Some(ContentData::Data { bytes }) => final(self).icon == Some(bytes),
                        _ => final(self).icon == old(self).icon,
                    },
                    None => final(self).icon == old(self).icon,
                })
            },
    {
        match parent_device.connection.as_mut() {
            Some(connection) => {
                let request = Request::new(RequestKind::QueryAppIcon { channel_id: self.id });
                match connection.send_request(request) {
                    Some(response) => {
                        match response.content_data {
                            Some(ContentData::Data { bytes }) => {
                                self.icon = Some(bytes);
                            },
                            _ => {},
                        }
                    },
                    None => {},
                }
            },
            None => {},
        }
    }
}

} // verus!
