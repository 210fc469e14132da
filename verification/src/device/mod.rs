//! The device object: identity and last-known state of one remote
//! target, and the session operations against it.

pub mod network;
pub mod power;

use vstd::prelude::*;
use vstd::string::StringExecFns;
use crate::device::network::NetworkType;
use crate::device::power::PowerState;
use crate::fields::FieldMap;
use crate::session::ContentData;
use crate::session::Request;
use crate::session::RequestKind;
use crate::session::Response;
use crate::session::SessionPort;
use crate::text::chars_eq_str;
use crate::text::chunks_view;
use crate::text::spec_parse_u8_dec;
use crate::text::spec_parse_u8_hex;
use crate::text::spec_split;
use crate::text::lower_chars;
use crate::text::parse_u8_dec;
use crate::text::parse_u8_hex;
use crate::text::split_chars;
use crate::text::str_to_chars;
use crate::text::to_lower_chars;
use crate::xml::decode_apps;
use crate::xml::decode_info;
use crate::xml::gapps_view;
use crate::xml::spec_decode_apps;
use crate::xml::spec_decode_info;
use crate::xml::XmlError;
use crate::app::App;
use crate::app::GApp;
use crate::device::network::spec_network_of;

verus! {

/// How a session operation can fail.
#[derive(Clone, Copy, Debug, PartialEq, Eq, Structural)]
pub enum DeviceError {
    /// The operation needs an authenticated session and none is open.
    NotConnected,
    /// No response was received for a request expecting one.
    EmptyResponse,
    /// A response was received but carried no body.
    NoContent,
    /// A response body does not decode.
    Malformed(XmlError),
    /// A device-information document misses a mandatory field.
    MissingField,
    /// A hardware-address text does not parse.
    BadAddress,
}

/// Identity and last-known state of one remote target. The session
/// handle is present only after a successful authenticated connect.
#[derive(Clone, Debug)]
pub struct Device<S> {
    /// The live session, if one was opened and authenticated.
    pub connection: Option<S>,
    /// Dotted-quad network address.
    pub ipv4: String,
    /// Control port.
    pub port: i32,
    /// Display name; empty until refreshed.
    pub name: String,
    /// Connected network type.
    pub network: NetworkType,
    /// Hardware address used for wake signaling, if supported.
    pub mac_wol: Option<[u8; 6]>,
    /// Hardware address of the wireless interface.
    pub mac_wlan: Option<[u8; 6]>,
    /// Hardware address of the wired interface.
    pub mac_eth: Option<[u8; 6]>,
    /// Last-known power state.
    pub power_state: PowerState,
}

/// The two devices agree on everything but the session handle.
pub open spec fn same_device_data<S>(a: Device<S>, b: Device<S>) -> bool {
    a.ipv4 == b.ipv4 && a.port == b.port && a.name == b.name && a.network == b.network
        && a.mac_wol == b.mac_wol && a.mac_wlan == b.mac_wlan && a.mac_eth == b.mac_eth
        && a.power_state == b.power_state
}

/// What an information query returns for each reply the session hands
/// back: no reply, a reply without body, or the decoded field mapping.
pub open spec fn spec_info_outcome(reply: Option<Response>) -> Result<
    Map<Seq<char>, Seq<char>>,
    DeviceError,
> {
    match reply {
        None => Err(DeviceError::EmptyResponse),
        Some(resp) => match resp.content_data {
            Some(ContentData::Text { string }) => match spec_decode_info(string@) {
                Ok(m) => Ok(m),
                Err(e) => Err(DeviceError::Malformed(e)),
            },
            _ => Err(DeviceError::NoContent),
        },
    }
}

/// What an installed-applications query returns for each reply.
pub open spec fn spec_apps_outcome(reply: Option<Response>) -> Result<Seq<GApp>, DeviceError> {
    match reply {
        None => Err(DeviceError::EmptyResponse),
        Some(resp) => match resp.content_data {
            Some(ContentData::Text { string }) => match spec_decode_apps(string@) {
                Ok(a) => Ok(a),
                Err(e) => Err(DeviceError::Malformed(e)),
            },
            _ => Err(DeviceError::NoContent),
        },
    }
}

/// A hardware-address text of at most six colon-separated chunks, every
/// chunk a hexadecimal byte.
pub open spec fn spec_mac_ok(s: Seq<char>) -> bool {
    let cs = spec_split(s, ':');
    cs.len() <= 6 && forall|k: int| 0 <= k < cs.len() ==> spec_parse_u8_hex(#[trigger] cs[k]) is Some
}

/// The six bytes a hardware-address text stands for; chunks beyond the
/// text are zero.
pub open spec fn spec_mac_bytes(s: Seq<char>) -> Seq<u8> {
    let cs = spec_split(s, ':');
    Seq::new(
        6,
        |k: int|
            if k < cs.len() {
                spec_parse_u8_hex(cs[k]).unwrap()
            } else {
                0u8
            },
    )
}

/// One chunk's byte value, or zero past the end of the chunk list.
fn mac_chunk_val(chunks: &Vec<Vec<char>>, k: usize) -> (b: u8)
    requires
        k < 6,
        forall|q: int|
            0 <= q < chunks_view(chunks@).len() ==> spec_parse_u8_hex(
                #[trigger] chunks_view(chunks@)[q],
            ) is Some,
    ensures
        b == (if (k as int) < chunks_view(chunks@).len() {
            spec_parse_u8_hex(chunks_view(chunks@)[k as int]).unwrap()
        } else {
            0u8
        }),
{
    if k < chunks.len() {
        proof {
            assert(chunks@[k as int]@.subrange(0, chunks@[k as int]@.len() as int) =~= chunks@[
                k as int
            ]@);
            assert(chunks_view(chunks@)[k as int] == chunks@[k as int]@);
        }
        match parse_u8_hex(&chunks[k], 0, chunks[k].len()) {
            Some(x) => x,
            None => 0,
        }
    } else {
        0
    }
}

/// Split a hardware-address text of colon-separated hexadecimal chunks
/// into the six bytes it stands for. The text must be well formed: at
/// most six chunks, each a hexadecimal byte.
pub fn split_mac(input: &str) -> (r: [u8; 6])
    requires
        spec_mac_ok(input@),
    ensures
        r@ == spec_mac_bytes(input@),
{
    let v = str_to_chars(input);
    let chunks = split_chars(&v, ':');
    let b0 = mac_chunk_val(&chunks, 0);
    let b1 = mac_chunk_val(&chunks, 1);
    let b2 = mac_chunk_val(&chunks, 2);
    let b3 = mac_chunk_val(&chunks, 3);
    let b4 = mac_chunk_val(&chunks, 4);
    let b5 = mac_chunk_val(&chunks, 5);
    let r: [u8; 6] = [b0, b1, b2, b3, b4, b5];
    proof {
        assert(r@ =~= spec_mac_bytes(input@));
    }
    r
}

/// Executable test for `spec_mac_ok`.
pub fn mac_ok(input: &str) -> (r: bool)
    ensures
        r == spec_mac_ok(input@),
{
    let v = str_to_chars(input);
    let chunks = split_chars(&v, ':');
    if chunks.len() > 6 {
        return false;
    }
    let mut k: usize = 0;
    while k < chunks.len()
        invariant
            k <= chunks@.len(),
            chunks_view(chunks@) == spec_split(v@, ':'),
            v@ == input@,
            chunks@.len() <= 6,
            forall|q: int|
                0 <= q < k ==> spec_parse_u8_hex(#[trigger] chunks_view(chunks@)[q]) is Some,
        decreases chunks@.len() - k,
    {
        proof {
            assert(chunks@[k as int]@.subrange(0, chunks@[k as int]@.len() as int) =~= chunks@[
                k as int
            ]@);
            assert(chunks_view(chunks@)[k as int] == chunks@[k as int]@);
        }
        match parse_u8_hex(&chunks[k], 0, chunks[k].len()) {
            Some(_) => {},
            None => {
                return false;
            },
        }
        k = k + 1;
    }
    true
}

/// The fields a successful reconciliation rewrites.
pub struct Reconciled {
    /// New display name.
    pub name: String,
    /// New network type.
    pub network: NetworkType,
    /// New wireless hardware address.
    pub mac_wlan: [u8; 6],
    /// New wired hardware address, where the device supports one.
    pub mac_eth: Option<[u8; 6]>,
}

/// The mathematical value of a reconciliation.
pub struct GReconciled {
    pub name: Seq<char>,
    pub network: NetworkType,
    pub mac_wlan: Seq<u8>,
    pub mac_eth: Option<Seq<u8>>,
}

/// What reconciling a decoded device-information mapping yields: the
/// mandatory name, network type and wireless address, and the wired
/// address where an optional field says the device supports one; a
/// missing wired-address field under that condition falls back to the
/// all-zero address.
pub open spec fn spec_reconcile(m: Map<Seq<char>, Seq<char>>) -> Result<GReconciled, DeviceError> {
    if !m.contains_key("friendly-device-name"@) || !m.contains_key("network-type"@)
        || !m.contains_key("wifi-mac"@) {
        Err(DeviceError::MissingField)
    } else if !spec_mac_ok(m["wifi-mac"@]) {
        Err(DeviceError::BadAddress)
    } else {
        let eth_wanted = m.contains_key("supports-ethernet"@) && lower_chars(
            m["supports-ethernet"@],
        ) == "true"@;
        let eth_text = if m.contains_key("ethernet-mac"@) {
            m["ethernet-mac"@]
        } else {
            "0:0:0:0:0:0"@
        };
        if eth_wanted && !spec_mac_ok(eth_text) {
            Err(DeviceError::BadAddress)
        } else {
            Ok(
                GReconciled {
                    name: m["friendly-device-name"@],
                    network: spec_network_of(m["network-type"@]),
                    mac_wlan: spec_mac_bytes(m["wifi-mac"@]),
                    mac_eth: if eth_wanted {
                        Some(spec_mac_bytes(eth_text))
                    } else {
                        None
                    },
                },
            )
        }
    }
}

/// Reconcile a decoded device-information mapping into the fields a
/// refresh rewrites. This is the pure step of the self-refresh
/// operation; malformed or missing input becomes a recoverable error.
pub fn reconcile(info: &FieldMap) -> (r: Result<Reconciled, DeviceError>)
    ensures
        r matches Ok(u) ==> spec_reconcile(info@) == Ok::<GReconciled, DeviceError>(
            GReconciled {
                name: u.name@,
                network: u.network,
                mac_wlan: u.mac_wlan@,
                mac_eth: match u.mac_eth {
                    None => None,
                    Some(b) => Some(b@),
                },
            },
        ),
        r matches Err(e) ==> spec_reconcile(info@) == Err::<GReconciled, DeviceError>(e),
{
    let name: String = match info.get("friendly-device-name") {
        Some(v) => v.clone(),
        None => {
            return Err(DeviceError::MissingField);
        },
    };
    let network: NetworkType = match info.get("network-type") {
        Some(v) => NetworkType::from_string(v.as_str()),
        None => {
            return Err(DeviceError::MissingField);
        },
    };
    let mac_wlan: [u8; 6] = match info.get("wifi-mac") {
        Some(v) => {
            if !mac_ok(v.as_str()) {
                return Err(DeviceError::BadAddress);
            }
            split_mac(v.as_str())
        },
        None => {
            return Err(DeviceError::MissingField);
        },
    };
    let eth_wanted: bool = match info.get("supports-ethernet") {
        Some(v) => {
            let low = to_lower_chars(&str_to_chars(v.as_str()));
            chars_eq_str(&low, "true")
        },
        None => false,
    };
    let mac_eth: Option<[u8; 6]> = if eth_wanted {
        match info.get("ethernet-mac") {
            Some(v) => {
                if !mac_ok(v.as_str()) {
                    return Err(DeviceError::BadAddress);
                }
                Some(split_mac(v.as_str()))
            },
            None => {
                let d = "0:0:0:0:0:0";
                if !mac_ok(d) {
                    return Err(DeviceError::BadAddress);
                }
                Some(split_mac(d))
            },
        }
    } else {
        None
    };
    Ok(Reconciled { name, network, mac_wlan, mac_eth })
}

/// One dotted part of an address read as an octet; a part that is no
/// number degrades to zero.
pub open spec fn spec_octet(s: Seq<char>, k: int) -> u8 {
    match spec_parse_u8_dec(spec_split(s, '.')[k]) {
        Some(x) => x,
        None => 0u8,
    }
}

/// The four octets a dotted-quad address parses to.
pub open spec fn spec_octets(s: Seq<char>) -> Seq<u8> {
    Seq::new(4, |k: int| spec_octet(s, k))
}

impl<S: SessionPort> Device<S> {
    /// A bare device: address and port only, everything else at its
    /// default.
    pub fn new(ipv4: &str, port: i32) -> (d: Device<S>)
        ensures
            d.connection is None,
            d.ipv4@ == ipv4@,
            d.port == port,
            d.name@ == Seq::<char>::empty(),
            d.network == NetworkType::Wireless,
            d.mac_wol is None,
            d.mac_wlan is None,
            d.mac_eth is None,
            d.power_state == PowerState::Unknown,
    {
        Device {
            connection: None,
            ipv4: String::from_str(ipv4),
            port,
            name: String::new(),
            network: NetworkType::Wireless,
            mac_wol: None,
            mac_wlan: None,
            mac_eth: None,
            power_state: PowerState::Unknown,
        }
    }

    /// Whether the connection has been opened.
    pub fn is_connected(&self) -> (r: bool)
        ensures
            r == (self.connection is Some),
    {
        match &self.connection {
            None => false,
            Some(_) => true,
        }
    }

    /// Open a session to the device and authenticate, adopting the
    /// session only if authentication succeeded; an already-adopted
    /// session is kept when a new attempt fails. Returns whether the
    /// device is now connected. The stored address must have at least
    /// four dot-separated parts; non-numeric parts degrade to zero.
    pub fn connect(&mut self, key: Vec<u8>) -> (r: bool)
        requires
            spec_split(old(self).ipv4@, '.').len() >= 4,
        ensures
            r == (final(self).connection is Some),
            same_device_data(*final(self), *old(self)),
            exists|s: S|
                {
                    &&& #[trigger] s.opened_with() == (spec_octets(old(self).ipv4@), key@)
                    &&& s.sent() == Seq::<Request>::empty()
                    &&& s.replies() == Seq::<Option<Response>>::empty()
                    &&& s.seqs() == Seq::<i32>::empty()
                    &&& (s.spec_authenticated() ==> final(self).connection == Some(s))
                    &&& (!s.spec_authenticated() ==> final(self).connection == old(
                        self,
                    ).connection)
                },
    {
        let v = str_to_chars(self.ipv4.as_str());
        let octets = split_chars(&v, '.');
        let o0 = octet_val(&octets, 0);
        let o1 = octet_val(&octets, 1);
        let o2 = octet_val(&octets, 2);
        let o3 = octet_val(&octets, 3);
        let quad: [u8; 4] = [o0, o1, o2, o3];
        proof {
            assert(quad@ =~= spec_octets(self.ipv4@));
        }
        let session = S::open(quad, key);
        let ghost opened = session;
        if session.is_authenticated() {
            self.connection = Some(session);
        }
        proof {
            assert(opened.opened_with() == (spec_octets(old(self).ipv4@), key@));
        }
        self.is_connected()
    }

    /// Stamp the next sequence number on the request, forward it, and
    /// hand back the response, if any. This is the single funnel every
    /// operation sends through; without a session nothing is sent and
    /// no sequence number is consumed.
    pub fn send_request(&mut self, request: Request) -> (r: Option<Response>)
        ensures
            old(self).connection is None ==> r is None && *final(self) == *old(self),
            old(self).connection is Some ==> {
                let s0 = old(self).connection.unwrap();
                let s1 = final(self).connection.unwrap();
                let n = s1.seqs().last();
                &&& final(self).connection is Some
                &&& s1.seqs() == s0.seqs().push(n)
                &&& s1.sent() == s0.sent().push((Request { kind: request.kind, request_id: n }))
                &&& s1.replies() == s0.replies().push(r)
                &&& s1.spec_authenticated() == s0.spec_authenticated()
                &&& s1.opened_with() == s0.opened_with()
                &&& same_device_data(*final(self), *old(self))
            },
    {
        let ghost req_kind = request.kind;
        let request_id = self.next_sync_number();
        match self.connection.as_mut() {
            Some(connection) => {
                let message = request.set_request_id(request_id);
                proof {
                    assert(message == (Request { kind: req_kind, request_id: request_id }));
                }
                connection.send_request(message)
            },
            None => None,
        }
    }

    /// Issue a device-information query and decode the response body
    /// into a field mapping.
    pub fn get_info(&mut self) -> (r: Result<FieldMap, DeviceError>)
        ensures
            old(self).connection is None ==> r == Err::<FieldMap, DeviceError>(
                DeviceError::NotConnected,
            ) && *final(self) == *old(self),
            old(self).connection is Some ==> {
                let s0 = old(self).connection.unwrap();
                let s1 = final(self).connection.unwrap();
                &&& final(self).connection is Some
                &&& s1.sent() == s0.sent().push(
                    (Request { kind: RequestKind::DeviceInfo, request_id: s1.seqs().last() }),
                )
                &&& s1.seqs() == s0.seqs().push(s1.seqs().last())
                &&& s1.spec_authenticated() == s0.spec_authenticated()
                &&& s1.replies().len() == s0.replies().len() + 1
                &&& same_device_data(*final(self), *old(self))
                &&& (match r {
                    Ok(m) => spec_info_outcome(s1.replies().last()) == Ok::<
                        Map<Seq<char>, Seq<char>>,
                        DeviceError,
                    >(m@),
                    Err(e) => spec_info_outcome(s1.replies().last()) == Err::<
                        Map<Seq<char>, Seq<char>>,
                        DeviceError,
                    >(e),
                })
            },
    {
        if !self.is_connected() {
            return Err(DeviceError::NotConnected);
        }
        match self.send_request(Request::new(RequestKind::DeviceInfo)) {
            None => Err(DeviceError::EmptyResponse),
            Some(message) => match message.content_data {
                Some(ContentData::Text { string }) => match decode_info(string.as_str()) {
                    Ok(m) => Ok(m),
                    Err(e) => Err(DeviceError::Malformed(e)),
                },
                _ => Err(DeviceError::NoContent),
            },
        }
    }

    /// Issue an installed-applications query and decode the response
    /// body into application records.
    pub fn get_installed_apps(&mut self) -> (r: Result<Vec<App>, DeviceError>)
        ensures
            old(self).connection is None ==> r == Err::<Vec<App>, DeviceError>(
                DeviceError::NotConnected,
            ) && *final(self) == *old(self),
            old(self).connection is Some ==> {
                let s0 = old(self).connection.unwrap();
                let s1 = final(self).connection.unwrap();
                &&& final(self).connection is Some
                &&& s1.sent() == s0.sent().push(
                    (Request { kind: RequestKind::InstalledApps, request_id: s1.seqs().last() }),
                )
                &&& s1.seqs() == s0.seqs().push(s1.seqs().last())
                &&& s1.spec_authenticated() == s0.spec_authenticated()
                &&& s1.replies().len() == s0.replies().len() + 1
                &&& same_device_data(*final(self), *old(self))
                &&& (match r {
                    Ok(v) => spec_apps_outcome(s1.replies().last()) == Ok::<
                        Seq<GApp>,
                        DeviceError,
                    >(gapps_view(v@)),
                    Err(e) => spec_apps_outcome(s1.replies().last()) == Err::<
                        Seq<GApp>,
                        DeviceError,
                    >(e),
                })
            },
    {
        if !self.is_connected() {
            return Err(DeviceError::NotConnected);
        }
        match self.send_request(Request::new(RequestKind::InstalledApps)) {
            None => Err(DeviceError::EmptyResponse),
            Some(message) => match message.content_data {
                Some(ContentData::Text { string }) => match decode_apps(string.as_str()) {
                    Ok(v) => Ok(v),
                    Err(e) => Err(DeviceError::Malformed(e)),
                },
                _ => Err(DeviceError::NoContent),
            },
        }
    }

    /// Launch an app by its identifier: fire and forget, no response
    /// validation.
    pub fn launch_app_by_id(&mut self, app_id: i32)
        ensures
            old(self).connection is None ==> *final(self) == *old(self),
            old(self).connection is Some ==> {
                let s0 = old(self).connection.unwrap();
                let s1 = final(self).connection.unwrap();
                &&& final(self).connection is Some
                &&& s1.sent() == s0.sent().push(
                    (Request {
                        kind: RequestKind::LaunchApp { channel_id: app_id },
                        request_id: s1.seqs().last(),
                    }),
                )
                &&& s1.seqs() == s0.seqs().push(s1.seqs().last())
                &&& s1.spec_authenticated() == s0.spec_authenticated()
                &&& same_device_data(*final(self), *old(self))
            },
    {
        let _ = self.send_request(Request::new(RequestKind::LaunchApp { channel_id: app_id }));
    }

    /// Refresh this object from a device-information query: on success
    /// the name, network type and wireless address are rewritten, and
    /// the wired address where the device says it supports one. Any
    /// failure, a missing mandatory field included, is a recoverable
    /// error and leaves the fields as they were.
    pub fn update_self(&mut self) -> (r: Result<(), DeviceError>)
        ensures
            old(self).connection is None ==> r == Err::<(), DeviceError>(DeviceError::NotConnected)
                && *final(self) == *old(self),
            old(self).connection is Some ==> {
                let s0 = old(self).connection.unwrap();
                let s1 = final(self).connection.unwrap();
                &&& final(self).connection is Some
                &&& s1.sent() == s0.sent().push(
                    (Request { kind: RequestKind::DeviceInfo, request_id: s1.seqs().last() }),
                )
                &&& s1.seqs() == s0.seqs().push(s1.seqs().last())
                &&& s1.spec_authenticated() == s0.spec_authenticated()
                &&& final(self).ipv4 == old(self).ipv4
                &&& final(self).port == old(self).port
                &&& final(self).mac_wol == old(self).mac_wol
                &&& final(self).power_state == old(self).power_state
                &&& (match spec_info_outcome(s1.replies().last()) {
                    Err(e) => r == Err::<(), DeviceError>(e) && same_device_data(
                        *final(self),
                        *old(self),
                    ),
                    Ok(m) => match spec_reconcile(m) {
                        Err(e) => r == Err::<(), DeviceError>(e) && same_device_data(
                            *final(self),
                            *old(self),
                        ),
                        Ok(u) => r is Ok && final(self).name@ == u.name && final(self).network
                            == u.network && (final(self).mac_wlan matches Some(w) && w@
                            == u.mac_wlan) && (match u.mac_eth {
                            None => final(self).mac_eth == old(self).mac_eth,
                            Some(eb) => final(self).mac_eth matches Some(w) && w@ == eb,
                        }),
                    },
                })
            },
    {
        let info = match self.get_info() {
            Ok(m) => m,
            Err(e) => {
                return Err(e);
            },
        };
        match reconcile(&info) {
            Err(e) => Err(e),
            Ok(u) => {
                self.name = u.name;
                self.network = u.network;
                self.mac_wlan = Some(u.mac_wlan);
                match u.mac_eth {
                    Some(e) => {
                        self.mac_eth = Some(e);
                    },
                    None => {},
                }
                Ok(())
            },
        }
    }

    /// Get the next message sync number from the session; without one,
    /// nothing is consumed and zero is returned.
    fn next_sync_number(&mut self) -> (n: i32)
        ensures
            old(self).connection is None ==> *final(self) == *old(self) && n == 0,
            old(self).connection is Some ==> {
                let s0 = old(self).connection.unwrap();
                let s1 = final(self).connection.unwrap();
                &&& final(self).connection is Some
                &&& s1.sent() == s0.sent()
                &&& s1.replies() == s0.replies()
                &&& s1.seqs() == s0.seqs().push(n)
                &&& s1.spec_authenticated() == s0.spec_authenticated()
                &&& s1.opened_with() == s0.opened_with()
                &&& same_device_data(*final(self), *old(self))
            },
    {
        match self.connection.as_mut() {
            Some(connection) => connection.next_sequence_number(),
            None => 0,
        }
    }
}

/// One dotted-quad part as an octet, degrading to zero when it is not a
/// number.
fn octet_val(octets: &Vec<Vec<char>>, k: usize) -> (b: u8)
    requires
        k < chunks_view(octets@).len(),
    ensures
        b == (match spec_parse_u8_dec(chunks_view(octets@)[k as int]) {
            Some(x) => x,
            None => 0u8,
        }),
{
    proof {
        assert(octets@[k as int]@.subrange(0, octets@[k as int]@.len() as int) =~= octets@[
            k as int
        ]@);
        assert(chunks_view(octets@)[k as int] == octets@[k as int]@);
    }
    match parse_u8_dec(&octets[k], 0, octets[k].len()) {
        Some(x) => x,
        None => 0,
    }
}

} // verus!
