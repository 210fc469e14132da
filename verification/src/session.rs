//! The session and wake capabilities the device layer is built against.
//!
//! The secure connection itself (handshake, framing, correlation) is an
//! external collaborator: it is consumed through the `SessionPort`
//! capability, and low-level wake signaling through `WakePort`. The
//! capabilities carry a model of what has been sent, so the operations
//! built on them can state exactly which requests a call forwards.

use vstd::prelude::*;

verus! {

/// What a request asks the device to do.
#[derive(Clone, Debug, PartialEq, Eq)]
pub enum RequestKind {
    /// Query the device-information document.
    DeviceInfo,
    /// Query the installed-applications document.
    InstalledApps,
    /// Launch the application with this identifier.
    LaunchApp { channel_id: i32 },
    /// Press the remote key named by this protocol string.
    PressKey { key: String },
    /// Fetch the icon of the application with this identifier.
    QueryAppIcon { channel_id: i32 },
}

/// One framed request: what is asked, and the sequence number stamped on
/// it for response correlation.
#[derive(Clone, Debug)]
pub struct Request {
    pub kind: RequestKind,
    pub request_id: i32,
}

impl Request {
    /// A fresh, unstamped request.
    pub fn new(kind: RequestKind) -> (r: Request)
        ensures
            r.kind == kind,
            r.request_id == 0,
    {
        Request { kind, request_id: 0 }
    }

    /// The same request stamped with a sequence number.
    pub fn set_request_id(self, request_id: i32) -> (r: Request)
        ensures
            r.kind == self.kind,
            r.request_id == request_id,
    {
        Request { kind: self.kind, request_id }
    }
}

/// The payload of a response.
#[derive(Clone, Debug)]
pub enum ContentData {
    /// A structured-text body.
    Text { string: String },
    /// A raw byte body, such as an icon.
    Data { bytes: Vec<u8> },
}

/// One correlated response, possibly carrying a payload.
#[derive(Clone, Debug)]
pub struct Response {
    pub content_data: Option<ContentData>,
}

/// The session capability: an authenticated, sequenced channel to one
/// device. Its model records what the session was opened with, the
/// requests forwarded, the replies that came back, and the sequence
/// numbers handed out; nothing is promised about which reply the far
/// side gives.
pub trait SessionPort: Sized {
    /// Whether the handshake authenticated this session.
    spec fn spec_authenticated(&self) -> bool;

    /// The address octets and the credential this session was opened
    /// with.
    spec fn opened_with(&self) -> (Seq<u8>, Seq<u8>);

    /// The requests forwarded so far, in order.
    spec fn sent(&self) -> Seq<Request>;

    /// The replies received so far, one per forwarded request.
    spec fn replies(&self) -> Seq<Option<Response>>;

    /// The sequence numbers handed out so far, in order.
    spec fn seqs(&self) -> Seq<i32>;

    /// Open a session against four address octets with a credential.
    /// Whether authentication succeeds is the far side's decision.
    fn open(ipv4: [u8; 4], key: Vec<u8>) -> (s: Self)
        ensures
            s.opened_with() == (ipv4@, key@),
            s.sent() == Seq::<Request>::empty(),
            s.replies() == Seq::<Option<Response>>::empty(),
            s.seqs() == Seq::<i32>::empty(),
    ;

    /// Report whether authentication succeeded.
    fn is_authenticated(&self) -> (r: bool)
        ensures
            r == self.spec_authenticated(),
    ;

    /// Allocate the next sequence number: the number returned is the
    /// one recorded.
    fn next_sequence_number(&mut self) -> (n: i32)
        ensures
            final(self).seqs() == old(self).seqs().push(n),
            final(self).sent() == old(self).sent(),
            final(self).replies() == old(self).replies(),
            final(self).spec_authenticated() == old(self).spec_authenticated(),
            final(self).opened_with() == old(self).opened_with(),
    ;

    /// Forward a framed request and await the correlated response, if
    /// any came back.
    fn send_request(&mut self, request: Request) -> (r: Option<Response>)
        ensures
            final(self).sent() == old(self).sent().push(request),
            final(self).replies() == old(self).replies().push(r),
            final(self).seqs() == old(self).seqs(),
            final(self).spec_authenticated() == old(self).spec_authenticated(),
            final(self).opened_with() == old(self).opened_with(),
    ;
}

/// The wake capability: fire one wake signal at a hardware address. Its
/// model records the addresses signaled; delivery is not promised.
pub trait WakePort: Sized {
    /// The hardware addresses signaled so far, in order.
    spec fn woken(&self) -> Seq<Seq<u8>>;

    /// Send one wake packet; the result reports only whether the local
    /// send succeeded.
    fn send_wake(&mut self, mac: &[u8; 6]) -> (r: bool)
        ensures
            final(self).woken() == old(self).woken().push(mac@),
    ;
}

/// A scripted session: replies come from a fixed script, front first,
/// and everything forwarded is kept, so session logic can be exercised
/// without a network.
#[derive(Clone)]
pub struct ScriptedSession {
    authenticated: bool,
    script: Vec<Option<Response>>,
    sent_log: Vec<Request>,
    reply_log: Ghost<Seq<Option<Response>>>,
    counter: i32,
    seq_log: Ghost<Seq<i32>>,
    opened: Ghost<(Seq<u8>, Seq<u8>)>,
}

impl ScriptedSession {
    /// A session that reports the given authentication outcome and
    /// replies from the script.
    pub fn with_script(authenticated: bool, script: Vec<Option<Response>>) -> (s: ScriptedSession)
        ensures
            s.spec_authenticated() == authenticated,
            s.sent() == Seq::<Request>::empty(),
            s.replies() == Seq::<Option<Response>>::empty(),
            s.seqs() == Seq::<i32>::empty(),
    {
        ScriptedSession {
            authenticated,
            script,
            sent_log: Vec::new(),
            reply_log: Ghost(Seq::empty()),
            counter: 0,
            seq_log: Ghost(Seq::empty()),
            opened: Ghost((Seq::empty(), Seq::empty())),
        }
    }

    /// The requests forwarded so far.
    pub fn sent_requests(&self) -> (r: &Vec<Request>)
        ensures
            r@ == self.sent(),
    {
        &self.sent_log
    }
}

impl SessionPort for ScriptedSession {
    closed spec fn spec_authenticated(&self) -> bool {
        self.authenticated
    }

    closed spec fn opened_with(&self) -> (Seq<u8>, Seq<u8>) {
        self.opened@
    }

    closed spec fn sent(&self) -> Seq<Request> {
        self.sent_log@
    }

    closed spec fn replies(&self) -> Seq<Option<Response>> {
        self.reply_log@
    }

    closed spec fn seqs(&self) -> Seq<i32> {
        self.seq_log@
    }

    fn open(ipv4: [u8; 4], key: Vec<u8>) -> (s: ScriptedSession) {
        ScriptedSession {
            authenticated: false,
            script: Vec::new(),
            sent_log: Vec::new(),
            reply_log: Ghost(Seq::empty()),
            counter: 0,
            seq_log: Ghost(Seq::empty()),
            opened: Ghost((ipv4@, key@)),
        }
    }

    fn is_authenticated(&self) -> (r: bool) {
        self.authenticated
    }

    fn next_sequence_number(&mut self) -> (n: i32) {
        if self.counter < i32::MAX {
            self.counter = self.counter + 1;
        }
        let n = self.counter;
        proof {
            self.seq_log@ = self.seq_log@.push(n);
        }
        n
    }

    fn send_request(&mut self, request: Request) -> (r: Option<Response>) {
        self.sent_log.push(request);
        let reply: Option<Response> = if self.script.len() > 0 {
            self.script.remove(0)
        } else {
            None
        };
        proof {
            self.reply_log@ = self.reply_log@.push(reply);
        }
        reply
    }
}

/// A recording wake port: the addresses signaled are kept, so power
/// logic can be exercised without a network.
#[derive(Clone, Debug)]
pub struct RecordingWake {
    log: Vec<Vec<u8>>,
}

impl RecordingWake {
    /// A port that has signaled nothing yet.
    pub fn new() -> (w: RecordingWake)
        ensures
            w.woken() == Seq::<Seq<u8>>::empty(),
    {
        RecordingWake { log: Vec::new() }
    }

    /// How many wake signals were sent.
    pub fn wake_count(&self) -> (n: usize)
        ensures
            n == self.woken().len(),
    {
        self.log.len()
    }

    /// The addresses signaled so far, each as six bytes, for a caller
    /// that performs the actual sends.
    pub fn recorded(&self) -> (r: &Vec<Vec<u8>>)
        ensures
            r@.map_values(|v: Vec<u8>| v@) == self.woken(),
    {
        &self.log
    }
}

impl WakePort for RecordingWake {
    closed spec fn woken(&self) -> Seq<Seq<u8>> {
        self.log@.map_values(|v: Vec<u8>| v@)
    }

    fn send_wake(&mut self, mac: &[u8; 6]) -> (r: bool) {
        let ghost before = self.log@;
        let mut v: Vec<u8> = Vec::new();
        let mut k: usize = 0;
        while k < 6
            invariant
                k <= 6,
                v@ == mac@.subrange(0, k as int),
            decreases 6 - k,
        {
            v.push(mac[k]);
            proof {
                assert(v@ =~= mac@.subrange(0, k + 1 as int));
            }
            k = k + 1;
        }
        proof {
            assert(v@ =~= mac@);
        }
        self.log.push(v);
        proof {
            assert(self.log@.map_values(|x: Vec<u8>| x@) =~= before.map_values(|x: Vec<u8>| x@)
                .push(mac@));
        }
        true
    }
}

} // verus!
