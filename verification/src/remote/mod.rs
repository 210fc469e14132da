//! Remote-control emulation: sending key presses through the session.

pub mod button;

use vstd::prelude::*;
use crate::device::Device;
use crate::device::DeviceError;
use crate::device::same_device_data;
use crate::remote::button::Button;
use crate::remote::button::spec_button_name;
use crate::session::Request;
use crate::session::RequestKind;
use crate::session::SessionPort;

verus! {

/// The request is a key press of this button.
pub open spec fn is_press_of(req: Request, b: Button) -> bool {
    req.kind matches RequestKind::PressKey { key } && key@ == spec_button_name(b)
}

/// Between two session states, exactly `k` presses of the first `k`
/// buttons went out, and the first `answered` of them got a reply.
pub open spec fn spec_press_run<S: SessionPort>(
    s0: S,
    s1: S,
    buttons: Seq<Button>,
    k: int,
    answered: int,
) -> bool {
    &&& 0 <= k <= buttons.len()
    &&& s1.sent().len() == s0.sent().len() + k
    &&& s1.replies().len() == s0.replies().len() + k
    &&& (forall|j: int|
        s0.sent().len() <= j < s0.sent().len() + k ==> is_press_of(
            #[trigger] s1.sent()[j],
            buttons[j - s0.sent().len()],
        ))
    &&& (forall|j: int|
        s0.replies().len() <= j < s0.replies().len() + answered ==> (#[trigger] s1.replies()[j])
            is Some)
}

impl<S: SessionPort> Device<S> {
    /// Press a button on the remote: one key-press command through the
    /// session, successful exactly when a response came back.
    pub fn press_button(&mut self, button: Button) -> (r: Result<(), DeviceError>)
        ensures
            old(self).connection is None ==> r == Err::<(), DeviceError>(
                DeviceError::NotConnected,
            ) && *final(self) == *old(self),
            old(self).connection is Some ==> {
                let s0 = old(self).connection.unwrap();
                let s1 = final(self).connection.unwrap();
                &&& final(self).connection is Some
                &&& (exists|req: Request|
                    s1.sent() == s0.sent().push(req) && req.request_id == s1.seqs().last()
                        && is_press_of(req, button))
                &&& s1.replies() == s0.replies().push(s1.replies().last())
                &&& s1.replies().len() == s0.replies().len() + 1
                &&& s1.seqs() == s0.seqs().push(s1.seqs().last())
                &&& s1.spec_authenticated() == s0.spec_authenticated()
                &&& same_device_data(*final(self), *old(self))
                &&& (r is Ok <==> s1.replies().last() is Some)
                &&& (r is Err ==> r == Err::<(), DeviceError>(DeviceError::EmptyResponse))
            },
    {
        if !self.is_connected() {
            return Err(DeviceError::NotConnected);
        }
        let key = button.to_string();
        let request = Request::new(RequestKind::PressKey { key });
        let ghost req_kind = request.kind;
        let resp = self.send_request(request);
        proof {
            let s0 = old(self).connection.unwrap();
            let s1 = self.connection.unwrap();
            let witness = Request { kind: req_kind, request_id: s1.seqs().last() };
            assert(s1.sent() == s0.sent().push(witness));
            assert(is_press_of(witness, button));
        }
        match resp {
            None => Err(DeviceError::EmptyResponse),
            Some(_) => Ok(()),
        }
    }

    /// Send multiple button presses back-to-back, stopping at the first
    /// press that fails and reporting its failure: every press before
    /// the failing one has been sent and answered, and nothing after
    /// the failing one has been sent.
    pub fn press_buttons(&mut self, buttons: Vec<Button>) -> (r: Result<(), DeviceError>)
        ensures
            (old(self).connection is None && buttons@.len() > 0) ==> r == Err::<(), DeviceError>(
                DeviceError::NotConnected,
            ) && *final(self) == *old(self),
            buttons@.len() == 0 ==> r is Ok && *final(self) == *old(self),
            old(self).connection is Some ==> {
                let s0 = old(self).connection.unwrap();
                let s1 = final(self).connection.unwrap();
                &&& final(self).connection is Some
                &&& same_device_data(*final(self), *old(self))
                &&& s1.spec_authenticated() == s0.spec_authenticated()
                &&& (exists|k: int, a: int|
                    {
                        &&& #[trigger] spec_press_run(s0, s1, buttons@, k, a)
                        &&& a >= k - 1
                        &&& (r is Ok ==> k == buttons@.len() && a == k)
                        &&& (r is Err ==> 1 <= k && a == k - 1 && s1.replies().last() is None && r
                            == Err::<(), DeviceError>(DeviceError::EmptyResponse))
                    })
            },
    {
        let mut i: usize = 0;
        while i < buttons.len()
            invariant
                i <= buttons@.len(),
                i == 0 ==> *self == *old(self),
                0 < i ==> old(self).connection is Some,
                old(self).connection is None ==> *self == *old(self),
                old(self).connection is Some ==> {
                    let s0 = old(self).connection.unwrap();
                    let sc = self.connection.unwrap();
                    &&& self.connection is Some
                    &&& same_device_data(*self, *old(self))
                    &&& sc.spec_authenticated() == s0.spec_authenticated()
                    &&& spec_press_run(s0, sc, buttons@, i as int, i as int)
                },
            decreases buttons@.len() - i,
        {
            match self.press_button(buttons[i]) {
                Err(e) => {
                    proof {
                        if old(self).connection is Some {
                            assert(spec_press_run(
                                old(self).connection.unwrap(),
                                self.connection.unwrap(),
                                buttons@,
                                i + 1,
                                i as int,
                            ));
                        }
                    }
                    return Err(e);
                },
                Ok(_) => {
                    proof {
                        if old(self).connection is Some {
                            assert(spec_press_run(
                                old(self).connection.unwrap(),
                                self.connection.unwrap(),
                                buttons@,
                                i + 1,
                                i + 1,
                            ));
                        }
                    }
                },
            }
            i = i + 1;
        }
        proof {
            if old(self).connection is Some {
                assert(spec_press_run(
                    old(self).connection.unwrap(),
                    self.connection.unwrap(),
                    buttons@,
                    buttons@.len() as int,
                    buttons@.len() as int,
                ));
                assert(spec_press_run(
                    old(self).connection.unwrap(),
                    self.connection.unwrap(),
                    buttons@,
                    buttons@.len() as int,
                    buttons@.len() - 1,
                ));
            }
        }
        Ok(())
    }

    /// Press the button that makes a compatible remote ring out so it
    /// can be found.
    pub fn find_remote(&mut self) -> (r: Result<(), DeviceError>)
        ensures
            old(self).connection is None ==> r == Err::<(), DeviceError>(
                DeviceError::NotConnected,
            ) && *final(self) == *old(self),
            old(self).connection is Some ==> {
                let s0 = old(self).connection.unwrap();
                let s1 = final(self).connection.unwrap();
                &&& final(self).connection is Some
                &&& (exists|req: Request|
                    s1.sent() == s0.sent().push(req) && req.request_id == s1.seqs().last()
                        && is_press_of(req, Button::FindRemote))
                &&& s1.replies() == s0.replies().push(s1.replies().last())
                &&& s1.replies().len() == s0.replies().len() + 1
                &&& s1.seqs() == s0.seqs().push(s1.seqs().last())
                &&& s1.spec_authenticated() == s0.spec_authenticated()
                &&& same_device_data(*final(self), *old(self))
                &&& (r is Ok <==> s1.replies().last() is Some)
                &&& (r is Err ==> r == Err::<(), DeviceError>(DeviceError::EmptyResponse))
            },
    {
        self.press_button(Button::FindRemote)
    }
}

} // verus!
