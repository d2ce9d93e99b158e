//! The input system: the pressed state of the sixteen keys, and the
//! one-shot "wait for the next key press" protocol driven by the processor.
use vstd::prelude::*;

verus! {

/// Number of logical keys on the CHIP-8 keypad.
pub const KEY_COUNT: usize = 16;

/// A response to a key request from the processor: the pressed key's code
/// and the register the processor should store it in.
#[derive(Clone, Copy, PartialEq, Eq, Structural, Debug)]
pub struct KeyRequestResponse {
    pub key_code: u8,
    pub register: usize,
}

/// Keeps track of the pressed state of all 16 keys, as well as any pending
/// key press request from the running program.
pub struct Input {
    state: Vec<bool>,
    waiting: bool,
    request_reg: usize,
    request_response: Option<KeyRequestResponse>,
}

impl Input {
    /// The pressed state of each key, by key code.
    pub closed spec fn spec_keys(&self) -> Seq<bool> {
        self.state@
    }

    /// Whether the machine is frozen waiting for a key press.
    pub closed spec fn spec_waiting(&self) -> bool {
        self.waiting
    }

    /// The register a pending key request targets.
    pub closed spec fn spec_request_reg(&self) -> usize {
        self.request_reg
    }

    /// The not-yet-consumed response to a key request, if any.
    pub closed spec fn spec_response(&self) -> Option<KeyRequestResponse> {
        self.request_response
    }

    /// There are sixteen keys, and any recorded target register is in range.
    pub open spec fn wf(&self) -> bool {
        &&& self.spec_keys().len() == KEY_COUNT
        &&& self.spec_request_reg() < KEY_COUNT
        &&& match self.spec_response() {
            Some(r) => r.register < KEY_COUNT,
            None => true,
        }
    }

    /// Create a new `Input` with no key pressed and no pending request.
    pub fn new() -> (inp: Input)
        ensures
            inp.wf(),
            inp.spec_keys() == Seq::new(KEY_COUNT as nat, |k: int| false),
            !inp.spec_waiting(),
            inp.spec_request_reg() == 0,
            inp.spec_response() is None,
    {
        let mut state: Vec<bool> = Vec::new();
        let mut k: usize = 0;
        while k < KEY_COUNT
            invariant
                k <= KEY_COUNT,
                state@.len() == k,
                forall|j: int| 0 <= j < k ==> !state@[j],
            decreases KEY_COUNT - k,
        {
            state.push(false);
            k += 1;
        }
        let inp = Input { state, waiting: false, request_reg: 0, request_response: None };
        proof {
            assert(inp.spec_keys() =~= Seq::new(KEY_COUNT as nat, |k: int| false));
        }
        inp
    }

    /// Update the pressed state of the given key code. A key going down
    /// while a request is pending answers that request.
    pub fn update(&mut self, key_code: u8, pressed: bool)
        requires
            old(self).wf(),
            key_code < KEY_COUNT,
        ensures
            final(self).wf(),
            final(self).spec_keys() == old(self).spec_keys().update(key_code as int, pressed),
            final(self).spec_request_reg() == old(self).spec_request_reg(),
            if pressed && old(self).spec_waiting() {
                &&& !final(self).spec_waiting()
                &&& final(self).spec_response() == Some(
                    KeyRequestResponse { key_code, register: old(self).spec_request_reg() },
                )
            } else {
                &&& final(self).spec_waiting() == old(self).spec_waiting()
                &&& final(self).spec_response() == old(self).spec_response()
            },
    {
        self.state[key_code as usize] = pressed;
        if pressed && self.waiting {
            self.waiting = false;
            self.request_response = Some(
                KeyRequestResponse { key_code, register: self.request_reg },
            );
        }
    }

    /// Request a single key press from the user, to be stored in `register`.
    /// Overwrites the target of any previous request.
    pub fn request_key_press(&mut self, register: usize)
        requires
            old(self).wf(),
            register < KEY_COUNT,
        ensures
            final(self).wf(),
            final(self).spec_waiting(),
            final(self).spec_request_reg() == register,
            final(self).spec_keys() == old(self).spec_keys(),
            final(self).spec_response() == old(self).spec_response(),
    {
        self.waiting = true;
        self.request_reg = register;
    }

    /// Take the response to a key request. This is `None` if no key press
    /// was requested, or if the response was already consumed.
    pub fn request_response(&mut self) -> (r: Option<KeyRequestResponse>)
        requires
            old(self).wf(),
        ensures
            final(self).wf(),
            r == old(self).spec_response(),
            final(self).spec_response() is None,
            final(self).spec_keys() == old(self).spec_keys(),
            final(self).spec_waiting() == old(self).spec_waiting(),
            final(self).spec_request_reg() == old(self).spec_request_reg(),
    {
        let r = self.request_response;
        self.request_response = None;
        r
    }

    /// The not-yet-consumed response to a key request, if any, without
    /// consuming it.
    pub fn pending_response(&self) -> (r: Option<KeyRequestResponse>)
        ensures
            r == self.spec_response(),
    {
        self.request_response
    }

    /// Whether the system is currently waiting for user input.
    pub fn waiting(&self) -> (w: bool)
        ensures
            w == self.spec_waiting(),
    {
        self.waiting
    }

    /// The register targeted by the most recent key request.
    pub fn request_register(&self) -> (r: usize)
        ensures
            r == self.spec_request_reg(),
    {
        self.request_reg
    }

    /// Whether the given key is currently pressed.
    pub fn is_key_pressed(&self, key_code: u8) -> (p: bool)
        requires
            self.wf(),
            key_code < KEY_COUNT,
        ensures
            p == self.spec_keys()[key_code as int],
    {
        self.state[key_code as usize]
    }
}

} // verus!
