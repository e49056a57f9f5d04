//! The request for a key and its address, as a state machine: the
//! application derives the key and shows the prompts that the machine
//! asks for, and the machine decides what follows.

use crate::address::{address_response, response};
use crate::bounded::{response_bytes, Response};
use crate::interface::Status;
use crate::schema::SuiAddressRaw;
use crate::signing::{accepts_path, path_accepted};
use vstd::prelude::*;

verus! {

/// What is shown to the user before an address is handed out.
#[derive(Clone, Copy, Debug, PartialEq, Eq)]
pub enum AddressPrompt {
    /// The announcement that a public key is asked for.
    ProvidePublicKey,
    /// The address.
    Address(SuiAddressRaw),
    /// The last question.
    Confirm,
}

/// What the machine asks the application to do next.
#[derive(Debug, PartialEq, Eq)]
pub enum AddressAction {
    /// Derive the key at the derivation path, and its address.
    DeriveKey,
    /// Show a prompt and report the user's answer.
    Show(AddressPrompt),
    /// Send this response: the request succeeded.
    Reply(Response),
    /// Reject the request with this status.
    Reject(Status),
}

/// The mathematical value of an [`AddressAction`].
pub enum AddressActionView {
    DeriveKey,
    Show(AddressPrompt),
    Reply(Seq<u8>),
    Reject(Status),
}

impl View for AddressAction {
    type V = AddressActionView;

    open spec fn view(&self) -> AddressActionView {
        match *self {
            AddressAction::DeriveKey => AddressActionView::DeriveKey,
            AddressAction::Show(prompt) => AddressActionView::Show(prompt),
            AddressAction::Reply(bytes) => AddressActionView::Reply(response_bytes(bytes)),
            AddressAction::Reject(status) => AddressActionView::Reject(status),
        }
    }
}

/// What came of the action that the machine asked for.
#[derive(Debug, PartialEq, Eq)]
pub enum AddressEvent {
    /// The key and its address.
    Key { key: Vec<u8>, address: SuiAddressRaw },
    /// The key could not be derived.
    KeyFailed,
    /// The user approved the prompt.
    Accepted,
    /// The user refused the prompt.
    Declined,
}

/// What the machine waits for.
#[derive(Clone, Copy, Debug, PartialEq, Eq, Structural)]
pub enum AddressStage {
    /// The key.
    Key,
    /// The answer to [`AddressPrompt::ProvidePublicKey`].
    Announced,
    /// The answer to [`AddressPrompt::Address`].
    Shown,
    /// The answer to [`AddressPrompt::Confirm`].
    Confirm,
    /// Nothing: the request has been answered.
    Finished,
}

/// The request for a key and its address.
pub struct AddressFlow {
    stage: AddressStage,
    prompt: bool,
    key: Vec<u8>,
    address: SuiAddressRaw,
}

/// The end of a request by a rejection.
pub open spec fn refused(status: Status) -> (AddressStage, AddressActionView) {
    (AddressStage::Finished, AddressActionView::Reject(status))
}

/// The end of a request by its response, or by a cancellation where key
/// and address do not fit a response.
pub open spec fn answered(key: Seq<u8>, address: Seq<u8>) -> (AddressStage, AddressActionView) {
    match response(key, address) {
        Some(bytes) => (AddressStage::Finished, AddressActionView::Reply(bytes)),
        None => refused(Status::UserCancelled),
    }
}

/// The first step of a request: the derivation path must be accepted
/// before the key is asked for.
pub open spec fn first_address_step(path: Seq<u8>) -> (AddressStage, AddressActionView) {
    if path_accepted(path) {
        (AddressStage::Key, AddressActionView::DeriveKey)
    } else {
        refused(Status::InvalidParameter)
    }
}

impl AddressFlow {
    /// What the machine waits for.
    pub closed spec fn stage(&self) -> AddressStage {
        self.stage
    }

    /// Whether the user confirms the address.
    pub closed spec fn prompts(&self) -> bool {
        self.prompt
    }

    /// The key, once it has been derived.
    pub closed spec fn key(&self) -> Seq<u8> {
        self.key@
    }

    /// The address, once it has been derived.
    pub closed spec fn address(&self) -> SuiAddressRaw {
        self.address
    }

    /// The step that an event leads to. The key is answered at once, or
    /// after three prompts; a refusal or a failed derivation cancels.
    pub open spec fn next_step(&self, event: AddressEvent) -> (AddressStage, AddressActionView) {
        match (self.stage(), event) {
            (AddressStage::Key, AddressEvent::Key { key, address }) => if self.prompts() {
                (
                    AddressStage::Announced,
                    AddressActionView::Show(AddressPrompt::ProvidePublicKey),
                )
            } else {
                answered(key@, address@)
            },
            (AddressStage::Key, AddressEvent::KeyFailed) => refused(Status::UserCancelled),
            (AddressStage::Announced, AddressEvent::Accepted) => (
                AddressStage::Shown,
                AddressActionView::Show(AddressPrompt::Address(self.address())),
            ),
            (AddressStage::Shown, AddressEvent::Accepted) => (
                AddressStage::Confirm,
                AddressActionView::Show(AddressPrompt::Confirm),
            ),
            (AddressStage::Confirm, AddressEvent::Accepted) => answered(
                self.key(),
                self.address()@,
            ),
            (AddressStage::Announced, AddressEvent::Declined) => refused(Status::UserCancelled),
            (AddressStage::Shown, AddressEvent::Declined) => refused(Status::UserCancelled),
            (AddressStage::Confirm, AddressEvent::Declined) => refused(Status::UserCancelled),
            _ => refused(Status::Unspecified),
        }
    }

    /// Begins a request for the key at `path`, with or without the user's
    /// confirmation.
    pub fn begin(path: &[u8], prompt: bool) -> (r: (AddressFlow, AddressAction))
        ensures
            r.0.prompts() == prompt,
            (r.0.stage(), r.1@) == first_address_step(path@),
    {
        let ok = accepts_path(path);
        let flow = AddressFlow {
            stage: if ok {
                AddressStage::Key
            } else {
                AddressStage::Finished
            },
            prompt,
            key: Vec::new(),
            address: [0u8; 32],
        };
        if ok {
            (flow, AddressAction::DeriveKey)
        } else {
            (flow, AddressAction::Reject(Status::InvalidParameter))
        }
    }

    /// Takes what came of the last action and tells what to do next.
    pub fn advance(&mut self, event: AddressEvent) -> (action: AddressAction)
        ensures
            (final(self).stage(), action@) == old(self).next_step(event),
            final(self).prompts() == old(self).prompts(),
            old(self).stage() == AddressStage::Key && event is Key ==> final(self).key()
                == event->key@ && final(self).address() == event->address,
            !(old(self).stage() == AddressStage::Key && event is Key) ==> final(self).key()
                == old(self).key() && final(self).address() == old(self).address(),
    {
        let (stage, action) = match (self.stage, event) {
            (AddressStage::Key, AddressEvent::Key { key, address }) => {
                self.key = key;
                self.address = address;
                if self.prompt {
                    (AddressStage::Announced, AddressAction::Show(AddressPrompt::ProvidePublicKey))
                } else {
                    self.answer()
                }
            },
            (AddressStage::Key, AddressEvent::KeyFailed) => (
                AddressStage::Finished,
                AddressAction::Reject(Status::UserCancelled),
            ),
            (AddressStage::Announced, AddressEvent::Accepted) => (
                AddressStage::Shown,
                AddressAction::Show(AddressPrompt::Address(self.address)),
            ),
            (AddressStage::Shown, AddressEvent::Accepted) => (
                AddressStage::Confirm,
                AddressAction::Show(AddressPrompt::Confirm),
            ),
            (AddressStage::Confirm, AddressEvent::Accepted) => self.answer(),
            (AddressStage::Announced, AddressEvent::Declined)
            | (AddressStage::Shown, AddressEvent::Declined)
            | (AddressStage::Confirm, AddressEvent::Declined) => (
                AddressStage::Finished,
                AddressAction::Reject(Status::UserCancelled),
            ),
            _ => (AddressStage::Finished, AddressAction::Reject(Status::Unspecified)),
        };
        self.stage = stage;
        action
    }

    fn answer(&self) -> (step: (AddressStage, AddressAction))
        ensures
            (step.0, step.1@) == answered(self.key(), self.address()@),
    {
        match address_response(self.key.as_slice(), vstd::array::array_as_slice(&self.address)) {
            Some(bytes) => (AddressStage::Finished, AddressAction::Reply(bytes)),
            None => (AddressStage::Finished, AddressAction::Reject(Status::UserCancelled)),
        }
    }
}

/// A key is handed out only for a derivation path that begins with the
/// required prefix: for any other path the request is rejected before a
/// key is derived.
pub proof fn lemma_key_needs_prefix(path: Seq<u8>)
    requires
        !path_accepted(path),
    ensures
        first_address_step(path) == refused(Status::InvalidParameter),
{
}

} // verus!
