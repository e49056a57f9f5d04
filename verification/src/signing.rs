//! The approval and signing of one transaction, as a state machine. The
//! application performs each action that the machine asks for (a chunk of
//! the payload, a prompt, a key derivation, the hash, the signature) and
//! hands back what came of it; the machine decides what follows.
//!
//! The payload is parsed twice. The first parse checks nothing and only
//! tells whether the transaction is recognised; it is resumed with every
//! chunk. The second parse runs over the whole payload once the first has
//! finished, under the checks of the request, so that nothing of a
//! transaction is shown to the user or held against a swap's parameters
//! before the transaction is known to be well-formed.

use crate::decode::{has_bytes, le_u32_at, le_value};
use crate::interface::{ParseChecks, Status};
use crate::outcome::{answers, Decoded, Outcome};
use crate::path::{bip32_path, has_prefix, parse_bip32_path, path_has_prefix};
use crate::chunking::lemma_signed_payload_stable;
use crate::recognition::lemma_cross_check;
use crate::schema::SuiAddressRaw;
use crate::session::{ParserState, Phase};
use crate::stream::ByteStream;
use crate::swap::params::{CreateTxParams, TxParams, TxParamsView};
use crate::transaction::{payload_parser, signed_payload};
use vstd::prelude::*;
use vstd::slice::slice_subrange;

verus! {

/// What is shown to the user. Every prompt is answered by an approval or a
/// refusal.
#[derive(Clone, Copy, Debug, PartialEq, Eq)]
pub enum Prompt {
    /// The transaction is a transfer.
    Transfer,
    /// The address that signs.
    From(SuiAddressRaw),
    /// The address that receives.
    To(SuiAddressRaw),
    /// The amount that is transferred.
    Amount(u64),
    /// The gas budget.
    MaxGas(u64),
    /// The last question before a recognised transaction is signed.
    SignTransaction,
    /// The transaction is not recognised, and blind signing is switched
    /// off.
    NotRecognizedBlocked,
    /// The transaction is not recognised.
    NotRecognized,
    /// The hash of a transaction that is not recognised.
    TransactionHash([u8; 32]),
    /// The last question before a transaction is signed blindly.
    BlindSignTransaction,
}

/// What the machine asks the application to do next.
#[derive(Clone, Copy, Debug, PartialEq, Eq)]
pub enum Action {
    /// Hand over the next chunk of the payload.
    NeedData,
    /// Show a prompt and report the user's answer.
    Show(Prompt),
    /// Derive the address of the key at the derivation path.
    DeriveAddress,
    /// Hash the bytes of the transaction.
    HashTransaction,
    /// Sign this digest with the key at the derivation path.
    Sign([u8; 32]),
    /// Send the signature: the request succeeded.
    Reply,
    /// Reject the request with this status.
    Reject(Status),
}

/// What came of the action that the machine asked for.
#[derive(Clone, Copy, Debug, PartialEq, Eq)]
pub enum Event {
    /// The user approved the prompt.
    Accepted,
    /// The user refused the prompt.
    Declined,
    /// The address of the key.
    Address(SuiAddressRaw),
    /// The key could not be derived.
    KeyFailed,
    /// The digest of the transaction.
    Digest([u8; 32]),
    /// The digest was signed.
    Signed,
    /// The digest could not be signed.
    SignFailed,
}

/// What the machine waits for.
#[derive(Clone, Copy, Debug, PartialEq, Eq, Structural)]
pub enum Stage {
    /// The next chunk of the payload.
    Receiving,
    /// The answer to [`Prompt::Transfer`].
    Intro,
    /// The address of the key.
    Address,
    /// The answer to [`Prompt::From`].
    Sender,
    /// The answer to [`Prompt::To`].
    Recipient,
    /// The answer to [`Prompt::Amount`].
    Amount,
    /// The answer to [`Prompt::MaxGas`].
    MaxGas,
    /// The answer to [`Prompt::SignTransaction`].
    Confirm,
    /// The answer to [`Prompt::NotRecognizedBlocked`], which changes
    /// nothing.
    Blocked,
    /// The answer to [`Prompt::NotRecognized`].
    Warning,
    /// The digest of the transaction.
    Digest,
    /// The answer to [`Prompt::TransactionHash`].
    HashShown,
    /// The answer to [`Prompt::BlindSignTransaction`].
    BlindConfirm,
    /// The signature.
    Signature,
    /// Nothing: the request has been answered.
    Finished,
}

/// The approval and signing of one transaction.
pub struct SignFlow {
    stage: Stage,
    checks: ParseChecks,
    blind_signing: bool,
    known: bool,
    mismatch: bool,
    path_ok: bool,
    summary: CreateTxParams,
    digest: [u8; 32],
    expected: TxParams,
    parser: ParserState,
}

/// Where a payload ends: it begins with the number of the bytes that
/// follow, in 32 bits with the low byte first.
pub open spec fn declared_end(payload: Seq<u8>) -> Option<int> {
    if has_bytes(payload, 0, 4) {
        Some(4 + le_value(payload, 0, 4) as int)
    } else {
        None
    }
}

/// The bytes of a payload that are hashed and signed: those that follow
/// its first four, once the payload has reached its end.
pub open spec fn declared(payload: Seq<u8>) -> Option<Seq<u8>> {
    match declared_end(payload) {
        Some(end) => if end <= payload.len() {
            Some(payload.subrange(4, end))
        } else {
            None
        },
        None => None,
    }
}

/// What belongs to a payload of the bytes received: bytes behind its end
/// do not.
pub open spec fn scope(received: Seq<u8>) -> Seq<u8> {
    match declared_end(received) {
        Some(end) => if end < received.len() {
            received.take(end)
        } else {
            received
        },
        None => received,
    }
}

/// What the transaction in a payload does, if it is recognised. A
/// transaction that the payload cuts short is not.
pub open spec fn recognized(payload: Seq<u8>) -> Option<TxParamsView> {
    match signed_payload(payload, 0, ParseChecks::NoChecks, TxParams::default_view()) {
        Outcome::Done { value, .. } => Some(value),
        _ => None,
    }
}

/// The derivation path is well-formed and begins with the required
/// prefix.
pub open spec fn path_accepted(path: Seq<u8>) -> bool {
    bip32_path(path, 0) matches Outcome::Done { value, .. } && has_prefix(value)
}

/// The end of a request by a rejection.
pub open spec fn rejected(status: Status) -> (Stage, Action) {
    (Stage::Finished, Action::Reject(status))
}

/// Whether a transaction that is not recognised may still be signed: only
/// for the user, and only with blind signing switched on.
pub open spec fn may_sign_unknown(checks: ParseChecks, blind_signing: bool) -> bool {
    checks == ParseChecks::PromptUser && blind_signing
}

/// The first step after the payload. A recognised transaction is
/// introduced to the user, or, for a swap, goes on to the key. A
/// transaction that is not recognised is never signed for a swap; for the
/// user it is refused unless blind signing is switched on, and announced
/// with a warning if it is.
pub open spec fn first_step(
    checks: ParseChecks,
    blind_signing: bool,
    known: bool,
    path_ok: bool,
) -> (Stage, Action) {
    if checks == ParseChecks::NoChecks {
        rejected(Status::Unspecified)
    } else if known {
        if checks == ParseChecks::PromptUser {
            (Stage::Intro, Action::Show(Prompt::Transfer))
        } else if !path_ok {
            rejected(Status::InvalidParameter)
        } else {
            (Stage::Address, Action::DeriveAddress)
        }
    } else if checks == ParseChecks::CheckSwapTx {
        rejected(Status::NotSupported)
    } else if !blind_signing {
        (Stage::Blocked, Action::Show(Prompt::NotRecognizedBlocked))
    } else {
        (Stage::Warning, Action::Show(Prompt::NotRecognized))
    }
}

/// The step that the arrival of a chunk leads to, given the payload
/// received with it. A payload that is rejected ends the wait at once
/// where nothing could be signed anyway. Otherwise the wait goes on until
/// the payload holds the bytes that it declares; then the first step
/// follows, for a transaction that is recognised if the payload rule has
/// finished, and for one that is not if the rule rejects or the payload
/// cuts it short.
pub open spec fn arrival_step(
    checks: ParseChecks,
    blind_signing: bool,
    path_ok: bool,
    payload: Seq<u8>,
) -> (Stage, Action) {
    let outcome = signed_payload(payload, 0, ParseChecks::NoChecks, TxParams::default_view());
    if outcome is Reject && !may_sign_unknown(checks, blind_signing) {
        first_step(checks, blind_signing, false, path_ok)
    } else if declared(payload) is None {
        (Stage::Receiving, Action::NeedData)
    } else {
        first_step(checks, blind_signing, outcome is Done, path_ok)
    }
}

impl SignFlow {
    #[verifier::type_invariant]
    spec fn stage_fits(self) -> bool {
        self.wf()
    }

    /// What the machine waits for.
    pub closed spec fn stage(&self) -> Stage {
        self.stage
    }

    /// Whether the request is interactive or a swap's.
    pub closed spec fn checks(&self) -> ParseChecks {
        self.checks
    }

    /// Whether blind signing is switched on.
    pub closed spec fn blind_signing(&self) -> bool {
        self.blind_signing
    }

    /// The bytes of the payload that have been received.
    pub closed spec fn payload(&self) -> Seq<u8> {
        self.parser.received()
    }

    /// The parameters that a swap's transaction is held against.
    pub closed spec fn expected(&self) -> TxParamsView {
        self.expected@
    }

    /// The parse of the payload is in progress and checks nothing.
    pub closed spec fn parsing(&self) -> bool {
        self.parser.phase() != Phase::Idle && self.parser.checks() == ParseChecks::NoChecks
            && self.parser.expected() == TxParams::default_view()
    }

    /// Whether the transaction is recognised.
    pub closed spec fn known(&self) -> bool {
        self.known
    }

    /// Whether the transaction differs from what the swap partner expects.
    pub closed spec fn mismatch(&self) -> bool {
        self.mismatch
    }

    /// Whether the derivation path is accepted.
    pub closed spec fn path_ok(&self) -> bool {
        self.path_ok
    }

    /// What the transaction does, where it is recognised.
    pub closed spec fn summary(&self) -> CreateTxParams {
        self.summary
    }

    /// The digest of the transaction, once it has been computed.
    pub closed spec fn digest(&self) -> [u8; 32] {
        self.digest
    }

    /// The stage fits the request: a swap's request never waits for an
    /// answer of the user, what is shown or checked of a transaction is
    /// shown or checked only of a recognised one, and nothing is hashed
    /// before the payload holds the bytes that it declares.
    pub open spec fn wf(&self) -> bool {
        &&& self.checks() != ParseChecks::NoChecks || self.stage() == Stage::Finished
        &&& self.stage() == Stage::Receiving ==> self.parsing() && !self.known() && declared(
            self.payload(),
        ) is None
        &&& self.payload() == scope(self.payload())
        &&& self.checks() == ParseChecks::CheckSwapTx ==> (self.stage() == Stage::Finished
            || self.stage() == Stage::Receiving || (self.known() && (self.stage()
            == Stage::Address || self.stage() == Stage::Digest || self.stage() == Stage::Signature)))
        &&& (self.stage() == Stage::Address || self.stage() == Stage::Sender || self.stage()
            == Stage::Recipient || self.stage() == Stage::Amount || self.stage() == Stage::MaxGas
            || self.stage() == Stage::Confirm || self.stage() == Stage::Intro) ==> self.known()
        &&& (self.stage() == Stage::Blocked || self.stage() == Stage::Warning || self.stage()
            == Stage::HashShown || self.stage() == Stage::BlindConfirm) ==> !self.known()
        &&& (self.stage() != Stage::Receiving && self.stage() != Stage::Finished && self.stage()
            != Stage::Blocked) ==> declared(self.payload()) is Some
        &&& self.known() ==> recognized(self.payload()) == Some(self.summary()@)
        &&& self.mismatch() == (self.checks() == ParseChecks::CheckSwapTx && self.known()
            && self.summary()@ != self.expected())
    }

    /// What follows the introduction: the derivation path must be
    /// accepted before the key is asked for.
    pub open spec fn after_intro(&self) -> (Stage, Action) {
        if !self.path_ok() {
            rejected(Status::InvalidParameter)
        } else {
            (Stage::Address, Action::DeriveAddress)
        }
    }

    /// What follows the sender: the user is shown the recipient; a swap's
    /// transaction is held against the expected parameters, and hashed if
    /// it agrees with them.
    pub open spec fn after_sender(&self) -> (Stage, Action) {
        if self.checks() != ParseChecks::CheckSwapTx {
            (Stage::Recipient, Action::Show(Prompt::To(self.summary().destination_address)))
        } else if self.mismatch() {
            rejected(Status::SwapTxParamMismatch)
        } else {
            (Stage::Digest, Action::HashTransaction)
        }
    }

    /// What follows the last approval: the digest is signed, provided that
    /// the derivation path is accepted.
    pub open spec fn to_signature(&self, digest: [u8; 32]) -> (Stage, Action) {
        if !self.path_ok() {
            rejected(Status::InvalidParameter)
        } else {
            (Stage::Signature, Action::Sign(digest))
        }
    }

    /// The step that an event leads to: the next stage and the action to
    /// perform. A refusal of the user ends the request as cancelled; an
    /// event that the stage does not wait for ends it as failed.
    pub open spec fn next_step(&self, event: Event) -> (Stage, Action) {
        match (self.stage(), event) {
            (Stage::Blocked, _) => rejected(Status::NotSupported),
            (Stage::Finished, _) => rejected(Status::Unspecified),
            (Stage::Address, Event::Address(address)) => if self.checks()
                == ParseChecks::PromptUser {
                (Stage::Sender, Action::Show(Prompt::From(address)))
            } else {
                self.after_sender()
            },
            (Stage::Address, Event::KeyFailed) => rejected(Status::UserCancelled),
            (Stage::Digest, Event::Digest(digest)) => if self.known() {
                self.to_signature(digest)
            } else {
                (Stage::HashShown, Action::Show(Prompt::TransactionHash(digest)))
            },
            (Stage::Signature, Event::Signed) => (Stage::Finished, Action::Reply),
            (Stage::Signature, Event::SignFailed) => rejected(Status::Unspecified),
            (Stage::Intro, Event::Accepted) => self.after_intro(),
            (Stage::Sender, Event::Accepted) => self.after_sender(),
            (Stage::Recipient, Event::Accepted) => (
                Stage::Amount,
                Action::Show(Prompt::Amount(self.summary().amount)),
            ),
            (Stage::Amount, Event::Accepted) => (
                Stage::MaxGas,
                Action::Show(Prompt::MaxGas(self.summary().fee)),
            ),
            (Stage::MaxGas, Event::Accepted) => (
                Stage::Confirm,
                Action::Show(Prompt::SignTransaction),
            ),
            (Stage::Confirm, Event::Accepted) => (Stage::Digest, Action::HashTransaction),
            (Stage::Warning, Event::Accepted) => (Stage::Digest, Action::HashTransaction),
            (Stage::HashShown, Event::Accepted) => (
                Stage::BlindConfirm,
                Action::Show(Prompt::BlindSignTransaction),
            ),
            (Stage::BlindConfirm, Event::Accepted) => self.to_signature(self.digest()),
            (Stage::Intro, Event::Declined) => rejected(Status::UserCancelled),
            (Stage::Sender, Event::Declined) => rejected(Status::UserCancelled),
            (Stage::Recipient, Event::Declined) => rejected(Status::UserCancelled),
            (Stage::Amount, Event::Declined) => rejected(Status::UserCancelled),
            (Stage::MaxGas, Event::Declined) => rejected(Status::UserCancelled),
            (Stage::Confirm, Event::Declined) => rejected(Status::UserCancelled),
            (Stage::Warning, Event::Declined) => rejected(Status::UserCancelled),
            (Stage::HashShown, Event::Declined) => rejected(Status::UserCancelled),
            (Stage::BlindConfirm, Event::Declined) => rejected(Status::UserCancelled),
            _ => rejected(Status::Unspecified),
        }
    }

    /// Begins a signing request with the key at `path`: the machine waits
    /// for the payload. A request that checks nothing is refused.
    pub fn begin(
        checks: ParseChecks,
        blind_signing: bool,
        expected: TxParams,
        path: &[u8],
    ) -> (r: (SignFlow, Action))
        ensures
            r.0.wf(),
            r.0.checks() == checks,
            r.0.blind_signing() == blind_signing,
            r.0.expected() == expected@,
            r.0.payload() == Seq::<u8>::empty(),
            r.0.path_ok() == path_accepted(path@),
            !r.0.known(),
            (r.0.stage(), r.1) == if checks == ParseChecks::NoChecks {
                rejected(Status::Unspecified)
            } else {
                (Stage::Receiving, Action::NeedData)
            },
    {
        let path_ok = accepts_path(path);
        let mut parser = ParserState::new();
        parser.begin(ParseChecks::NoChecks, TxParams::default());
        let receiving = !matches!(checks, ParseChecks::NoChecks);
        let flow = SignFlow {
            stage: if receiving {
                Stage::Receiving
            } else {
                Stage::Finished
            },
            checks,
            blind_signing,
            known: false,
            mismatch: false,
            path_ok,
            summary: TxParams::default(),
            digest: [0u8; 32],
            expected,
            parser,
        };
        if receiving {
            (flow, Action::NeedData)
        } else {
            (flow, Action::Reject(Status::Unspecified))
        }
    }

    /// Takes the next chunk of the payload. The parse of the payload is
    /// resumed with it, and what follows depends on all bytes received so
    /// far, not on where the chunks were cut. Bytes behind the end of the
    /// payload are dropped. A chunk that arrives when none is waited for
    /// ends the request as failed.
    pub fn receive(&mut self, chunk: &[u8]) -> (action: Action)
        ensures
            final(self).wf(),
            final(self).checks() == old(self).checks(),
            final(self).blind_signing() == old(self).blind_signing(),
            final(self).expected() == old(self).expected(),
            final(self).path_ok() == old(self).path_ok(),
            final(self).digest() == old(self).digest(),
            old(self).stage() != Stage::Receiving ==> {
                &&& (final(self).stage(), action) == rejected(Status::Unspecified)
                &&& final(self).payload() == old(self).payload()
            },
            old(self).stage() == Stage::Receiving ==> {
                &&& final(self).payload() == scope(old(self).payload() + chunk@)
                &&& (final(self).stage(), action) == arrival_step(
                    final(self).checks(),
                    final(self).blind_signing(),
                    final(self).path_ok(),
                    final(self).payload(),
                )
                &&& final(self).known() == (final(self).stage() != Stage::Receiving
                    && recognized(final(self).payload()) is Some)
            },
    {
        let mut taken = SignFlow::finished();
        core::mem::swap(self, &mut taken);
        proof {
            use_type_invariant(&taken);
        }
        let SignFlow {
            stage,
            checks,
            blind_signing,
            known,
            mismatch,
            path_ok,
            summary,
            digest,
            expected,
            mut parser,
        } = taken;
        match stage {
            Stage::Receiving => {},
            _ => {
                *self = SignFlow {
                    stage: Stage::Finished,
                    checks,
                    blind_signing,
                    known,
                    mismatch,
                    path_ok,
                    summary,
                    digest,
                    expected,
                    parser,
                };
                return Action::Reject(Status::Unspecified);
            },
        }
        let outcome = feed_scoped(&mut parser, chunk);
        proof {
            lemma_scope_is_idempotent(taken.parser.received() + chunk@);
        }
        let complete = declared_bytes(parser.received_bytes()).is_some();
        let may_blind = matches!(checks, ParseChecks::PromptUser) && blind_signing;
        let found = match outcome {
            Decoded::Done(params) => {
                if complete {
                    Some(Some(params))
                } else {
                    None
                }
            },
            Decoded::Suspend => {
                if complete {
                    Some(None)
                } else {
                    None
                }
            },
            Decoded::Reject(_) => {
                if complete || !may_blind {
                    Some(None)
                } else {
                    None
                }
            },
        };
        let recognition = match found {
            Some(recognition) => recognition,
            None => {
                *self = SignFlow {
                    stage: Stage::Receiving,
                    checks,
                    blind_signing,
                    known,
                    mismatch,
                    path_ok,
                    summary,
                    digest,
                    expected,
                    parser,
                };
                return Action::NeedData;
            },
        };
        let (now_known, first_summary) = match recognition {
            Some(params) => (true, params),
            None => (false, summary),
        };
        // A recognised transaction is parsed once more, under the checks of
        // the request: what is shown or compared comes from this pass.
        let mut now_summary = first_summary;
        let mut now_mismatch = false;
        if now_known {
            proof {
                lemma_cross_check(parser.received(), 4, expected@, TxParams::default_view());
            }
            let mut second_pass = ByteStream::from_bytes(parser.received_bytes());
            match payload_parser(&mut second_pass, checks, &expected) {
                Decoded::Done(params) => {
                    now_summary = params;
                },
                _ => {
                    now_mismatch = true;
                },
            }
        }
        let (next, action) = match checks {
            ParseChecks::NoChecks => (Stage::Finished, Action::Reject(Status::Unspecified)),
            ParseChecks::PromptUser => {
                if now_known {
                    (Stage::Intro, Action::Show(Prompt::Transfer))
                } else if !blind_signing {
                    (Stage::Blocked, Action::Show(Prompt::NotRecognizedBlocked))
                } else {
                    (Stage::Warning, Action::Show(Prompt::NotRecognized))
                }
            },
            ParseChecks::CheckSwapTx => {
                if !now_known {
                    (Stage::Finished, Action::Reject(Status::NotSupported))
                } else if !path_ok {
                    (Stage::Finished, Action::Reject(Status::InvalidParameter))
                } else {
                    (Stage::Address, Action::DeriveAddress)
                }
            },
        };
        *self = SignFlow {
            stage: next,
            checks,
            blind_signing,
            known: now_known,
            mismatch: now_mismatch,
            path_ok,
            summary: now_summary,
            digest,
            expected,
            parser,
        };
        action
    }

    /// Ends the wait for the payload when the host has no more bytes to
    /// give: a payload that is still waited for is cut short, and the
    /// request is invalid. At any other time there is nothing to end, and
    /// the request ends as failed.
    pub fn end_of_input(&mut self) -> (action: Action)
        ensures
            final(self).wf(),
            (final(self).stage(), action) == rejected(
                if old(self).stage() == Stage::Receiving {
                    Status::InvalidParameter
                } else {
                    Status::Unspecified
                },
            ),
            final(self).checks() == old(self).checks(),
            final(self).payload() == old(self).payload(),
    {
        proof {
            use_type_invariant(&*self);
        }
        let status = match self.stage {
            Stage::Receiving => Status::InvalidParameter,
            _ => Status::Unspecified,
        };
        self.stage = Stage::Finished;
        Action::Reject(status)
    }

    /// Ends the request at the user's direction, at whatever stage it
    /// stands: nothing more is shown, hashed or signed.
    pub fn cancel(&mut self)
        ensures
            final(self).wf(),
            final(self).stage() == Stage::Finished,
            final(self).checks() == old(self).checks(),
            final(self).payload() == old(self).payload(),
    {
        proof {
            use_type_invariant(&*self);
        }
        self.stage = Stage::Finished;
    }

    /// The bytes of the payload that are hashed and signed, once the
    /// payload holds them all.
    pub fn signed_bytes(&self) -> (bytes: Option<&[u8]>)
        ensures
            match declared(self.payload()) {
                Some(tx) => bytes matches Some(found) && found@ == tx,
                None => bytes is None,
            },
    {
        declared_bytes(self.parser.received_bytes())
    }

    fn finished() -> (flow: SignFlow)
        ensures
            flow.wf(),
    {
        SignFlow {
            stage: Stage::Finished,
            checks: ParseChecks::NoChecks,
            blind_signing: false,
            known: false,
            mismatch: false,
            path_ok: false,
            summary: TxParams::default(),
            digest: [0u8; 32],
            expected: TxParams::default(),
            parser: ParserState::new(),
        }
    }

    /// Takes what came of the last action and tells what to do next.
    pub fn advance(&mut self, event: Event) -> (action: Action)
        ensures
            final(self).wf(),
            (final(self).stage(), action) == old(self).next_step(event),
            final(self).checks() == old(self).checks(),
            final(self).known() == old(self).known(),
            final(self).mismatch() == old(self).mismatch(),
            final(self).path_ok() == old(self).path_ok(),
            final(self).summary() == old(self).summary(),
            final(self).payload() == old(self).payload(),
            final(self).blind_signing() == old(self).blind_signing(),
            final(self).expected() == old(self).expected(),
            final(self).digest() == if old(self).stage() == Stage::Digest && event is Digest {
                event->Digest_0
            } else {
                old(self).digest()
            },
    {
        proof {
            use_type_invariant(&*self);
        }
        let (stage, action) = match (self.stage, event) {
            (Stage::Blocked, _) => (Stage::Finished, Action::Reject(Status::NotSupported)),
            (Stage::Finished, _) => (Stage::Finished, Action::Reject(Status::Unspecified)),
            (Stage::Address, Event::Address(address)) => {
                match self.checks {
                    ParseChecks::PromptUser => (Stage::Sender, Action::Show(Prompt::From(address))),
                    _ => self.step_after_sender(),
                }
            },
            (Stage::Address, Event::KeyFailed) => (
                Stage::Finished,
                Action::Reject(Status::UserCancelled),
            ),
            (Stage::Digest, Event::Digest(digest)) => {
                self.digest = digest;
                if self.known {
                    self.step_to_signature(digest)
                } else {
                    (Stage::HashShown, Action::Show(Prompt::TransactionHash(digest)))
                }
            },
            (Stage::Signature, Event::Signed) => (Stage::Finished, Action::Reply),
            (Stage::Signature, Event::SignFailed) => (
                Stage::Finished,
                Action::Reject(Status::Unspecified),
            ),
            (Stage::Intro, Event::Accepted) => {
                if !self.path_ok {
                    (Stage::Finished, Action::Reject(Status::InvalidParameter))
                } else {
                    (Stage::Address, Action::DeriveAddress)
                }
            },
            (Stage::Sender, Event::Accepted) => self.step_after_sender(),
            (Stage::Recipient, Event::Accepted) => (
                Stage::Amount,
                Action::Show(Prompt::Amount(self.summary.amount)),
            ),
            (Stage::Amount, Event::Accepted) => (
                Stage::MaxGas,
                Action::Show(Prompt::MaxGas(self.summary.fee)),
            ),
            (Stage::MaxGas, Event::Accepted) => (
                Stage::Confirm,
                Action::Show(Prompt::SignTransaction),
            ),
            (Stage::Confirm, Event::Accepted) => (Stage::Digest, Action::HashTransaction),
            (Stage::Warning, Event::Accepted) => (Stage::Digest, Action::HashTransaction),
            (Stage::HashShown, Event::Accepted) => (
                Stage::BlindConfirm,
                Action::Show(Prompt::BlindSignTransaction),
            ),
            (Stage::BlindConfirm, Event::Accepted) => self.step_to_signature(self.digest),
            (Stage::Intro, Event::Declined)
            | (Stage::Sender, Event::Declined)
            | (Stage::Recipient, Event::Declined)
            | (Stage::Amount, Event::Declined)
            | (Stage::MaxGas, Event::Declined)
            | (Stage::Confirm, Event::Declined)
            | (Stage::Warning, Event::Declined)
            | (Stage::HashShown, Event::Declined)
            | (Stage::BlindConfirm, Event::Declined) => (
                Stage::Finished,
                Action::Reject(Status::UserCancelled),
            ),
            _ => (Stage::Finished, Action::Reject(Status::Unspecified)),
        };
        self.stage = stage;
        action
    }

    fn step_after_sender(&self) -> (step: (Stage, Action))
        ensures
            step == self.after_sender(),
    {
        match self.checks {
            ParseChecks::CheckSwapTx => {
                if self.mismatch {
                    (Stage::Finished, Action::Reject(Status::SwapTxParamMismatch))
                } else {
                    (Stage::Digest, Action::HashTransaction)
                }
            },
            _ => (Stage::Recipient, Action::Show(Prompt::To(self.summary.destination_address))),
        }
    }

    fn step_to_signature(&self, digest: [u8; 32]) -> (step: (Stage, Action))
        ensures
            step == self.to_signature(digest),
    {
        if !self.path_ok {
            (Stage::Finished, Action::Reject(Status::InvalidParameter))
        } else {
            (Stage::Signature, Action::Sign(digest))
        }
    }

    /// Whether the request has been answered.
    pub fn is_finished(&self) -> (finished: bool)
        ensures
            finished == (self.stage() == Stage::Finished),
    {
        matches!(self.stage, Stage::Finished)
    }
}

/// Resumes the parse of a payload whose first four bytes are there with
/// what of a chunk belongs to the payload.
fn feed_body(parser: &mut ParserState, rest: &[u8]) -> (outcome: Decoded<CreateTxParams>)
    requires
        old(parser).phase() != Phase::Idle,
        declared_end(old(parser).received()) matches Some(end) && old(parser).received().len()
            <= end,
    ensures
        final(parser).received() == scope(old(parser).received() + rest@),
        final(parser).checks() == old(parser).checks(),
        final(parser).expected() == old(parser).expected(),
        final(parser).phase() != Phase::Idle,
        answers(final(parser).outcome(), outcome),
{
    let ghost middle = parser.received();
    let bytes = parser.received_bytes();
    proof {
        lemma_prefix_keeps_length(middle, rest@);
    }
    let length = le_u32_at(bytes, 0) as u64;
    let held = (bytes.len() - 4) as u64;
    let n = if length - held < rest.len() as u64 {
        (length - held) as usize
    } else {
        rest.len()
    };
    let piece = slice_subrange(rest, 0, n);
    assert(middle + piece@ =~= (middle + rest@).take(middle.len() + n));
    assert(n < rest@.len() ==> middle.len() + n == 4 + le_value(middle, 0, 4));
    assert(n == rest@.len() ==> middle + piece@ =~= middle + rest@);
    parser.resume(piece)
}

/// Resumes the parse of a payload with what of a chunk belongs to the
/// payload.
fn feed_scoped(parser: &mut ParserState, chunk: &[u8]) -> (outcome: Decoded<CreateTxParams>)
    requires
        old(parser).phase() != Phase::Idle,
        declared(old(parser).received()) is None,
    ensures
        final(parser).received() == scope(old(parser).received() + chunk@),
        final(parser).checks() == old(parser).checks(),
        final(parser).expected() == old(parser).expected(),
        final(parser).phase() != Phase::Idle,
        answers(final(parser).outcome(), outcome),
{
    let ghost before = parser.received();
    let have = parser.received_bytes().len();
    if have >= 4 {
        return feed_body(parser, chunk);
    }
    let n = if chunk.len() < 4 - have {
        chunk.len()
    } else {
        4 - have
    };
    let head = slice_subrange(chunk, 0, n);
    let rest = slice_subrange(chunk, n, chunk.len());
    assert((before + head@) + rest@ =~= before + chunk@);
    let first = parser.resume(head);
    if have + n < 4 {
        assert(rest@.len() == 0);
        assert(before + head@ =~= before + chunk@);
        first
    } else {
        feed_body(parser, rest)
    }
}

/// The first four bytes of a payload stand for the same number whatever
/// follows them.
pub proof fn lemma_prefix_keeps_length(payload: Seq<u8>, more: Seq<u8>)
    requires
        payload.len() >= 4,
    ensures
        le_value(payload + more, 0, 4) == le_value(payload, 0, 4),
{
    reveal_with_fuel(le_value, 5);
}

/// What belongs to a payload is all of a payload.
pub proof fn lemma_scope_is_idempotent(received: Seq<u8>)
    ensures
        scope(scope(received)) == scope(received),
{
    if let Some(end) = declared_end(received) {
        if end < received.len() {
            assert(received.take(end) + received.skip(end) =~= received);
            lemma_prefix_keeps_length(received.take(end), received.skip(end));
        }
    }
}

/// What belongs to a payload is a beginning of the bytes received.
pub proof fn lemma_scope_is_prefix(received: Seq<u8>)
    ensures
        scope(received).len() <= received.len(),
        scope(received) == received.take(scope(received).len() as int),
{
    assert(received.take(received.len() as int) =~= received);
}

/// Bytes that are dropped once are dropped for good: what belongs to the
/// payload of the bytes received so far, with more bytes behind it, is
/// what belongs to the payload of all of them.
pub proof fn lemma_scope_of_scope(received: Seq<u8>, more: Seq<u8>)
    ensures
        scope(scope(received) + more) == scope(received + more),
{
    if let Some(end) = declared_end(received) {
        lemma_prefix_keeps_length(received, more);
        if end < received.len() {
            let kept = received.take(end);
            assert(kept + received.skip(end) =~= received);
            lemma_prefix_keeps_length(kept, received.skip(end));
            lemma_prefix_keeps_length(kept, more);
            assert((kept + more).take(end) =~= kept);
            assert((received + more).take(end) =~= kept);
        }
    }
}

/// A payload that has reached its end takes no more bytes in.
pub proof fn lemma_complete_scope_stays(received: Seq<u8>, more: Seq<u8>)
    requires
        declared(scope(received)) is Some,
    ensures
        scope(received + more) == scope(received),
{
    lemma_scope_of_scope(received, more);
    let kept = scope(received);
    lemma_scope_is_idempotent(received);
    let end = declared_end(kept).unwrap();
    lemma_prefix_keeps_length(kept, more);
    assert(kept.len() == end) by {
        if let Some(whole) = declared_end(received) {
            if whole < received.len() {
                assert(kept + received.skip(whole) =~= received);
                lemma_prefix_keeps_length(kept, received.skip(whole));
            }
        }
    }
    assert((kept + more).take(end) =~= kept);
    assert(more.len() == 0 ==> kept + more =~= kept);
}

/// A payload that has not reached its end has dropped nothing, and is the
/// beginning of what it becomes when more bytes arrive.
pub proof fn lemma_incomplete_scope_grows(received: Seq<u8>, more: Seq<u8>)
    requires
        declared(scope(received)) is None,
    ensures
        scope(received) == received,
        scope(received + more) == received + more.take(
            scope(received + more).len() - received.len(),
        ),
        received.len() <= scope(received + more).len() <= received.len() + more.len(),
{
    if let Some(end) = declared_end(received) {
        if end < received.len() {
            let kept = received.take(end);
            assert(kept + received.skip(end) =~= received);
            lemma_prefix_keeps_length(kept, received.skip(end));
        }
        lemma_prefix_keeps_length(received, more);
    }
    let all = received + more;
    lemma_scope_is_prefix(all);
    let kept = scope(all);
    assert(kept.len() >= received.len()) by {
        if let Some(end) = declared_end(all) {
            if received.len() >= 4 {
                lemma_prefix_keeps_length(received, more);
            }
        }
    }
    assert(all.take(kept.len() as int) =~= received + more.take(kept.len() - received.len()));
}

/// A step that the bytes received so far have settled is the step that
/// any further bytes lead to as well.
pub proof fn lemma_settled_step_stays(
    checks: ParseChecks,
    blind_signing: bool,
    path_ok: bool,
    received: Seq<u8>,
    more: Seq<u8>,
)
    requires
        arrival_step(checks, blind_signing, path_ok, scope(received)).0 != Stage::Receiving,
    ensures
        arrival_step(checks, blind_signing, path_ok, scope(received + more)) == arrival_step(
            checks,
            blind_signing,
            path_ok,
            scope(received),
        ),
{
    if declared(scope(received)) is Some {
        lemma_complete_scope_stays(received, more);
    } else {
        lemma_incomplete_scope_grows(received, more);
        let grown = scope(received + more);
        lemma_signed_payload_stable(
            received,
            more.take(grown.len() - received.len()),
            0,
            ParseChecks::NoChecks,
            TxParams::default_view(),
        );
    }
}

/// What follows the payload does not depend on where its bytes were cut
/// into chunks. The payload that two chunks leave, one after the other,
/// is the payload that both leave at once; and a step that the first
/// chunk settled is the step that both would have led to.
pub proof fn lemma_arrival_is_chunking_blind(
    checks: ParseChecks,
    blind_signing: bool,
    path_ok: bool,
    payload: Seq<u8>,
    first: Seq<u8>,
    second: Seq<u8>,
)
    ensures
        scope(scope(payload + first) + second) == scope(payload + (first + second)),
        arrival_step(checks, blind_signing, path_ok, scope(payload + first)).0 != Stage::Receiving
            ==> arrival_step(checks, blind_signing, path_ok, scope(payload + (first + second)))
            == arrival_step(checks, blind_signing, path_ok, scope(payload + first)),
{
    assert((payload + first) + second =~= payload + (first + second));
    lemma_scope_of_scope(payload + first, second);
    if arrival_step(checks, blind_signing, path_ok, scope(payload + first)).0
        != Stage::Receiving {
        lemma_settled_step_stays(checks, blind_signing, path_ok, payload + first, second);
    }
}

/// The bytes of a payload that are hashed and signed, once the payload has
/// reached its end.
pub fn declared_bytes(payload: &[u8]) -> (tx: Option<&[u8]>)
    ensures
        match declared(payload@) {
            Some(bytes) => tx matches Some(found) && found@ == bytes,
            None => tx is None,
        },
{
    if payload.len() < 4 {
        return None;
    }
    let length = le_u32_at(payload, 0);
    if length as u64 > (payload.len() - 4) as u64 {
        return None;
    }
    Some(slice_subrange(payload, 4, 4 + length as usize))
}

/// Whether the bytes of a derivation path are well-formed and begin with
/// the required prefix.
pub fn accepts_path(path: &[u8]) -> (ok: bool)
    ensures
        ok == path_accepted(path@),
{
    let mut stream = ByteStream::from_bytes(path);
    match parse_bip32_path(&mut stream) {
        Decoded::Done(segments) => path_has_prefix(segments.as_slice()),
        _ => false,
    }
}

/// A swap's request never shows a prompt: neither its first step nor any
/// later one asks for the user.
pub proof fn lemma_swap_never_prompts(
    flow: SignFlow,
    event: Event,
    blind_signing: bool,
    known: bool,
    path_ok: bool,
    payload: Seq<u8>,
)
    requires
        flow.wf(),
        flow.checks() == ParseChecks::CheckSwapTx,
    ensures
        !(first_step(ParseChecks::CheckSwapTx, blind_signing, known, path_ok).1 is Show),
        !(arrival_step(ParseChecks::CheckSwapTx, blind_signing, path_ok, payload).1 is Show),
        !(flow.next_step(event).1 is Show),
{
}

/// No digest is signed for a derivation path that lacks the required
/// prefix, whatever else the request holds and whatever the user answers.
pub proof fn lemma_signature_needs_prefix(
    flow: SignFlow,
    event: Event,
    checks: ParseChecks,
    blind_signing: bool,
    known: bool,
    payload: Seq<u8>,
)
    requires
        !flow.path_ok(),
    ensures
        !(flow.next_step(event).1 is Sign),
        !(first_step(checks, blind_signing, known, false).1 is Sign),
        !(arrival_step(checks, blind_signing, false, payload).1 is Sign),
        flow.stage() == Stage::Intro && event == Event::Accepted ==> flow.next_step(event)
            == rejected(Status::InvalidParameter),
        flow.stage() == Stage::BlindConfirm && event == Event::Accepted ==> flow.next_step(event)
            == rejected(Status::InvalidParameter),
        checks == ParseChecks::CheckSwapTx && known ==> first_step(
            checks,
            blind_signing,
            known,
            false,
        ) == rejected(Status::InvalidParameter),
{
}

/// What is signed is the digest that was just computed: the one that the
/// hash reported, or, after the hash was shown, the one that was kept.
pub proof fn lemma_signs_the_digest(flow: SignFlow, event: Event)
    ensures
        flow.next_step(event).1 matches Action::Sign(digest) ==> {
            ||| flow.stage() == Stage::Digest && event == Event::Digest(digest)
            ||| flow.stage() == Stage::BlindConfirm && digest == flow.digest()
        },
{
}

/// A refusal of the user ends the request as cancelled, at whatever
/// prompt it is given; only the notice that blind signing is switched off
/// ends it as not supported, whatever the answer. The stages that are left
/// out wait for no answer of the user.
pub proof fn lemma_refusal_cancels(flow: SignFlow)
    requires
        flow.stage() != Stage::Finished,
        flow.stage() != Stage::Receiving,
        flow.stage() != Stage::Address,
        flow.stage() != Stage::Digest,
        flow.stage() != Stage::Signature,
    ensures
        flow.next_step(Event::Declined) == rejected(
            if flow.stage() == Stage::Blocked {
                Status::NotSupported
            } else {
                Status::UserCancelled
            },
        ),
        flow.stage() == Stage::Blocked ==> flow.next_step(Event::Accepted) == rejected(
            Status::NotSupported,
        ),
{
}

/// A swap's request whose transaction is recognised and matches the
/// expected parameters is hashed as soon as the key has been derived; one
/// that differs in amount, fee or recipient ends with the dedicated
/// mismatch status.
pub proof fn lemma_swap_cross_check(flow: SignFlow, address: SuiAddressRaw)
    requires
        flow.checks() == ParseChecks::CheckSwapTx,
        flow.stage() == Stage::Address,
    ensures
        flow.next_step(Event::Address(address)) == if flow.mismatch() {
            rejected(Status::SwapTxParamMismatch)
        } else {
            (Stage::Digest, Action::HashTransaction)
        },
{
}

} // verus!
