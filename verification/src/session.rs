//! The parse that is kept between commands: it waits while the payload
//! of a signing request arrives, and is resumed with every chunk, behind
//! what it has decoded before.

use crate::chunking::lemma_signed_payload_stable;
use crate::interface::ParseChecks;
use crate::outcome::{answers, Decoded, Outcome, Rejection};
use crate::resumable::Progress;
use crate::stream::ByteStream;
use crate::swap::params::{CreateTxParams, TxParams, TxParamsView};
use crate::transaction::signed_payload;
use vstd::prelude::*;

verus! {

/// Where the kept parse stands.
#[derive(Clone, Copy, Debug, PartialEq, Eq, Structural)]
pub enum Phase {
    /// No parse is in progress.
    Idle,
    /// A parse is suspended and waits for more bytes.
    Parsing,
    /// The parse has its result.
    Completed,
}

/// The one parse that may be suspended at a time.
pub struct ParserState {
    phase: Phase,
    stream: ByteStream,
    checks: ParseChecks,
    expected: TxParams,
    settled: Result<CreateTxParams, Rejection>,
    progress: Progress,
}

impl ParserState {
    #[verifier::type_invariant]
    spec fn result_is_kept(self) -> bool {
        let outcome = signed_payload(self.stream.bytes(), 0, self.checks, self.expected@);
        match self.phase {
            Phase::Idle => true,
            Phase::Parsing => outcome is Suspend && self.progress.fits(
                self.stream.bytes(),
                self.stream.cursor(),
                self.checks,
                self.expected@,
            ),
            Phase::Completed => match self.settled {
                Ok(params) => outcome matches Outcome::Done { value, .. } && params@ == value,
                Err(why) => outcome == (Outcome::<TxParamsView>::Reject { why }),
            },
        }
    }

    /// Where the parse stands.
    pub closed spec fn phase(&self) -> Phase {
        self.phase
    }

    /// The bytes received since the parse began.
    pub closed spec fn received(&self) -> Seq<u8> {
        self.stream.bytes()
    }

    /// What the parse checks.
    pub closed spec fn checks(&self) -> ParseChecks {
        self.checks
    }

    /// The parameters that a swap's parse checks against.
    pub closed spec fn expected(&self) -> TxParamsView {
        self.expected@
    }

    /// What the payload rule says of the bytes received.
    pub open spec fn outcome(&self) -> Outcome<TxParamsView> {
        signed_payload(self.received(), 0, self.checks(), self.expected())
    }

    /// No parse in progress: nothing has been received, nothing is checked,
    /// and the parameters to check against are those of no transaction.
    pub fn new() -> (state: Self)
        ensures
            state.phase() == Phase::Idle,
            state.received() == Seq::<u8>::empty(),
            state.checks() == ParseChecks::NoChecks,
            state.expected() == TxParams::default_view(),
    {
        ParserState {
            phase: Phase::Idle,
            stream: ByteStream::new(),
            checks: ParseChecks::NoChecks,
            expected: TxParams::default(),
            settled: Err(Rejection::Malformed),
            progress: Progress::new(),
        }
    }

    /// Where the parse stands.
    pub fn current_phase(&self) -> (phase: Phase)
        ensures
            phase == self.phase(),
            phase == Phase::Parsing ==> self.outcome() is Suspend,
            phase == Phase::Completed ==> self.outcome().settled(),
    {
        proof {
            use_type_invariant(self);
        }
        self.phase
    }

    /// The bytes received since the parse began.
    pub fn received_bytes(&self) -> (bytes: &[u8])
        ensures
            bytes@ == self.received(),
    {
        self.stream.as_slice()
    }

    /// Begins the parse of the payload of a signing request. A parse that
    /// was suspended is discarded; the result tells whether there was one.
    pub fn begin(&mut self, checks: ParseChecks, expected: TxParams) -> (discarded: bool)
        ensures
            discarded == (old(self).phase() == Phase::Parsing),
            final(self).phase() == Phase::Parsing,
            final(self).received() == Seq::<u8>::empty(),
            final(self).checks() == checks,
            final(self).expected() == expected@,
    {
        let discarded = matches!(self.phase, Phase::Parsing);
        *self = ParserState {
            phase: Phase::Parsing,
            stream: ByteStream::new(),
            checks,
            expected,
            settled: Err(Rejection::Malformed),
            progress: Progress::new(),
        };
        discarded
    }

    /// Resumes the parse with one more chunk: it goes on behind the inputs
    /// and commands that it has decoded before, and reads again only the
    /// one item that the last chunk cut short. The result is what the
    /// payload rule says of all bytes received since the parse began, so
    /// it does not depend on where the chunks were cut. The parse stays
    /// suspended while the rule waits, and is completed once the rule has
    /// finished or rejected; a completed parse takes further chunks in and
    /// keeps its result, which later bytes cannot change. Where no parse
    /// was begun the chunk belongs to nothing: it is refused and changes
    /// nothing.
    pub fn resume(&mut self, chunk: &[u8]) -> (r: Decoded<CreateTxParams>)
        ensures
            final(self).checks() == old(self).checks(),
            final(self).expected() == old(self).expected(),
            old(self).phase() == Phase::Idle ==> {
                &&& r == Decoded::<CreateTxParams>::Reject(Rejection::Malformed)
                &&& final(self).phase() == Phase::Idle
                &&& final(self).received() == old(self).received()
            },
            old(self).phase() != Phase::Idle ==> {
                &&& final(self).received() == old(self).received() + chunk@
                &&& answers(final(self).outcome(), r)
                &&& final(self).phase() == if r is Suspend {
                    Phase::Parsing
                } else {
                    Phase::Completed
                }
            },
    {
        let mut taken = ParserState::new();
        core::mem::swap(self, &mut taken);
        proof {
            use_type_invariant(&taken);
        }
        let ParserState { phase, mut stream, checks, expected, settled, mut progress } = taken;
        match phase {
            Phase::Idle => {
                *self = ParserState { phase, stream, checks, expected, settled, progress };
                Decoded::Reject(Rejection::Malformed)
            },
            Phase::Completed => {
                proof {
                    lemma_signed_payload_stable(stream.bytes(), chunk@, 0, checks, expected@);
                }
                stream.feed(chunk);
                *self = ParserState { phase, stream, checks, expected, settled, progress };
                match settled {
                    Ok(params) => Decoded::Done(params),
                    Err(why) => Decoded::Reject(why),
                }
            },
            Phase::Parsing => {
                proof {
                    progress.lemma_fits_more(
                        stream.bytes(),
                        chunk@,
                        stream.cursor(),
                        checks,
                        expected@,
                    );
                }
                stream.feed(chunk);
                match progress.advance(&mut stream, checks, &expected) {
                    Decoded::Suspend => {
                        *self = ParserState {
                            phase: Phase::Parsing,
                            stream,
                            checks,
                            expected,
                            settled,
                            progress,
                        };
                        Decoded::Suspend
                    },
                    Decoded::Done(params) => {
                        *self = ParserState {
                            phase: Phase::Completed,
                            stream,
                            checks,
                            expected,
                            settled: Ok(params),
                            progress,
                        };
                        Decoded::Done(params)
                    },
                    Decoded::Reject(why) => {
                        *self = ParserState {
                            phase: Phase::Completed,
                            stream,
                            checks,
                            expected,
                            settled: Err(why),
                            progress,
                        };
                        Decoded::Reject(why)
                    },
                }
            },
        }
    }

    /// Discards the parse, suspended or completed: after a rejection, a
    /// cancellation by the user, or when the response has been sent.
    pub fn reset(&mut self)
        ensures
            final(self).phase() == Phase::Idle,
            final(self).received() == Seq::<u8>::empty(),
    {
        *self = ParserState::new();
    }
}

/// Resuming with two chunks in turn gives what resuming once with both
/// gives; and a parse that settled on the first chunk would have settled
/// the same way on both.
pub proof fn lemma_resume_is_chunking_blind(
    received: Seq<u8>,
    first: Seq<u8>,
    second: Seq<u8>,
    checks: ParseChecks,
    expected: TxParamsView,
)
    ensures
        (received + first) + second == received + (first + second),
        signed_payload(received + first, 0, checks, expected).settled() ==> signed_payload(
            received + (first + second),
            0,
            checks,
            expected,
        ) == signed_payload(received + first, 0, checks, expected),
{
    assert((received + first) + second =~= received + (first + second));
    lemma_signed_payload_stable(received + first, second, 0, checks, expected);
}

} // verus!
