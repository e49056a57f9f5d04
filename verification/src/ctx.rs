//! The run context: whether the application runs on its own or was called
//! by a swap partner, and how the partner's signing request ended.

use crate::swap::params::{TxParams, TxParamsView};
use vstd::prelude::*;

verus! {

/// The state of a run.
#[derive(Clone, Copy, Debug, PartialEq, Eq, Structural)]
pub enum State {
    /// The application runs on its own.
    App,
    /// Called by a swap partner; nothing has been signed yet.
    LibSwapIdle,
    /// Called by a swap partner; the transaction was signed.
    LibSwapSignSuccess,
    /// Called by a swap partner; signing failed.
    LibSwapSignFailure,
}

impl State {
    /// The state that follows when a result is recorded: a pending request
    /// of a swap partner takes the result; the application on its own has
    /// none to take, and a request that has its result keeps it.
    pub open spec fn after(self, success: bool) -> State {
        match self {
            State::LibSwapIdle => if success {
                State::LibSwapSignSuccess
            } else {
                State::LibSwapSignFailure
            },
            other => other,
        }
    }

    /// The request of a swap partner has its result.
    pub open spec fn is_terminal(self) -> bool {
        self == State::LibSwapSignSuccess || self == State::LibSwapSignFailure
    }
}

/// A result that was recorded is never replaced, and the application on
/// its own never becomes a swap; a pending request ends with the result
/// that is recorded first.
pub proof fn lemma_result_is_terminal(state: State, first: bool, second: bool)
    ensures
        state.is_terminal() ==> state.after(first) == state,
        state == State::App ==> state.after(first) == State::App,
        state == State::LibSwapIdle ==> state.after(first).is_terminal(),
        state.after(first).after(second) == state.after(first),
{
}

/// The context of one run, from start to exit or for one call by a swap
/// partner.
pub struct RunCtx {
    state: State,
    tx_params: TxParams,
}

impl RunCtx {
    /// The state of the run.
    pub closed spec fn state(&self) -> State {
        self.state
    }

    /// The parameters that the swap partner expects.
    pub closed spec fn params(&self) -> TxParamsView {
        self.tx_params@
    }

    /// The context of a run of the application on its own.
    pub fn app() -> (ctx: Self)
        ensures
            ctx.state() == State::App,
            ctx.params() == TxParams::default_view(),
    {
        RunCtx { state: State::App, tx_params: TxParams::default() }
    }

    /// The context of a call by a swap partner that expects `tx_params`.
    pub fn lib_swap(tx_params: TxParams) -> (ctx: Self)
        ensures
            ctx.state() == State::LibSwapIdle,
            ctx.params() == tx_params@,
    {
        RunCtx { state: State::LibSwapIdle, tx_params }
    }

    /// Whether a swap partner called.
    pub fn is_swap(&self) -> (swap: bool)
        ensures
            swap == (self.state() != State::App),
    {
        !matches!(self.state, State::App)
    }

    /// Whether the swap partner's signing request has ended.
    pub fn is_swap_finished(&self) -> (finished: bool)
        ensures
            finished == (self.state() == State::LibSwapSignSuccess || self.state()
                == State::LibSwapSignFailure),
    {
        matches!(self.state, State::LibSwapSignSuccess | State::LibSwapSignFailure)
    }

    /// Whether the swap partner's transaction was signed.
    pub fn is_swap_sign_succeeded(&self) -> (succeeded: bool)
        ensures
            succeeded == (self.state() == State::LibSwapSignSuccess),
    {
        matches!(self.state, State::LibSwapSignSuccess)
    }

    /// Records that the swap partner's transaction was signed. Only a
    /// request that has no result yet takes one: a run of the application
    /// on its own records nothing, and a result that was recorded stays.
    pub fn set_swap_sign_success(&mut self)
        ensures
            final(self).params() == old(self).params(),
            final(self).state() == State::after(old(self).state(), true),
    {
        if matches!(self.state, State::LibSwapIdle) {
            self.state = State::LibSwapSignSuccess;
        }
    }

    /// Records that signing the swap partner's transaction failed. Only a
    /// request that has no result yet takes one: a run of the application
    /// on its own records nothing, and a result that was recorded stays.
    pub fn set_swap_sign_failure(&mut self)
        ensures
            final(self).params() == old(self).params(),
            final(self).state() == State::after(old(self).state(), false),
    {
        if matches!(self.state, State::LibSwapIdle) {
            self.state = State::LibSwapSignFailure;
        }
    }

    /// The parameters that the swap partner expects.
    pub fn get_swap_tx_params(&self) -> (params: &TxParams)
        requires
            self.state() != State::App,
        ensures
            params@ == self.params(),
    {
        &self.tx_params
    }
}

} // verus!
