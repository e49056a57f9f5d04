//! The run mode: the application on its own, or one signing request of a
//! swap partner from its start to its result.

use crate::swap::params::{CreateTxParams, TxParamsView};
use vstd::prelude::*;

verus! {

enum RunModeState {
    App,
    LibSwapSign { in_progress: bool, is_success: bool, tx_params: CreateTxParams },
}

/// The run mode of the application.
pub struct RunMode {
    state: RunModeState,
}

impl RunMode {
    /// A swap partner's signing request has begun.
    pub closed spec fn swap_signing(&self) -> bool {
        self.state is LibSwapSign
    }

    /// The request has begun and has no result yet.
    pub closed spec fn in_progress(&self) -> bool {
        self.state matches RunModeState::LibSwapSign { in_progress, .. } && in_progress
    }

    /// The request has a result, and the result is success.
    pub closed spec fn succeeded(&self) -> bool {
        self.state matches RunModeState::LibSwapSign { in_progress, is_success, .. }
            && !in_progress && is_success
    }

    /// The parameters that the request came with.
    pub closed spec fn expected(&self) -> TxParamsView
        recommends
            self.swap_signing(),
    {
        self.state->tx_params@
    }

    /// The mode of the application on its own.
    pub fn new() -> (mode: Self)
        ensures
            !mode.swap_signing(),
    {
        RunMode { state: RunModeState::App }
    }

    /// Whether a swap partner's signing request has begun.
    pub fn is_swap_signing(&self) -> (signing: bool)
        ensures
            signing == self.swap_signing(),
    {
        matches!(self.state, RunModeState::LibSwapSign { .. })
    }

    /// Begins a swap partner's signing request.
    pub fn start_swap_signing(&mut self, tx_params: CreateTxParams)
        requires
            !old(self).swap_signing(),
        ensures
            final(self).swap_signing(),
            final(self).in_progress(),
            !final(self).succeeded(),
            final(self).expected() == tx_params@,
    {
        self.state = RunModeState::LibSwapSign { in_progress: true, is_success: false, tx_params };
    }

    /// Records the result of the signing request. The application on its
    /// own records nothing.
    pub fn set_signing_result(&mut self, success: bool)
        requires
            old(self).swap_signing() ==> old(self).in_progress(),
        ensures
            final(self).swap_signing() == old(self).swap_signing(),
            !final(self).in_progress(),
            final(self).succeeded() == (old(self).swap_signing() && success),
            old(self).swap_signing() ==> final(self).expected() == old(self).expected(),
    {
        let mut taken = RunModeState::App;
        core::mem::swap(&mut self.state, &mut taken);
        match taken {
            RunModeState::LibSwapSign { in_progress: _, is_success: _, tx_params } => {
                self.state =
                RunModeState::LibSwapSign { in_progress: false, is_success: success, tx_params };
            },
            RunModeState::App => {},
        }
    }

    /// Whether the signing request has its result.
    pub fn is_swap_signing_done(&self) -> (done: bool)
        ensures
            done == (self.swap_signing() && !self.in_progress()),
    {
        matches!(self.state, RunModeState::LibSwapSign { in_progress: false, .. })
    }

    /// The result of the signing request.
    pub fn swap_sing_result(&self) -> (success: bool)
        requires
            self.swap_signing(),
            !self.in_progress(),
        ensures
            success == self.succeeded(),
    {
        match &self.state {
            RunModeState::LibSwapSign { is_success, .. } => *is_success,
            RunModeState::App => false,
        }
    }

    /// The parameters that the signing request came with.
    pub fn tx_params(&self) -> (params: &CreateTxParams)
        requires
            self.swap_signing(),
        ensures
            params@ == self.expected(),
    {
        match &self.state {
            RunModeState::LibSwapSign { tx_params, .. } => tx_params,
            RunModeState::App => vstd::pervasive::unreached(),
        }
    }
}

} // verus!
