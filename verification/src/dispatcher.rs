//! The decisions of the command loop: where an instruction leads, how the
//! outcome of a signing request is recorded, through which channel a
//! response leaves, and which menu is shown.

use crate::bounded::{
    response_bytes, response_new, response_try_extend, response_try_push, Response,
};
use crate::ctx::{RunCtx, State};
use crate::interface::{Ins, ParseChecks};
use crate::session::Phase;
use crate::signing::Action;
use vstd::prelude::*;

verus! {

/// The name that the application reports with its version.
pub const APP_NAME: [u8; 3] = [0x73, 0x75, 0x69];

/// Where an instruction leads.
#[derive(Clone, Copy, Debug, PartialEq, Eq, Structural)]
pub enum Route {
    /// Report the version and the name of the application.
    Version,
    /// Report key and address of a derivation path, after the user has
    /// confirmed the address if `prompt` is set.
    Address { prompt: bool },
    /// Sign a transaction under these checks.
    Sign { checks: ParseChecks },
    /// Do nothing.
    Nothing,
    /// Leave the application: back to the swap partner that called, or
    /// altogether.
    Exit { to_caller: bool },
}

/// The channel through which a response leaves.
#[derive(Clone, Copy, Debug, PartialEq, Eq, Structural)]
pub enum Channel {
    /// To the host.
    Host,
    /// To the swap partner that called.
    Swap,
}

/// The menu that is shown between commands.
#[derive(Clone, Copy, Debug, PartialEq, Eq, Structural)]
pub enum Menu {
    /// None: a swap partner called, and the user sees nothing of it.
    Hidden,
    /// The menu of the idle application.
    Idle,
    /// The menu of a request in progress, which the user may cancel.
    Busy,
}

/// Where an instruction leads. A swap partner's signing request is checked
/// against its parameters, and its exit leads back to it; every other
/// signing request is approved by the user.
pub open spec fn route_of(ins: Ins, state: State) -> Route {
    match ins {
        Ins::GetVersion => Route::Version,
        Ins::VerifyAddress => Route::Address { prompt: true },
        Ins::GetPubkey => Route::Address { prompt: false },
        Ins::Sign => Route::Sign {
            checks: if state != State::App {
                ParseChecks::CheckSwapTx
            } else {
                ParseChecks::PromptUser
            },
        },
        Ins::GetVersionStr => Route::Nothing,
        Ins::Exit => Route::Exit { to_caller: state != State::App },
    }
}

/// Where an instruction leads.
pub fn route(ins: Ins, ctx: &RunCtx) -> (r: Route)
    ensures
        r == route_of(ins, ctx.state()),
{
    match ins {
        Ins::GetVersion => Route::Version,
        Ins::VerifyAddress => Route::Address { prompt: true },
        Ins::GetPubkey => Route::Address { prompt: false },
        Ins::Sign => {
            if ctx.is_swap() {
                Route::Sign { checks: ParseChecks::CheckSwapTx }
            } else {
                Route::Sign { checks: ParseChecks::PromptUser }
            }
        },
        Ins::GetVersionStr => Route::Nothing,
        Ins::Exit => Route::Exit { to_caller: ctx.is_swap() },
    }
}

/// The response to a version request: the three numbers of the version
/// and the name of the application.
pub fn version_response(major: u8, minor: u8, patch: u8) -> (response: Response)
    ensures
        response_bytes(response) == seq![major, minor, patch] + APP_NAME@,
{
    let mut response = response_new();
    let _ = response_try_push(&mut response, major);
    let _ = response_try_push(&mut response, minor);
    let _ = response_try_push(&mut response, patch);
    let _ = response_try_extend(&mut response, vstd::array::array_as_slice(&APP_NAME));
    assert(response_bytes(response) =~= seq![major, minor, patch] + APP_NAME@);
    response
}

/// Records how a signing request ended. A signature that was sent is a
/// success, a rejection a failure; an action that does not end the
/// request records nothing. Only a pending request of a swap partner
/// takes a result: a run of the application on its own records nothing,
/// and a result that was recorded stays.
pub fn conclude(ctx: &mut RunCtx, last: &Action)
    ensures
        final(ctx).params() == old(ctx).params(),
        final(ctx).state() == if *last is Reply {
            State::after(old(ctx).state(), true)
        } else if *last is Reject {
            State::after(old(ctx).state(), false)
        } else {
            old(ctx).state()
        },
{
    match last {
        Action::Reply => {
            ctx.set_swap_sign_success();
        },
        Action::Reject(_) => {
            ctx.set_swap_sign_failure();
        },
        _ => {},
    }
}

/// The channel through which a response leaves.
pub fn reply_channel(ctx: &RunCtx) -> (channel: Channel)
    ensures
        channel == if ctx.state() != State::App {
            Channel::Swap
        } else {
            Channel::Host
        },
{
    if ctx.is_swap() {
        Channel::Swap
    } else {
        Channel::Host
    }
}

/// The menu that is shown between commands.
pub fn menu_for(ctx: &RunCtx, phase: Phase) -> (menu: Menu)
    ensures
        menu == if ctx.state() != State::App {
            Menu::Hidden
        } else if phase == Phase::Idle {
            Menu::Idle
        } else {
            Menu::Busy
        },
{
    if ctx.is_swap() {
        Menu::Hidden
    } else {
        match phase {
            Phase::Idle => Menu::Idle,
            _ => Menu::Busy,
        }
    }
}

/// Whether the command loop ends: a swap partner's signing request has its
/// result.
pub fn should_return(ctx: &RunCtx) -> (done: bool)
    ensures
        done == (ctx.state() == State::LibSwapSignSuccess || ctx.state()
            == State::LibSwapSignFailure),
{
    ctx.is_swap_finished()
}

} // verus!
