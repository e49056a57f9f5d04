//! The public vocabulary of the application: what a parse checks, the
//! instructions of the command set, and the statuses of a rejection.

use crate::outcome::Rejection;
use vstd::prelude::*;

verus! {

/// What a parse of a transaction does beyond recognising it.
#[derive(Clone, Copy, Debug, PartialEq, Eq, Structural)]
pub enum ParseChecks {
    /// Nothing: the parse only tells whether the transaction is recognised.
    NoChecks,
    /// The decoded fields are shown to the user for approval.
    PromptUser,
    /// The decoded fields are compared with the parameters that the caller
    /// of a swap expects.
    CheckSwapTx,
}

/// The status word that tells a swap partner that the transaction is not
/// the one it expects.
pub const SW_SWAP_TX_PARAM_MISMATCH: u16 = 0x6e05;

/// Why a command was rejected.
#[derive(Clone, Copy, Debug, PartialEq, Eq, Structural)]
pub enum Status {
    /// The header names no instruction of this application.
    BadIns,
    /// The input is malformed: a parameter is missing or cut short, a sum
    /// overflows, or the derivation path lacks the required prefix.
    InvalidParameter,
    /// The transaction is not recognised and may not be signed blindly.
    NotSupported,
    /// The user declined.
    UserCancelled,
    /// The transaction is not the one that the swap partner expects.
    SwapTxParamMismatch,
    /// An internal failure, such as a failed signature.
    Unspecified,
}

impl Rejection {
    /// The status that a rejected parse is reported with.
    pub open spec fn spec_status(self) -> Status {
        match self {
            Rejection::Malformed => Status::InvalidParameter,
            Rejection::Unsupported => Status::NotSupported,
            Rejection::AmountOverflow => Status::InvalidParameter,
            Rejection::ParamMismatch => Status::SwapTxParamMismatch,
        }
    }

    /// The status that a rejected parse is reported with.
    #[verifier::when_used_as_spec(spec_status)]
    pub fn status(self) -> (status: Status)
        ensures
            status == self.spec_status(),
    {
        match self {
            Rejection::Malformed => Status::InvalidParameter,
            Rejection::Unsupported => Status::NotSupported,
            Rejection::AmountOverflow => Status::InvalidParameter,
            Rejection::ParamMismatch => Status::SwapTxParamMismatch,
        }
    }
}

/// The header of a command: class, instruction and two parameters.
#[derive(Clone, Copy, Debug, PartialEq, Eq, Structural)]
pub struct ApduHeader {
    pub cla: u8,
    pub ins: u8,
    pub p1: u8,
    pub p2: u8,
}

/// The instructions of the command set.
#[derive(Clone, Copy, Debug, PartialEq, Eq, Structural)]
pub enum Ins {
    GetVersion,
    VerifyAddress,
    GetPubkey,
    Sign,
    GetVersionStr,
    Exit,
}

impl Ins {
    /// The instruction that a byte stands for, if any.
    pub open spec fn of_byte(ins: u8) -> Option<Ins> {
        if ins == 0 {
            Some(Ins::GetVersion)
        } else if ins == 1 {
            Some(Ins::VerifyAddress)
        } else if ins == 2 {
            Some(Ins::GetPubkey)
        } else if ins == 3 {
            Some(Ins::Sign)
        } else if ins == 0xfe {
            Some(Ins::GetVersionStr)
        } else if ins == 0xff {
            Some(Ins::Exit)
        } else {
            None
        }
    }

    /// The byte that stands for an instruction.
    pub open spec fn spec_code(self) -> u8 {
        match self {
            Ins::GetVersion => 0,
            Ins::VerifyAddress => 1,
            Ins::GetPubkey => 2,
            Ins::Sign => 3,
            Ins::GetVersionStr => 0xfe,
            Ins::Exit => 0xff,
        }
    }

    /// The byte that stands for an instruction.
    #[verifier::when_used_as_spec(spec_code)]
    pub fn code(self) -> (byte: u8)
        ensures
            byte == self.spec_code(),
            Ins::of_byte(byte) == Some(self),
    {
        match self {
            Ins::GetVersion => 0,
            Ins::VerifyAddress => 1,
            Ins::GetPubkey => 2,
            Ins::Sign => 3,
            Ins::GetVersionStr => 0xfe,
            Ins::Exit => 0xff,
        }
    }

    /// The instruction that a header names. Class and both parameters must
    /// be zero, and the instruction byte must be one of the command set.
    pub fn try_from(m: ApduHeader) -> (r: Result<Ins, Status>)
        ensures
            r == if m.cla == 0 && m.p1 == 0 && m.p2 == 0 && Ins::of_byte(m.ins) is Some {
                Ok::<Ins, Status>(Ins::of_byte(m.ins).unwrap())
            } else {
                Err::<Ins, Status>(Status::BadIns)
            },
    {
        if m.cla != 0 || m.p1 != 0 || m.p2 != 0 {
            return Err(Status::BadIns);
        }
        if m.ins == 0 {
            Ok(Ins::GetVersion)
        } else if m.ins == 1 {
            Ok(Ins::VerifyAddress)
        } else if m.ins == 2 {
            Ok(Ins::GetPubkey)
        } else if m.ins == 3 {
            Ok(Ins::Sign)
        } else if m.ins == 0xfe {
            Ok(Ins::GetVersionStr)
        } else if m.ins == 0xff {
            Ok(Ins::Exit)
        } else {
            Err(Status::BadIns)
        }
    }
}

} // verus!
