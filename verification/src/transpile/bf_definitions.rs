//! The eight instructions of Brainf*ck.
use vstd::prelude::*;

verus! {

/// One Brainf*ck instruction.
#[derive(Debug, PartialEq, Eq, Clone, Copy, Structural)]
pub enum BFToken {
    /// `+`
    INC,
    /// `-`
    DEC,
    /// `>`
    NXT,
    /// `<`
    PRV,
    /// `,`
    GET,
    /// `.`
    PUT,
    /// `[`
    OPN,
    /// `]`
    CLS,
}

} // verus!
