//! The values the decoder consumes and produces: device selectors,
//! operating modes, errors, and the literal/term/equation shapes that
//! make up a decoded fuse map.

use vstd::prelude::*;

verus! {

/// A supported device variant.
#[derive(Clone, Copy, Debug, PartialEq, Eq, Structural)]
pub enum Device {
    Gal20v8,
    Gal22v10,
}

/// An operating mode of a device, resolved from its mode fuses.
///
/// Only `Simple` is implemented by the equation synthesizer; every other
/// resolved mode aborts the decode.
#[derive(Clone, Copy, Debug, PartialEq, Eq, Structural)]
pub enum Mode {
    Registered,
    Complex,
    Simple,
    Unknown,
}

/// A fatal decode failure. Each one is terminal: no equations are
/// produced once a validation step fails.
#[derive(Clone, Copy, Debug, PartialEq, Eq, Structural)]
pub enum DecodeError {
    /// The device selector names no supported variant.
    UnknownDevice,
    /// The fuse array's length differs from the profile's declared total.
    FuseCountMismatch,
    /// The resolved operating mode is not implemented by this decoder.
    UnsupportedMode,
}

/// One input literal of an AND term: a physical pin, possibly inverted.
#[derive(Clone, Copy, Debug, PartialEq, Eq, Structural)]
pub struct Literal {
    /// Physical pin number; its display letter is the ASCII letter
    /// `'@' + pin`.
    pub pin: u8,
    /// Whether the literal is the inverted column of its pin pair and is
    /// displayed with a `/` prefix.
    pub inverted: bool,
}

/// One AND term: the conjunction of the literals whose fuses are blown in
/// one row.
#[derive(Clone, Debug, PartialEq, Eq)]
pub struct Term {
    pub literals: Vec<Literal>,
}

impl View for Term {
    type V = Seq<Literal>;

    open spec fn view(&self) -> Seq<Literal> {
        self.literals@
    }
}

/// The mathematical contents of a term list: each term as its literal
/// sequence.
pub open spec fn terms_view(v: Seq<Term>) -> Seq<Seq<Literal>> {
    v.map_values(|t: Term| t@)
}

/// One output cell's equation: its displayed output literal and the OR of
/// its non-empty AND terms. A cell whose rows are all unused keeps an
/// empty `terms` list and renders with an empty right-hand side.
#[derive(Clone, Debug, PartialEq, Eq)]
pub struct Equation {
    pub output: Literal,
    pub terms: Vec<Term>,
}

impl View for Equation {
    type V = (Literal, Seq<Seq<Literal>>);

    open spec fn view(&self) -> (Literal, Seq<Seq<Literal>>) {
        (self.output, terms_view(self.terms@))
    }
}

/// The mathematical contents of an equation list.
pub open spec fn equations_view(v: Seq<Equation>) -> Seq<(Literal, Seq<Seq<Literal>>)> {
    v.map_values(|e: Equation| e@)
}

/// A structured diagnostic event produced during one decode pass, in the
/// order the pass produced it.
#[derive(Clone, Copy, Debug, PartialEq, Eq, Structural)]
pub enum Event {
    /// The device defines global mode fuses and they resolved to `mode`.
    ModeResolved { syn: bool, ac0: bool, mode: Mode },
    /// The cell's enable fuse marks it input-only, so no equation line is
    /// emitted for it.
    CellSuppressed { cell: usize },
}

/// The result of one successful decode pass.
#[derive(Clone, Debug, PartialEq, Eq)]
pub struct Decoded {
    /// The resolved operating mode.
    pub mode: Mode,
    /// One equation per enabled output cell, in ascending cell index
    /// (physical top-to-bottom pin) order.
    pub equations: Vec<Equation>,
    /// Diagnostic events, informational only.
    pub events: Vec<Event>,
}

impl View for Decoded {
    type V = (Mode, Seq<(Literal, Seq<Seq<Literal>>)>, Seq<Event>);

    open spec fn view(&self) -> (Mode, Seq<(Literal, Seq<Seq<Literal>>)>, Seq<Event>) {
        (self.mode, equations_view(self.equations@), self.events@)
    }
}

/// The process exit code a command-line front end reports for `e`.
pub fn exit_code(e: &DecodeError) -> (r: u8)
    ensures
        r == (match e {
            DecodeError::UnknownDevice => 4u8,
            DecodeError::FuseCountMismatch => 2u8,
            DecodeError::UnsupportedMode => 3u8,
        }),
{
    match e {
        DecodeError::UnknownDevice => 4,
        DecodeError::FuseCountMismatch => 2,
        DecodeError::UnsupportedMode => 3,
    }
}

} // verus!
