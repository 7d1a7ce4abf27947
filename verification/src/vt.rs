//! The VT parser: escape-sequence recognition is done by `vtparse`, whose
//! parser reports each recognized action; this module hands those actions to
//! the library as plain values.

use vstd::prelude::*;
use vtparse::{CsiParam, VTAction};

verus! {

/// The `vtparse` parser state machine.
#[verifier::external_type_specification]
#[verifier::external_body]
pub struct ExVTParser(vtparse::VTParser);

/// One action reported by the `vtparse` parser.
#[verifier::external_type_specification]
#[verifier::external_body]
pub struct ExVTAction(vtparse::VTAction);

/// One CSI parameter as `vtparse` reports it.
#[verifier::external_type_specification]
#[verifier::external_body]
pub struct ExCsiParam(vtparse::CsiParam);

/// A CSI parameter: an integer, or a separator/private-marker byte.
#[derive(Debug, Clone, Copy, PartialEq, Eq, Structural)]
pub enum CsiArg {
    /// A numeric parameter (an omitted one reads as 0).
    Integer(i64),
    /// A non-numeric parameter byte such as `:` or `?`.
    Marker(u8),
}

/// An action of the parser, with CSI parameters still in `vtparse`'s form.
pub enum ParsedAction {
    /// A printable character.
    Print(char),
    /// A C0 or C1 control byte.
    Execute(u8),
    /// Start of a device control string: final byte, parameters, intermediates.
    DcsHook(u8, Vec<i64>, Vec<u8>),
    /// One data byte of a device control string.
    DcsPut(u8),
    /// End of a device control string.
    DcsUnhook,
    /// An escape sequence: final byte, parameters, intermediates.
    Esc(u8, Vec<i64>, Vec<u8>),
    /// A control sequence: parameters and final byte.
    Csi(Vec<vtparse::CsiParam>, u8),
    /// An operating system command: its `;`-separated parameters.
    Osc(Vec<Vec<u8>>),
    /// An application program command: its data.
    Apc(Vec<u8>),
}

/// A fresh parser in its ground state (`VTParser::new`).
#[verifier::external_body]
pub(crate) fn new_parser() -> vtparse::VTParser {
    vtparse::VTParser::new()
}

/// The actions `VTParser::parse` reports for `data`, the parser starting in
/// state `parser`.
pub uninterp spec fn vt_actions(parser: vtparse::VTParser, data: Seq<u8>) -> Seq<vtparse::VTAction>;

/// The state `VTParser::parse` leaves the parser in after `data`, starting
/// in state `parser`: it holds a sequence left incomplete at the end.
pub uninterp spec fn vt_next(parser: vtparse::VTParser, data: Seq<u8>) -> vtparse::VTParser;

/// Runs the parser over `data` (`VTParser::parse` with a `CollectingVTActor`)
/// and returns the actions it reports, in order. Trusted: the parser is a
/// deterministic state machine, so the actions and the new state are named
/// by `vt_actions` and `vt_next` of the old state and the bytes.
#[verifier::external_body]
pub(crate) fn parse_actions(parser: &mut vtparse::VTParser, data: &[u8]) -> (r: Vec<vtparse::VTAction>)
    ensures
        r@ == vt_actions(*old(parser), data@),
        *final(parser) == vt_next(*old(parser), data@),
{
    let mut actor = vtparse::CollectingVTActor::default();
    parser.parse(data, &mut actor);
    actor.into_vec()
}

/// The action a `vtparse::VTAction` is, its fields copied.
pub uninterp spec fn parsed_of(action: vtparse::VTAction) -> ParsedAction;

/// Tells the variants of a `vtparse::VTAction` apart, copying their fields.
/// Trusted: the copy is named by `parsed_of`, a function of the action alone.
#[verifier::external_body]
pub(crate) fn classify_action(action: &vtparse::VTAction) -> (r: ParsedAction)
    ensures
        r == parsed_of(*action),
{
    match action {
        VTAction::Print(c) => ParsedAction::Print(*c),
        VTAction::ExecuteC0orC1(b) => ParsedAction::Execute(*b),
        VTAction::DcsHook { byte, params, intermediates, .. } => ParsedAction::DcsHook(*byte, params.clone(), intermediates.clone()),
        VTAction::DcsPut(b) => ParsedAction::DcsPut(*b),
        VTAction::DcsUnhook => ParsedAction::DcsUnhook,
        VTAction::EscDispatch { byte, params, intermediates, .. } => ParsedAction::Esc(*byte, params.clone(), intermediates.clone()),
        VTAction::CsiDispatch { params, byte, .. } => ParsedAction::Csi(params.clone(), *byte),
        VTAction::OscDispatch(p) => ParsedAction::Osc(p.clone()),
        VTAction::ApcDispatch(d) => ParsedAction::Apc(d.clone()),
    }
}

/// The argument a `vtparse::CsiParam` is.
pub uninterp spec fn csi_arg_of(p: vtparse::CsiParam) -> CsiArg;

/// Tells the variants of a `vtparse::CsiParam` apart. Trusted: the argument
/// is named by `csi_arg_of`, a function of the parameter alone.
#[verifier::external_body]
pub(crate) fn csi_arg(p: &vtparse::CsiParam) -> (r: CsiArg)
    ensures
        r == csi_arg_of(*p),
{
    match p {
        CsiParam::Integer(v) => CsiArg::Integer(*v),
        CsiParam::P(b) => CsiArg::Marker(*b),
    }
}

} // verus!
