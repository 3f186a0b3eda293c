//! Validation of the PEM of a certificate authority.
//!
//! MbedTLS does the parsing. A [`CaCheck`] says whether its call is due, and on which
//! buffer, and takes what the call returned.

use crate::c_string;
use crate::c_string::to_c_string;
use vstd::prelude::*;
use vstd::utf8;

verus! {

/// `mbedtls_rs::Certificate::new` is due on `ca` as PEM.
#[derive(Debug)]
pub struct ParseCa {
    pub ca: Vec<u8>,
}

/// A validation under way: the call that is due, or whether the text is valid.
#[derive(Debug)]
pub enum CaCheck {
    Parse(ParseCa),
    Done(bool),
}

/// A [`CaCheck`] with the buffer as a sequence.
pub enum CaState {
    Parse { ca: Seq<u8> },
    Done(bool),
}

impl View for CaCheck {
    type V = CaState;

    open spec fn view(&self) -> CaState {
        match *self {
            CaCheck::Parse(step) => CaState::Parse { ca: step.ca@ },
            CaCheck::Done(valid) => CaState::Done(valid),
        }
    }
}

/// Where a validation starts. Text with a NUL in it is refused before the call.
pub open spec fn ca_start(ca_pem: Seq<char>) -> CaState {
    match c_string::c_string(ca_pem) {
        Some(ca) => CaState::Parse { ca },
        None => CaState::Done(false),
    }
}

/// Where a validation goes when the text has been parsed, or not.
pub open spec fn ca_after_parse(state: CaState, parsed: bool) -> CaState {
    match state {
        CaState::Parse { .. } => CaState::Done(parsed),
        CaState::Done(valid) => CaState::Done(valid),
    }
}

/// Starts to verify that a CA PEM parses as an X.509 certificate.
pub fn validate_ca_pem(ca_pem: &str) -> (check: CaCheck)
    ensures
        check@ == ca_start(ca_pem@),
        ca_pem@.contains('\0') ==> check == CaCheck::Done(false),
        !ca_pem@.contains('\0') ==> {
            &&& check matches CaCheck::Parse(step)
            &&& step.ca@ == utf8::encode_utf8(ca_pem@).push(0)
        },
{
    match to_c_string(ca_pem) {
        Some(ca) => CaCheck::Parse(ParseCa { ca }),
        None => CaCheck::Done(false),
    }
}

impl ParseCa {
    /// The text is valid if MbedTLS has parsed it.
    pub fn resume<C, E>(self, parsed: Result<C, E>) -> (check: CaCheck)
        ensures
            check@ == ca_after_parse(CaCheck::Parse(self)@, parsed is Ok),
            check == CaCheck::Done(parsed is Ok),
    {
        CaCheck::Done(parsed.is_ok())
    }
}

/// A whole validation, from the text and whether it parses. The parse is due if and
/// only if the text holds no NUL, and it is on the text byte for byte: the buffer ends
/// in a NUL, before which it decodes to `ca_pem`. The answer is whether it parses, and
/// no where no parse is due.
pub proof fn law_ca_run(ca_pem: Seq<char>, start: CaCheck, parsed: bool, end: CaCheck)
    requires
        start@ == ca_start(ca_pem),
        end@ == ca_after_parse(start@, parsed),
    ensures
        start is Parse <==> !ca_pem.contains('\0'),
        start matches CaCheck::Parse(step) ==> {
            &&& step.ca@ == utf8::encode_utf8(ca_pem).push(0)
            &&& step.ca@.last() == 0
            &&& utf8::decode_utf8(step.ca@.drop_last()) == ca_pem
        },
        start matches CaCheck::Done(valid) ==> !valid,
        end == CaCheck::Done(!ca_pem.contains('\0') && parsed),
{
    c_string::law_c_string_is_the_text(ca_pem);
}

/// A CA PEM is valid if and only if it holds no NUL and is parsed; what is parsed
/// ends in its only NUL.
pub proof fn law_ca_verdict(ca_pem: Seq<char>, parsed: bool)
    ensures
        ca_after_parse(ca_start(ca_pem), parsed) == CaState::Done(
            !ca_pem.contains('\0') && parsed,
        ),
        ca_start(ca_pem) matches CaState::Parse { ca } ==> c_string::is_c_string(ca),
{
    c_string::law_c_string(ca_pem);
}

} // verus!
