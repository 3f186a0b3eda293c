//! Validation of a certificate and a private key as a pair.
//!
//! MbedTLS does the parsing and the comparison. A [`PairCheck`] says which of its
//! calls is due, on which buffers, and takes the status that the call returned; the
//! verdict stands once it is [`PairCheck::Done`].

use crate::c_string;
use crate::c_string::to_c_string;
use vstd::prelude::*;
use vstd::utf8;

verus! {

/// Certificate/private-key validation failure.
#[derive(Debug, Clone, Copy, PartialEq, Eq, Structural)]
pub enum PairError {
    InvalidCertificate,
    InvalidPrivateKey,
    Mismatch,
}

/// A validation under way: the call that is due next, or the verdict.
#[derive(Debug)]
pub enum PairCheck {
    /// `mbedtls_x509_crt_parse` is due on `cert`; `key` waits.
    ParseCertificate { cert: Vec<u8>, key: Vec<u8> },
    /// `mbedtls_pk_parse_key` is due on `key`, without a password.
    ParsePrivateKey { key: Vec<u8> },
    /// `mbedtls_pk_check_pair` is due on the parsed certificate's key and the
    /// parsed private key.
    CheckPair,
    /// Nothing is due any more.
    Done(Result<(), PairError>),
}

/// A [`PairCheck`] with the buffers as sequences.
pub enum PairState {
    ParseCertificate { cert: Seq<u8>, key: Seq<u8> },
    ParsePrivateKey { key: Seq<u8> },
    CheckPair,
    Done(Result<(), PairError>),
}

impl View for PairCheck {
    type V = PairState;

    open spec fn view(&self) -> PairState {
        match *self {
            PairCheck::ParseCertificate { cert, key } => PairState::ParseCertificate {
                cert: cert@,
                key: key@,
            },
            PairCheck::ParsePrivateKey { key } => PairState::ParsePrivateKey { key: key@ },
            PairCheck::CheckPair => PairState::CheckPair,
            PairCheck::Done(verdict) => PairState::Done(verdict),
        }
    }
}

impl PairState {
    /// Every buffer that a call takes ends in its only NUL.
    pub open spec fn wf(self) -> bool {
        match self {
            PairState::ParseCertificate { cert, key } => c_string::is_c_string(cert)
                && c_string::is_c_string(key),
            PairState::ParsePrivateKey { key } => c_string::is_c_string(key),
            PairState::CheckPair => true,
            PairState::Done(_) => true,
        }
    }
}

/// Where a validation starts. Text with a NUL in it is refused before any call, the
/// certificate's first.
pub open spec fn pair_start(cert_pem: Seq<char>, key_pem: Seq<char>) -> PairState {
    match (c_string::c_string(cert_pem), c_string::c_string(key_pem)) {
        (None, _) => PairState::Done(Err(PairError::InvalidCertificate)),
        (Some(_), None) => PairState::Done(Err(PairError::InvalidPrivateKey)),
        (Some(cert), Some(key)) => PairState::ParseCertificate { cert, key },
    }
}

/// Where a validation goes when the call that was due returns `status`: zero is
/// success, anything else a failure of what was being checked.
pub open spec fn pair_next(state: PairState, status: int) -> PairState {
    match state {
        PairState::ParseCertificate { cert: _, key } => if status == 0 {
            PairState::ParsePrivateKey { key }
        } else {
            PairState::Done(Err(PairError::InvalidCertificate))
        },
        PairState::ParsePrivateKey { key: _ } => if status == 0 {
            PairState::CheckPair
        } else {
            PairState::Done(Err(PairError::InvalidPrivateKey))
        },
        PairState::CheckPair => if status == 0 {
            PairState::Done(Ok(()))
        } else {
            PairState::Done(Err(PairError::Mismatch))
        },
        PairState::Done(verdict) => PairState::Done(verdict),
    }
}

/// The verdict on two PEM texts, given what MbedTLS returns when it parses the
/// certificate, parses the key and compares the two.
pub open spec fn pair_verdict(
    cert_pem: Seq<char>,
    key_pem: Seq<char>,
    cert_status: int,
    key_status: int,
    pair_status: int,
) -> Result<(), PairError> {
    if cert_pem.contains('\0') {
        Err(PairError::InvalidCertificate)
    } else if key_pem.contains('\0') {
        Err(PairError::InvalidPrivateKey)
    } else if cert_status != 0 {
        Err(PairError::InvalidCertificate)
    } else if key_status != 0 {
        Err(PairError::InvalidPrivateKey)
    } else if pair_status != 0 {
        Err(PairError::Mismatch)
    } else {
        Ok(())
    }
}

/// Starts to validate that the leaf certificate and the private key form a pair. No
/// persistence is performed.
pub fn validate_cert_key_pair(cert_pem: &str, key_pem: &str) -> (check: PairCheck)
    ensures
        check@ == pair_start(cert_pem@, key_pem@),
        cert_pem@.contains('\0') ==> check == PairCheck::Done(Err(PairError::InvalidCertificate)),
        !cert_pem@.contains('\0') && key_pem@.contains('\0') ==> check == PairCheck::Done(
            Err(PairError::InvalidPrivateKey),
        ),
        !cert_pem@.contains('\0') && !key_pem@.contains('\0') ==> {
            &&& check matches PairCheck::ParseCertificate { cert, key }
            &&& cert@ == utf8::encode_utf8(cert_pem@).push(0)
            &&& key@ == utf8::encode_utf8(key_pem@).push(0)
        },
{
    let cert: Vec<u8> = match to_c_string(cert_pem) {
        Some(cert) => cert,
        None => return PairCheck::Done(Err(PairError::InvalidCertificate)),
    };
    let key: Vec<u8> = match to_c_string(key_pem) {
        Some(key) => key,
        None => return PairCheck::Done(Err(PairError::InvalidPrivateKey)),
    };
    PairCheck::ParseCertificate { cert, key }
}

impl PairCheck {
    /// Goes on with the status that the due call returned. A verdict stays.
    pub fn resume(self, status: i32) -> (check: PairCheck)
        ensures
            check@ == pair_next(self@, status as int),
            match self {
                PairCheck::ParseCertificate { cert: _, key } => if status == 0 {
                    check matches PairCheck::ParsePrivateKey { key: due } && due@ == key@
                } else {
                    check == PairCheck::Done(Err(PairError::InvalidCertificate))
                },
                PairCheck::ParsePrivateKey { key: _ } => if status == 0 {
                    check is CheckPair
                } else {
                    check == PairCheck::Done(Err(PairError::InvalidPrivateKey))
                },
                PairCheck::CheckPair => if status == 0 {
                    check == PairCheck::Done(Ok(()))
                } else {
                    check == PairCheck::Done(Err(PairError::Mismatch))
                },
                PairCheck::Done(verdict) => check == PairCheck::Done(verdict),
            },
    {
        match self {
            PairCheck::ParseCertificate { cert: _, key } => if status != 0 {
                PairCheck::Done(Err(PairError::InvalidCertificate))
            } else {
                PairCheck::ParsePrivateKey { key }
            },
            PairCheck::ParsePrivateKey { key: _ } => if status != 0 {
                PairCheck::Done(Err(PairError::InvalidPrivateKey))
            } else {
                PairCheck::CheckPair
            },
            PairCheck::CheckPair => if status != 0 {
                PairCheck::Done(Err(PairError::Mismatch))
            } else {
                PairCheck::Done(Ok(()))
            },
            PairCheck::Done(verdict) => PairCheck::Done(verdict),
        }
    }
}

/// At every stage of a validation, the buffers that are handed to MbedTLS end in
/// their only NUL.
pub proof fn law_pair_buffers(
    cert_pem: Seq<char>,
    key_pem: Seq<char>,
    state: PairState,
    status: int,
)
    requires
        state.wf(),
    ensures
        pair_start(cert_pem, key_pem).wf(),
        pair_next(state, status).wf(),
{
    c_string::law_c_string(cert_pem);
    c_string::law_c_string(key_pem);
}

/// At most three calls lead to the verdict, which is the one for the first failure
/// in the order: a NUL in the certificate, a NUL in the key, parsing the
/// certificate, parsing the key, comparing the two.
pub proof fn law_pair_verdict(
    cert_pem: Seq<char>,
    key_pem: Seq<char>,
    cert_status: int,
    key_status: int,
    pair_status: int,
)
    ensures
        pair_next(
            pair_next(pair_next(pair_start(cert_pem, key_pem), cert_status), key_status),
            pair_status,
        ) == PairState::Done(
            pair_verdict(cert_pem, key_pem, cert_status, key_status, pair_status),
        ),
{
}

/// The certificate is parsed from `cert_pem` and the key from `key_pem`: the buffer on
/// which the certificate parse is due and the one that waits for the key parse end in
/// a NUL, before which they decode to the two texts, whatever their lengths.
pub proof fn law_pair_parses_each_text(cert_pem: Seq<char>, key_pem: Seq<char>, check: PairCheck)
    requires
        check@ == pair_start(cert_pem, key_pem),
    ensures
        !cert_pem.contains('\0') && !key_pem.contains('\0') <==> check is ParseCertificate,
        check matches PairCheck::ParseCertificate { cert, key } ==> {
            &&& cert@ == utf8::encode_utf8(cert_pem).push(0)
            &&& key@ == utf8::encode_utf8(key_pem).push(0)
            &&& cert@.last() == 0
            &&& key@.last() == 0
            &&& utf8::decode_utf8(cert@.drop_last()) == cert_pem
            &&& utf8::decode_utf8(key@.drop_last()) == key_pem
        },
{
    c_string::law_c_string_is_the_text(cert_pem);
    c_string::law_c_string_is_the_text(key_pem);
}

/// A whole validation, from the two texts and the statuses of its calls. Without a NUL
/// in the texts the calls are due one after the other, each only when those before it
/// returned zero, and the key is parsed from `key_pem`; the first failure decides, and
/// after it no call is due.
pub proof fn law_pair_run(
    cert_pem: Seq<char>,
    key_pem: Seq<char>,
    start: PairCheck,
    cert_status: i32,
    second: PairCheck,
    key_status: i32,
    third: PairCheck,
    pair_status: i32,
    end: PairCheck,
)
    requires
        start@ == pair_start(cert_pem, key_pem),
        second@ == pair_next(start@, cert_status as int),
        third@ == pair_next(second@, key_status as int),
        end@ == pair_next(third@, pair_status as int),
    ensures
        second is ParsePrivateKey <==> {
            &&& !cert_pem.contains('\0')
            &&& !key_pem.contains('\0')
            &&& cert_status == 0
        },
        second matches PairCheck::ParsePrivateKey { key } ==> {
            &&& key@ == utf8::encode_utf8(key_pem).push(0)
            &&& utf8::decode_utf8(key@.drop_last()) == key_pem
        },
        third is CheckPair <==> {
            &&& !cert_pem.contains('\0')
            &&& !key_pem.contains('\0')
            &&& cert_status == 0
            &&& key_status == 0
        },
        start is ParseCertificate || start is Done,
        second is ParsePrivateKey || second is Done,
        third is CheckPair || third is Done,
        start matches PairCheck::Done(verdict) ==> end == PairCheck::Done(verdict),
        second matches PairCheck::Done(verdict) ==> end == PairCheck::Done(verdict),
        third matches PairCheck::Done(verdict) ==> end == PairCheck::Done(verdict),
        end == PairCheck::Done(
            if cert_pem.contains('\0') {
                Err(PairError::InvalidCertificate)
            } else if key_pem.contains('\0') {
                Err(PairError::InvalidPrivateKey)
            } else if cert_status != 0 {
                Err(PairError::InvalidCertificate)
            } else if key_status != 0 {
                Err(PairError::InvalidPrivateKey)
            } else if pair_status != 0 {
                Err(PairError::Mismatch)
            } else {
                Ok(())
            },
        ),
{
    law_pair_parses_each_text(cert_pem, key_pem, start);
}

/// A pair is accepted only if neither text holds a NUL and all three calls succeed.
pub proof fn law_pair_accepted(
    cert_pem: Seq<char>,
    key_pem: Seq<char>,
    cert_status: int,
    key_status: int,
    pair_status: int,
)
    ensures
        pair_verdict(cert_pem, key_pem, cert_status, key_status, pair_status) is Ok <==> {
            &&& !cert_pem.contains('\0')
            &&& !key_pem.contains('\0')
            &&& cert_status == 0
            &&& key_status == 0
            &&& pair_status == 0
        },
{
}

} // verus!
