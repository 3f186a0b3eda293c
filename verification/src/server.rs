//! Server TLS configuration from PEM.
//!
//! MbedTLS does the parsing. A [`ServerSetup`] says which of its calls is due, on
//! which buffer, and takes what the call returned; the credentials stand once it is
//! [`ServerSetup::Done`].

use crate::c_string;
use crate::c_string::to_c_string;
use vstd::prelude::*;
use vstd::utf8;

verus! {

/// A parsed certificate with its parsed private key.
#[derive(Debug)]
pub struct Credentials<C, K> {
    pub certificate: C,
    pub private_key: K,
}

/// `mbedtls_rs::Certificate::new` is due on `cert` as PEM; `key` waits.
#[derive(Debug)]
pub struct ParseCertificate {
    pub cert: Vec<u8>,
    pub key: Vec<u8>,
}

/// `mbedtls_rs::PrivateKey::new` is due on `key` as PEM, without a password;
/// `certificate` is parsed.
#[derive(Debug)]
pub struct ParsePrivateKey<C> {
    pub certificate: C,
    pub key: Vec<u8>,
}

/// A configuration under way: the call that is due next, or the credentials that
/// the server session is configured with.
#[derive(Debug)]
pub enum ServerSetup<C, K> {
    ParseCertificate(ParseCertificate),
    ParsePrivateKey(ParsePrivateKey<C>),
    Done(Result<Credentials<C, K>, ()>),
}

/// A [`ServerSetup`] with the buffers as sequences.
pub enum ServerState<C, K> {
    ParseCertificate { cert: Seq<u8>, key: Seq<u8> },
    ParsePrivateKey { certificate: C, key: Seq<u8> },
    Done(Result<Credentials<C, K>, ()>),
}

impl<C, K> View for ServerSetup<C, K> {
    type V = ServerState<C, K>;

    open spec fn view(&self) -> ServerState<C, K> {
        match *self {
            ServerSetup::ParseCertificate(step) => ServerState::ParseCertificate {
                cert: step.cert@,
                key: step.key@,
            },
            ServerSetup::ParsePrivateKey(step) => ServerState::ParsePrivateKey {
                certificate: step.certificate,
                key: step.key@,
            },
            ServerSetup::Done(credentials) => ServerState::Done(credentials),
        }
    }
}

impl<C, K> ServerState<C, K> {
    /// Every buffer that a call takes ends in its only NUL.
    pub open spec fn wf(self) -> bool {
        match self {
            ServerState::ParseCertificate { cert, key } => c_string::is_c_string(cert)
                && c_string::is_c_string(key),
            ServerState::ParsePrivateKey { certificate: _, key } => c_string::is_c_string(key),
            ServerState::Done(_) => true,
        }
    }
}

/// Where a configuration starts. Text with a NUL in it is refused before any call.
pub open spec fn server_start<C, K>(cert_pem: Seq<char>, key_pem: Seq<char>) -> ServerState<C, K> {
    match (c_string::c_string(cert_pem), c_string::c_string(key_pem)) {
        (Some(cert), Some(key)) => ServerState::ParseCertificate { cert, key },
        _ => ServerState::Done(Err(())),
    }
}

/// Where a configuration goes when the certificate has been parsed, or not. It
/// stays where it is unless that is due.
pub open spec fn server_after_certificate<C, K>(
    state: ServerState<C, K>,
    parsed: Option<C>,
) -> ServerState<C, K> {
    match (state, parsed) {
        (
            ServerState::ParseCertificate { cert: _, key },
            Some(certificate),
        ) => ServerState::ParsePrivateKey { certificate, key },
        (ServerState::ParseCertificate { .. }, None) => ServerState::Done(Err(())),
        (other, _) => other,
    }
}

/// Where a configuration goes when the private key has been parsed, or not. It
/// stays where it is unless that is due.
pub open spec fn server_after_private_key<C, K>(
    state: ServerState<C, K>,
    parsed: Option<K>,
) -> ServerState<C, K> {
    match (state, parsed) {
        (
            ServerState::ParsePrivateKey { certificate, key: _ },
            Some(private_key),
        ) => ServerState::Done(Ok(Credentials { certificate, private_key })),
        (ServerState::ParsePrivateKey { .. }, None) => ServerState::Done(Err(())),
        (other, _) => other,
    }
}

/// Starts to build a server-side session configuration from a PEM pair.
pub fn server_config_from_pem<C, K>(cert_pem: &str, key_pem: &str) -> (setup: ServerSetup<C, K>)
    ensures
        setup@ == server_start::<C, K>(cert_pem@, key_pem@),
        cert_pem@.contains('\0') || key_pem@.contains('\0') ==> setup == ServerSetup::<C, K>::Done(
            Err(()),
        ),
        !cert_pem@.contains('\0') && !key_pem@.contains('\0') ==> {
            &&& setup matches ServerSetup::ParseCertificate(step)
            &&& step.cert@ == utf8::encode_utf8(cert_pem@).push(0)
            &&& step.key@ == utf8::encode_utf8(key_pem@).push(0)
        },
{
    let cert: Vec<u8> = match to_c_string(cert_pem) {
        Some(cert) => cert,
        None => return ServerSetup::Done(Err(())),
    };
    let key: Vec<u8> = match to_c_string(key_pem) {
        Some(key) => key,
        None => return ServerSetup::Done(Err(())),
    };
    ServerSetup::ParseCertificate(ParseCertificate { cert, key })
}

impl ParseCertificate {
    /// Goes on with the parsed certificate; any error ends the configuration.
    pub fn resume<C, K, E>(self, parsed: Result<C, E>) -> (setup: ServerSetup<C, K>)
        ensures
            setup@ == server_after_certificate(
                ServerSetup::<C, K>::ParseCertificate(self)@,
                parsed.ok(),
            ),
            match parsed {
                Ok(certificate) => {
                    &&& setup matches ServerSetup::ParsePrivateKey(step)
                    &&& step.certificate == certificate
                    &&& step.key@ == self.key@
                },
                Err(_) => setup == ServerSetup::<C, K>::Done(Err(())),
            },
    {
        match parsed {
            Ok(certificate) => ServerSetup::ParsePrivateKey(
                ParsePrivateKey { certificate, key: self.key },
            ),
            Err(_) => ServerSetup::Done(Err(())),
        }
    }
}

impl<C> ParsePrivateKey<C> {
    /// Goes on with the parsed private key; any error ends the configuration.
    pub fn resume<K, E>(self, parsed: Result<K, E>) -> (setup: ServerSetup<C, K>)
        ensures
            setup@ == server_after_private_key(
                ServerSetup::<C, K>::ParsePrivateKey(self)@,
                parsed.ok(),
            ),
            setup == ServerSetup::<C, K>::Done(
                match parsed {
                    Ok(private_key) => Ok(
                        Credentials { certificate: self.certificate, private_key },
                    ),
                    Err(_) => Err(()),
                },
            ),
    {
        match parsed {
            Ok(private_key) => ServerSetup::Done(
                Ok(Credentials { certificate: self.certificate, private_key }),
            ),
            Err(_) => ServerSetup::Done(Err(())),
        }
    }
}

/// At every stage of a configuration, the buffers that are handed to MbedTLS end in
/// their only NUL.
pub proof fn law_server_buffers<C, K>(
    cert_pem: Seq<char>,
    key_pem: Seq<char>,
    state: ServerState<C, K>,
    certificate: Option<C>,
    private_key: Option<K>,
)
    requires
        state.wf(),
    ensures
        server_start::<C, K>(cert_pem, key_pem).wf(),
        server_after_certificate(state, certificate).wf(),
        server_after_private_key(state, private_key).wf(),
{
    c_string::law_c_string(cert_pem);
    c_string::law_c_string(key_pem);
}

/// A whole configuration, from the two texts and what the two calls return. Without a
/// NUL in the texts the certificate is parsed from `cert_pem` and then, if it is
/// parsed, the private key from `key_pem`: each buffer ends in a NUL, before which it
/// decodes to its text, whatever the lengths of the two. The credentials hold what was
/// parsed, and any failure ends the configuration.
pub proof fn law_server_run<C, K>(
    cert_pem: Seq<char>,
    key_pem: Seq<char>,
    start: ServerSetup<C, K>,
    certificate: Option<C>,
    second: ServerSetup<C, K>,
    private_key: Option<K>,
    end: ServerSetup<C, K>,
)
    requires
        start@ == server_start::<C, K>(cert_pem, key_pem),
        second@ == server_after_certificate(start@, certificate),
        end@ == server_after_private_key(second@, private_key),
    ensures
        start is ParseCertificate <==> !cert_pem.contains('\0') && !key_pem.contains('\0'),
        start matches ServerSetup::ParseCertificate(step) ==> {
            &&& step.cert@ == utf8::encode_utf8(cert_pem).push(0)
            &&& step.key@ == utf8::encode_utf8(key_pem).push(0)
            &&& step.cert@.last() == 0
            &&& utf8::decode_utf8(step.cert@.drop_last()) == cert_pem
        },
        second is ParsePrivateKey <==> start is ParseCertificate && certificate is Some,
        second matches ServerSetup::ParsePrivateKey(step) ==> {
            &&& certificate == Some(step.certificate)
            &&& step.key@ == utf8::encode_utf8(key_pem).push(0)
            &&& step.key@.last() == 0
            &&& utf8::decode_utf8(step.key@.drop_last()) == key_pem
        },
        start is ParseCertificate || start == ServerSetup::<C, K>::Done(Err(())),
        second is ParsePrivateKey || second == ServerSetup::<C, K>::Done(Err(())),
        end == ServerSetup::<C, K>::Done(
            if !cert_pem.contains('\0') && !key_pem.contains('\0') && certificate is Some
                && private_key is Some {
                Ok(Credentials { certificate: certificate->0, private_key: private_key->0 })
            } else {
                Err(())
            },
        ),
{
    c_string::law_c_string_is_the_text(cert_pem);
    c_string::law_c_string_is_the_text(key_pem);
}

/// At most two calls lead to the end, which is the parsed certificate with the
/// parsed private key if neither text holds a NUL and both are parsed, and an error
/// otherwise.
pub proof fn law_server_config<C, K>(
    cert_pem: Seq<char>,
    key_pem: Seq<char>,
    certificate: Option<C>,
    private_key: Option<K>,
)
    ensures
        server_after_private_key(
            server_after_certificate(server_start::<C, K>(cert_pem, key_pem), certificate),
            private_key,
        ) == ServerState::Done(
            if !cert_pem.contains('\0') && !key_pem.contains('\0') && certificate is Some
                && private_key is Some {
                Ok(Credentials { certificate: certificate->0, private_key: private_key->0 })
            } else {
                Err(())
            },
        ),
{
}

} // verus!
