//! Establishment of a client TLS connection.
//!
//! MbedTLS and the network stack do the work. A [`ClientConnect`] says which of their
//! operations is due, on which values, and takes its outcome; the session or the
//! error stands once it is [`ClientConnect::Done`].
//!
//! The types of what the operations return are parameters: `C` a parsed CA chain, `A`
//! an address, `S` a connected socket, `T` a TLS session, `N` an error of the network
//! stack and `H` one of MbedTLS.

use crate::c_string;
use crate::c_string::to_c_string;
use vstd::prelude::*;
use vstd::utf8;

verus! {

/// Failures in DNS/TCP/TLS establishment. Application policy such as "clock not
/// synchronized" or "CA not provisioned" intentionally stays outside this crate.
#[derive(Debug)]
pub enum ClientConnectError<N, H> {
    BadCa,
    Dns,
    Tcp(N),
    Handshake(H),
}

/// `mbedtls_rs::Certificate::new` is due on `ca` as PEM.
#[derive(Debug)]
pub struct ParseCa<'h> {
    pub ca: Vec<u8>,
    pub host: &'h [u8],
    pub port: u16,
}

/// A DNS query for the A records of `host` is due.
#[derive(Debug)]
pub struct QueryA<'h, C> {
    pub ca_chain: C,
    pub host: &'h str,
    pub port: u16,
}

/// A TCP connection to `address` and `port` is due, on a new socket.
#[derive(Debug)]
pub struct OpenTcp<'h, C, A> {
    pub ca_chain: C,
    pub host: &'h str,
    pub address: A,
    pub port: u16,
}

/// `mbedtls_rs::Session::new` is due over `socket`, for a client that trusts
/// `ca_chain` and verifies the server's name to be `server_name`.
#[derive(Debug)]
pub struct CreateSession<'h, C, S> {
    pub ca_chain: C,
    pub server_name: &'h str,
    pub socket: S,
}

/// `mbedtls_rs::Session::connect` is due on `session`.
#[derive(Debug)]
pub struct Negotiate<T> {
    pub session: T,
}

/// A connection under way: the operation that is due next, or the outcome.
#[derive(Debug)]
pub enum ClientConnect<'h, C, A, S, T, N, H> {
    ParseCa(ParseCa<'h>),
    QueryA(QueryA<'h, C>),
    OpenTcp(OpenTcp<'h, C, A>),
    CreateSession(CreateSession<'h, C, S>),
    Negotiate(Negotiate<T>),
    Done(Result<T, ClientConnectError<N, H>>),
}

/// A [`ClientConnect`] with buffers and names as sequences.
pub enum ClientState<C, A, S, T, N, H> {
    ParseCa { ca: Seq<u8>, raw_host: Seq<u8>, port: u16 },
    QueryA { ca_chain: C, host: Seq<char>, port: u16 },
    OpenTcp { ca_chain: C, host: Seq<char>, address: A, port: u16 },
    CreateSession { ca_chain: C, server_name: Seq<char>, socket: S },
    Negotiate { session: T },
    Done(Result<T, ClientConnectError<N, H>>),
}

impl<'h, C, A, S, T, N, H> View for ClientConnect<'h, C, A, S, T, N, H> {
    type V = ClientState<C, A, S, T, N, H>;

    open spec fn view(&self) -> ClientState<C, A, S, T, N, H> {
        match *self {
            ClientConnect::ParseCa(step) => ClientState::ParseCa {
                ca: step.ca@,
                raw_host: step.host@,
                port: step.port,
            },
            ClientConnect::QueryA(step) => ClientState::QueryA {
                ca_chain: step.ca_chain,
                host: step.host@,
                port: step.port,
            },
            ClientConnect::OpenTcp(step) => ClientState::OpenTcp {
                ca_chain: step.ca_chain,
                host: step.host@,
                address: step.address,
                port: step.port,
            },
            ClientConnect::CreateSession(step) => ClientState::CreateSession {
                ca_chain: step.ca_chain,
                server_name: step.server_name@,
                socket: step.socket,
            },
            ClientConnect::Negotiate(step) => ClientState::Negotiate { session: step.session },
            ClientConnect::Done(outcome) => ClientState::Done(outcome),
        }
    }
}

/// Where a connection starts. A CA PEM with a NUL in it is refused at once.
pub open spec fn client_start<C, A, S, T, N, H>(
    host: Seq<u8>,
    port: u16,
    ca_pem: Seq<char>,
) -> ClientState<C, A, S, T, N, H> {
    match c_string::c_string(ca_pem) {
        Some(ca) => ClientState::ParseCa { ca, raw_host: host, port },
        None => ClientState::Done(Err(ClientConnectError::BadCa)),
    }
}

/// Where a connection goes when the CA has been parsed, or not. A name that is not
/// UTF-8 cannot be resolved.
pub open spec fn client_after_ca<C, A, S, T, N, H>(
    state: ClientState<C, A, S, T, N, H>,
    parsed: Option<C>,
) -> ClientState<C, A, S, T, N, H> {
    match (state, parsed) {
        (
            ClientState::ParseCa { ca: _, raw_host, port },
            Some(ca_chain),
        ) => if utf8::valid_utf8(raw_host) {
            ClientState::QueryA { ca_chain, host: utf8::decode_utf8(raw_host), port }
        } else {
            ClientState::Done(Err(ClientConnectError::Dns))
        },
        (ClientState::ParseCa { .. }, None) => ClientState::Done(Err(ClientConnectError::BadCa)),
        (other, _) => other,
    }
}

/// Where a connection goes when the query has been answered, or not: to the first
/// address, if there is one.
pub open spec fn client_after_query<C, A, S, T, N, H>(
    state: ClientState<C, A, S, T, N, H>,
    addresses: Option<Seq<A>>,
) -> ClientState<C, A, S, T, N, H> {
    match state {
        ClientState::QueryA { ca_chain, host, port } => if addresses is Some
            && addresses->0.len() > 0 {
            ClientState::OpenTcp { ca_chain, host, address: addresses->0[0], port }
        } else {
            ClientState::Done(Err(ClientConnectError::Dns))
        },
        other => other,
    }
}

/// Where a connection goes when the socket is connected, or not. The session trusts
/// the parsed CA and verifies the name that was resolved.
pub open spec fn client_after_tcp<C, A, S, T, N, H>(
    state: ClientState<C, A, S, T, N, H>,
    connected: Result<S, N>,
) -> ClientState<C, A, S, T, N, H> {
    match (state, connected) {
        (
            ClientState::OpenTcp { ca_chain, host, address: _, port: _ },
            Ok(socket),
        ) => ClientState::CreateSession { ca_chain, server_name: host, socket },
        (ClientState::OpenTcp { .. }, Err(error)) => ClientState::Done(
            Err(ClientConnectError::Tcp(error)),
        ),
        (other, _) => other,
    }
}

/// Where a connection goes when the session has been created, or not.
pub open spec fn client_after_session<C, A, S, T, N, H>(
    state: ClientState<C, A, S, T, N, H>,
    created: Result<T, H>,
) -> ClientState<C, A, S, T, N, H> {
    match (state, created) {
        (ClientState::CreateSession { .. }, Ok(session)) => ClientState::Negotiate { session },
        (ClientState::CreateSession { .. }, Err(error)) => ClientState::Done(
            Err(ClientConnectError::Handshake(error)),
        ),
        (other, _) => other,
    }
}

/// Where a connection goes when the handshake is complete, or has failed.
pub open spec fn client_after_handshake<C, A, S, T, N, H>(
    state: ClientState<C, A, S, T, N, H>,
    negotiated: Result<(), H>,
) -> ClientState<C, A, S, T, N, H> {
    match (state, negotiated) {
        (ClientState::Negotiate { session }, Ok(())) => ClientState::Done(Ok(session)),
        (ClientState::Negotiate { .. }, Err(error)) => ClientState::Done(
            Err(ClientConnectError::Handshake(error)),
        ),
        (other, _) => other,
    }
}

/// `core::str::from_utf8`.
///
/// Claimed: it succeeds if and only if `bytes` is valid UTF-8, and then gives the
/// text that `bytes` encodes.
#[verifier::external_body]
fn str_from_utf8(bytes: &[u8]) -> (text: Option<&str>)
    ensures
        text is Some <==> utf8::valid_utf8(bytes@),
        text matches Some(chars) ==> chars@ == utf8::decode_utf8(bytes@),
{
    core::str::from_utf8(bytes).ok()
}

/// Starts to resolve, connect and complete a certificate-verifying client TLS
/// handshake. `host` is the server's name without a terminating NUL.
pub fn connect_client<'h, C, A, S, T, N, H>(host: &'h [u8], port: u16, ca_pem: &str) -> (connect:
    ClientConnect<'h, C, A, S, T, N, H>)
    ensures
        connect@ == client_start::<C, A, S, T, N, H>(host@, port, ca_pem@),
        ca_pem@.contains('\0') ==> connect == ClientConnect::<'h, C, A, S, T, N, H>::Done(
            Err(ClientConnectError::BadCa),
        ),
        !ca_pem@.contains('\0') ==> {
            &&& connect matches ClientConnect::ParseCa(step)
            &&& step.ca@ == utf8::encode_utf8(ca_pem@).push(0)
            &&& step.host@ == host@
            &&& step.port == port
        },
{
    match to_c_string(ca_pem) {
        Some(ca) => ClientConnect::ParseCa(ParseCa { ca, host, port }),
        None => ClientConnect::Done(Err(ClientConnectError::BadCa)),
    }
}

impl<'h> ParseCa<'h> {
    /// Goes on with the parsed CA.
    pub fn resume<C, A, S, T, N, H, E>(self, parsed: Result<C, E>) -> (connect: ClientConnect<
        'h,
        C,
        A,
        S,
        T,
        N,
        H,
    >)
        ensures
            connect@ == client_after_ca(
                ClientConnect::<'h, C, A, S, T, N, H>::ParseCa(self)@,
                parsed.ok(),
            ),
            match parsed {
                Ok(ca_chain) => if utf8::valid_utf8(self.host@) {
                    &&& connect matches ClientConnect::QueryA(step)
                    &&& step.ca_chain == ca_chain
                    &&& step.host@ == utf8::decode_utf8(self.host@)
                    &&& step.port == self.port
                } else {
                    connect == ClientConnect::<'h, C, A, S, T, N, H>::Done(
                        Err(ClientConnectError::Dns),
                    )
                },
                Err(_) => connect == ClientConnect::<'h, C, A, S, T, N, H>::Done(
                    Err(ClientConnectError::BadCa),
                ),
            },
    {
        let ca_chain: C = match parsed {
            Ok(ca_chain) => ca_chain,
            Err(_) => return ClientConnect::Done(Err(ClientConnectError::BadCa)),
        };
        match str_from_utf8(self.host) {
            Some(host) => ClientConnect::QueryA(QueryA { ca_chain, host, port: self.port }),
            None => ClientConnect::Done(Err(ClientConnectError::Dns)),
        }
    }
}

impl<'h, C> QueryA<'h, C> {
    /// Goes on with the addresses in the answer.
    pub fn resume<A, S, T, N, H, E>(self, answer: Result<Vec<A>, E>) -> (connect: ClientConnect<
        'h,
        C,
        A,
        S,
        T,
        N,
        H,
    >)
        ensures
            connect@ == client_after_query(
                ClientConnect::<'h, C, A, S, T, N, H>::QueryA(self)@,
                match answer {
                    Ok(addresses) => Some(addresses@),
                    Err(_) => None,
                },
            ),
            match answer {
                Ok(addresses) => if addresses@.len() > 0 {
                    &&& connect matches ClientConnect::OpenTcp(step)
                    &&& step.ca_chain == self.ca_chain
                    &&& step.host@ == self.host@
                    &&& step.address == addresses@[0]
                    &&& step.port == self.port
                } else {
                    connect == ClientConnect::<'h, C, A, S, T, N, H>::Done(
                        Err(ClientConnectError::Dns),
                    )
                },
                Err(_) => connect == ClientConnect::<'h, C, A, S, T, N, H>::Done(
                    Err(ClientConnectError::Dns),
                ),
            },
    {
        let mut addresses: Vec<A> = match answer {
            Ok(addresses) => addresses,
            Err(_) => return ClientConnect::Done(Err(ClientConnectError::Dns)),
        };
        if addresses.len() == 0 {
            return ClientConnect::Done(Err(ClientConnectError::Dns));
        }
        let address: A = addresses.swap_remove(0);
        ClientConnect::OpenTcp(
            OpenTcp { ca_chain: self.ca_chain, host: self.host, address, port: self.port },
        )
    }
}

impl<'h, C, A> OpenTcp<'h, C, A> {
    /// Goes on with the connected socket.
    pub fn resume<S, T, N, H>(self, connected: Result<S, N>) -> (connect: ClientConnect<
        'h,
        C,
        A,
        S,
        T,
        N,
        H,
    >)
        ensures
            connect@ == client_after_tcp(
                ClientConnect::<'h, C, A, S, T, N, H>::OpenTcp(self)@,
                connected,
            ),
            match connected {
                Ok(socket) => {
                    &&& connect matches ClientConnect::CreateSession(step)
                    &&& step.ca_chain == self.ca_chain
                    &&& step.server_name@ == self.host@
                    &&& step.socket == socket
                },
                Err(error) => connect == ClientConnect::<'h, C, A, S, T, N, H>::Done(
                    Err(ClientConnectError::Tcp(error)),
                ),
            },
    {
        match connected {
            Ok(socket) => ClientConnect::CreateSession(
                CreateSession { ca_chain: self.ca_chain, server_name: self.host, socket },
            ),
            Err(error) => ClientConnect::Done(Err(ClientConnectError::Tcp(error))),
        }
    }
}

impl<'h, C, S> CreateSession<'h, C, S> {
    /// Creates the session and goes on with it. `create` takes over the CA chain, the
    /// server's name and the socket.
    pub fn resume_with<A, T, N, H, F: FnOnce(C, &'h str, S) -> Result<T, H>>(
        self,
        create: F,
    ) -> (connect: ClientConnect<'h, C, A, S, T, N, H>)
        requires
            call_requires(create, (self.ca_chain, self.server_name, self.socket)),
        ensures
            exists|created: Result<T, H>| #[trigger]
                call_ensures(create, (self.ca_chain, self.server_name, self.socket), created)
                    && connect@ == client_after_session(
                    ClientConnect::<'h, C, A, S, T, N, H>::CreateSession(self)@,
                    created,
                ) && connect == (match created {
                    Ok(session) => ClientConnect::<'h, C, A, S, T, N, H>::Negotiate(
                        Negotiate { session },
                    ),
                    Err(error) => ClientConnect::Done(Err(ClientConnectError::Handshake(error))),
                }),
    {
        let created: Result<T, H> = create(self.ca_chain, self.server_name, self.socket);
        session_created(created)
    }
}

/// Goes on with the new session.
pub fn session_created<'h, C, A, S, T, N, H>(created: Result<T, H>) -> (connect: ClientConnect<
    'h,
    C,
    A,
    S,
    T,
    N,
    H,
>)
    ensures
        connect@ == match created {
            Ok(session) => ClientState::<C, A, S, T, N, H>::Negotiate { session },
            Err(error) => ClientState::Done(Err(ClientConnectError::Handshake(error))),
        },
        connect == (match created {
            Ok(session) => ClientConnect::<'h, C, A, S, T, N, H>::Negotiate(Negotiate { session }),
            Err(error) => ClientConnect::Done(Err(ClientConnectError::Handshake(error))),
        }),
{
    match created {
        Ok(session) => ClientConnect::Negotiate(Negotiate { session }),
        Err(error) => ClientConnect::Done(Err(ClientConnectError::Handshake(error))),
    }
}

impl<T> Negotiate<T> {
    /// Ends with the session, if its handshake is complete.
    pub fn resume<'h, C, A, S, N, H>(self, negotiated: Result<(), H>) -> (connect: ClientConnect<
        'h,
        C,
        A,
        S,
        T,
        N,
        H,
    >)
        ensures
            connect@ == client_after_handshake(
                ClientConnect::<'h, C, A, S, T, N, H>::Negotiate(self)@,
                negotiated,
            ),
            connect == ClientConnect::<'h, C, A, S, T, N, H>::Done(
                match negotiated {
                    Ok(()) => Ok(self.session),
                    Err(error) => Err(ClientConnectError::Handshake(error)),
                },
            ),
    {
        match negotiated {
            Ok(()) => ClientConnect::Done(Ok(self.session)),
            Err(error) => ClientConnect::Done(Err(ClientConnectError::Handshake(error))),
        }
    }
}

/// The state in which a connection ends up when its operations have the given
/// outcomes, as far as they become due.
pub open spec fn client_end<C, A, S, T, N, H>(
    host: Seq<u8>,
    port: u16,
    ca_pem: Seq<char>,
    ca_chain: Option<C>,
    addresses: Option<Seq<A>>,
    connected: Result<S, N>,
    created: Result<T, H>,
    negotiated: Result<(), H>,
) -> ClientState<C, A, S, T, N, H> {
    let start = client_start::<C, A, S, T, N, H>(host, port, ca_pem);
    let resolving = client_after_ca(start, ca_chain);
    let opening = client_after_query(resolving, addresses);
    let creating = client_after_tcp(opening, connected);
    let negotiating = client_after_session(creating, created);
    client_after_handshake(negotiating, negotiated)
}

/// At most five operations lead to the end. The outcome is the session if all of
/// them succeed, and otherwise the error for the first failure in the order: a NUL
/// in the CA PEM, parsing it, a name that is not UTF-8, resolving the name, no
/// address in the answer, connecting, creating the session, the handshake.
pub proof fn law_client_outcome<C, A, S, T, N, H>(
    host: Seq<u8>,
    port: u16,
    ca_pem: Seq<char>,
    ca_chain: Option<C>,
    addresses: Option<Seq<A>>,
    connected: Result<S, N>,
    created: Result<T, H>,
    negotiated: Result<(), H>,
)
    ensures
        client_end(
            host,
            port,
            ca_pem,
            ca_chain,
            addresses,
            connected,
            created,
            negotiated,
        ) == ClientState::<C, A, S, T, N, H>::Done(
            if ca_pem.contains('\0') || ca_chain is None {
                Err(ClientConnectError::BadCa)
            } else if !utf8::valid_utf8(host) || addresses is None || addresses->0.len() == 0 {
                Err(ClientConnectError::Dns)
            } else if connected is Err {
                Err(ClientConnectError::Tcp(connected->Err_0))
            } else if created is Err {
                Err(ClientConnectError::Handshake(created->Err_0))
            } else if negotiated is Err {
                Err(ClientConnectError::Handshake(negotiated->Err_0))
            } else {
                Ok(created->Ok_0)
            },
        ),
{
}

/// The CA is parsed as it was given: the parse is due if and only if `ca_pem` holds no
/// NUL, and its buffer ends in a NUL, before which it decodes to `ca_pem`. The host and
/// the port wait unchanged.
pub proof fn law_client_parses_the_given_ca<'h, C, A, S, T, N, H>(
    host: Seq<u8>,
    port: u16,
    ca_pem: Seq<char>,
    start: ClientConnect<'h, C, A, S, T, N, H>,
)
    requires
        start@ == client_start::<C, A, S, T, N, H>(host, port, ca_pem),
    ensures
        start is ParseCa <==> !ca_pem.contains('\0'),
        start matches ClientConnect::ParseCa(step) ==> {
            &&& step.ca@ == utf8::encode_utf8(ca_pem).push(0)
            &&& step.ca@.last() == 0
            &&& utf8::decode_utf8(step.ca@.drop_last()) == ca_pem
            &&& step.host@ == host
            &&& step.port == port
        },
        start is ParseCa || start == ClientConnect::<'h, C, A, S, T, N, H>::Done(
            Err(ClientConnectError::BadCa),
        ),
{
    c_string::law_c_string_is_the_text(ca_pem);
}

/// A whole connection, from the host, the port, the CA PEM and the outcomes of the
/// operations. Each operation is due if and only if all before it succeeded, and takes
/// what was given or what they gave: the name resolved and verified is `host` in
/// UTF-8, the address dialled is the first of the answer, at `port`, and the session
/// trusts the parsed CA over the connected socket. The first failure decides.
pub proof fn law_client_run<'h, C, A, S, T, N, H>(
    host: Seq<u8>,
    port: u16,
    ca_pem: Seq<char>,
    start: ClientConnect<'h, C, A, S, T, N, H>,
    ca_chain: Option<C>,
    resolving: ClientConnect<'h, C, A, S, T, N, H>,
    addresses: Option<Seq<A>>,
    opening: ClientConnect<'h, C, A, S, T, N, H>,
    connected: Result<S, N>,
    creating: ClientConnect<'h, C, A, S, T, N, H>,
    created: Result<T, H>,
    negotiating: ClientConnect<'h, C, A, S, T, N, H>,
    negotiated: Result<(), H>,
    end: ClientConnect<'h, C, A, S, T, N, H>,
)
    requires
        start@ == client_start::<C, A, S, T, N, H>(host, port, ca_pem),
        resolving@ == client_after_ca(start@, ca_chain),
        opening@ == client_after_query(resolving@, addresses),
        creating@ == client_after_tcp(opening@, connected),
        negotiating@ == client_after_session(creating@, created),
        end@ == client_after_handshake(negotiating@, negotiated),
    ensures
        resolving is QueryA <==> {
            &&& !ca_pem.contains('\0')
            &&& ca_chain is Some
            &&& utf8::valid_utf8(host)
        },
        resolving matches ClientConnect::QueryA(step) ==> {
            &&& ca_chain == Some(step.ca_chain)
            &&& utf8::encode_utf8(step.host@) == host
            &&& step.port == port
        },
        opening is OpenTcp <==> {
            &&& resolving is QueryA
            &&& addresses is Some
            &&& addresses->0.len() > 0
        },
        opening matches ClientConnect::OpenTcp(step) ==> {
            &&& ca_chain == Some(step.ca_chain)
            &&& utf8::encode_utf8(step.host@) == host
            &&& step.address == addresses->0[0]
            &&& step.port == port
        },
        creating is CreateSession <==> opening is OpenTcp && connected is Ok,
        creating matches ClientConnect::CreateSession(step) ==> {
            &&& ca_chain == Some(step.ca_chain)
            &&& utf8::encode_utf8(step.server_name@) == host
            &&& connected == Ok::<S, N>(step.socket)
        },
        negotiating is Negotiate <==> creating is CreateSession && created is Ok,
        negotiating matches ClientConnect::Negotiate(step) ==> created == Ok::<T, H>(step.session),
        resolving is QueryA || resolving is Done,
        opening is OpenTcp || opening is Done,
        creating is CreateSession || creating is Done,
        negotiating is Negotiate || negotiating is Done,
        start is Done ==> end == start,
        resolving is Done ==> end == resolving,
        opening is Done ==> end == opening,
        creating is Done ==> end == creating,
        negotiating is Done ==> end == negotiating,
        end == ClientConnect::<'h, C, A, S, T, N, H>::Done(
            if ca_pem.contains('\0') || ca_chain is None {
                Err(ClientConnectError::BadCa)
            } else if !utf8::valid_utf8(host) || addresses is None || addresses->0.len() == 0 {
                Err(ClientConnectError::Dns)
            } else if connected is Err {
                Err(ClientConnectError::Tcp(connected->Err_0))
            } else if created is Err {
                Err(ClientConnectError::Handshake(created->Err_0))
            } else if negotiated is Err {
                Err(ClientConnectError::Handshake(negotiated->Err_0))
            } else {
                Ok(created->Ok_0)
            },
        ),
{
    law_client_parses_the_given_ca(host, port, ca_pem, start);
    if utf8::valid_utf8(host) {
        utf8::decode_utf8_encode_utf8(host);
    }
}

/// Nothing is asked of the network before the CA has been parsed, from a buffer that
/// ends in its only NUL; and then the name that is resolved is the one that was
/// given: in UTF-8 it is `host` again.
pub proof fn law_client_parses_ca_first<C, A, S, T, N, H>(
    host: Seq<u8>,
    port: u16,
    ca_pem: Seq<char>,
    parsed: Option<C>,
)
    ensures
        match client_start::<C, A, S, T, N, H>(host, port, ca_pem) {
            ClientState::ParseCa { ca, .. } => c_string::is_c_string(ca),
            state => state is Done,
        },
        match client_after_ca(client_start::<C, A, S, T, N, H>(host, port, ca_pem), parsed) {
            ClientState::QueryA { ca_chain, host: name, port: _ } => parsed == Some(ca_chain)
                && utf8::encode_utf8(name) == host,
            state => state is Done,
        },
{
    c_string::law_c_string(ca_pem);
    if utf8::valid_utf8(host) {
        utf8::decode_utf8_encode_utf8(host);
    }
}

/// The connection goes to the port that was given, at the first address to which
/// the name resolved.
pub proof fn law_client_dials_first_address<C, A, S, T, N, H>(
    host: Seq<u8>,
    port: u16,
    ca_pem: Seq<char>,
    parsed: Option<C>,
    addresses: Option<Seq<A>>,
)
    ensures
        match client_after_query(
            client_after_ca(client_start::<C, A, S, T, N, H>(host, port, ca_pem), parsed),
            addresses,
        ) {
            ClientState::OpenTcp { ca_chain: _, host: _, address, port: dialled } => {
                &&& dialled == port
                &&& addresses is Some
                &&& addresses->0.len() > 0
                &&& address == addresses->0[0]
            },
            state => state is Done,
        },
{
}

/// The session that is created trusts the CA that was given, as it was parsed, and
/// verifies the name that was given: its name in UTF-8 is `host` again.
pub proof fn law_client_verifies_host<C, A, S, T, N, H>(
    host: Seq<u8>,
    port: u16,
    ca_pem: Seq<char>,
    parsed: Option<C>,
    addresses: Option<Seq<A>>,
    connected: Result<S, N>,
)
    ensures
        client_after_tcp(
            client_after_query(
                client_after_ca(client_start::<C, A, S, T, N, H>(host, port, ca_pem), parsed),
                addresses,
            ),
            connected,
        ) matches ClientState::CreateSession { ca_chain, server_name, socket } ==> {
            &&& parsed == Some(ca_chain)
            &&& utf8::encode_utf8(server_name) == host
            &&& connected == Ok::<S, N>(socket)
        },
{
    if utf8::valid_utf8(host) {
        utf8::decode_utf8_encode_utf8(host);
    }
}

} // verus!
