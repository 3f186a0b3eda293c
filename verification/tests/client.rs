use esp_hal_mbedtls::client::{connect_client, ClientConnect, ClientConnectError};

type Connect<'h> = ClientConnect<'h, &'static str, [u8; 4], u16, String, i8, i32>;

/// What MbedTLS and the network answer.
#[derive(Clone)]
struct World {
    ca: Result<&'static str, i32>,
    addresses: Result<Vec<[u8; 4]>, i32>,
    tcp: Result<u16, i8>,
    session: Result<String, i32>,
    handshake: Result<(), i32>,
}

fn fair() -> World {
    World {
        ca: Ok("chain"),
        addresses: Ok(vec![[10, 0, 0, 1], [10, 0, 0, 2]]),
        tcp: Ok(40_000),
        session: Ok(format!("session")),
        handshake: Ok(()),
    }
}

/// Runs a connection and records the operations it asks for.
fn run(host: &[u8], ca_pem: &str, world: World) -> (Vec<String>, Result<String, String>) {
    let mut log = Vec::new();
    let mut connect: Connect = connect_client(host, 443, ca_pem);
    loop {
        connect = match connect {
            ClientConnect::ParseCa(step) => {
                log.push(format!("parse {:?}", step.ca));
                step.resume(world.ca)
            }
            ClientConnect::QueryA(step) => {
                log.push(format!("query {}", step.host));
                step.resume(world.addresses.clone())
            }
            ClientConnect::OpenTcp(step) => {
                log.push(format!("tcp {:?} {}", step.address, step.port));
                step.resume(world.tcp)
            }
            ClientConnect::CreateSession(step) => {
                let session = world.session.clone();
                step.resume_with(|ca_chain, server_name, socket| {
                    log.push(format!("new {} {} {}", ca_chain, server_name, socket));
                    session
                })
            }
            ClientConnect::Negotiate(step) => {
                log.push(format!("connect {}", step.session));
                step.resume(world.handshake)
            }
            ClientConnect::Done(outcome) => {
                return (
                    log,
                    outcome.map_err(|error| match error {
                        ClientConnectError::BadCa => format!("BadCa"),
                        ClientConnectError::Dns => format!("Dns"),
                        ClientConnectError::Tcp(n) => format!("Tcp {}", n),
                        ClientConnectError::Handshake(h) => format!("Handshake {}", h),
                    }),
                )
            }
        };
    }
}

fn steps_and_error(host: &[u8], ca_pem: &str, world: World) -> (usize, String) {
    let (log, outcome) = run(host, ca_pem, world);
    (log.len(), outcome.unwrap_err())
}

#[test]
fn connects_in_five_operations() {
    let (log, outcome) = run(b"example.org", "CA", fair());
    assert_eq!(
        log,
        vec![
            "parse [67, 65, 0]",
            "query example.org",
            "tcp [10, 0, 0, 1] 443",
            "new chain example.org 40000",
            "connect session",
        ]
    );
    assert_eq!(outcome, Ok(format!("session")));
}

#[test]
fn bad_ca_is_refused_before_the_network() {
    assert_eq!(steps_and_error(b"example.org", "C\0A", fair()), (0, format!("BadCa")));
    let world = World { ca: Err(-1), ..fair() };
    assert_eq!(steps_and_error(b"example.org", "CA", world), (1, format!("BadCa")));
}

#[test]
fn bad_ca_goes_before_a_bad_name() {
    let world = World { ca: Err(-1), ..fair() };
    assert_eq!(steps_and_error(b"\xff", "CA", world), (1, format!("BadCa")));
    assert_eq!(steps_and_error(b"\xff", "CA", fair()), (1, format!("Dns")));
}

#[test]
fn names_are_utf8() {
    let (log, _) = run("b\u{fc}cher.example".as_bytes(), "CA", fair());
    assert_eq!(log[1], "query b\u{fc}cher.example");
    // An overlong encoding, a surrogate and a cut sequence.
    for host in [&b"\xc0\xaf"[..], &b"\xed\xa0\x80"[..], &b"a\xe2\x82"[..]] {
        assert_eq!(steps_and_error(host, "CA", fair()), (1, format!("Dns")));
    }
}

#[test]
fn unresolved_name() {
    let world = World { addresses: Err(-1), ..fair() };
    assert_eq!(steps_and_error(b"example.org", "CA", world), (2, format!("Dns")));
    let world = World { addresses: Ok(vec![]), ..fair() };
    assert_eq!(steps_and_error(b"example.org", "CA", world), (2, format!("Dns")));
}

#[test]
fn failed_connection() {
    let world = World { tcp: Err(5), ..fair() };
    assert_eq!(steps_and_error(b"example.org", "CA", world), (3, format!("Tcp 5")));
}

#[test]
fn failed_handshake() {
    let world = World { session: Err(-6), handshake: Err(-7), ..fair() };
    assert_eq!(steps_and_error(b"example.org", "CA", world), (4, format!("Handshake -6")));
    let world = World { handshake: Err(-7), ..fair() };
    assert_eq!(steps_and_error(b"example.org", "CA", world), (5, format!("Handshake -7")));
}
