//! Small integration layer between `esp-hal` and `mbedtls-rs`: the decisions and the
//! computations, each with a contract that Verus proves.
//!
//! - [`wall_clock`] breaks Unix time down for X.509 date checks, over the Gregorian
//!   calendar of [`calendar`];
//! - [`timer`] turns monotonic clock ticks into milliseconds;
//! - [`rng`] assembles words from random bytes;
//! - [`pair`] decides whether a certificate and a private key form a pair;
//! - [`server`] builds the credentials of a server from PEM;
//! - [`ca`] decides whether a CA PEM is valid;
//! - [`client`] takes a client from a host name to a verified TLS session;
//! - [`c_string`] makes the NUL-terminated buffers that MbedTLS parses.
//!
//! Where MbedTLS or the network has to act, a state says which operation is due and
//! on which values, and is resumed with the outcome. The crate owns no certificate
//! persistence, NVS layout, SNTP policy, HTTP routes or reconnect orchestration.

pub mod c_string;
pub mod ca;
pub mod calendar;
pub mod client;
pub mod pair;
pub mod rng;
pub mod server;
pub mod timer;
pub mod wall_clock;

pub use crate::ca::validate_ca_pem;
pub use crate::client::{connect_client, ClientConnectError};
pub use crate::pair::{validate_cert_key_pair, PairError};
pub use crate::server::server_config_from_pem;
pub use crate::wall_clock::{epoch_to_tm, Tm, WallClock};
