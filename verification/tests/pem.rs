use esp_hal_mbedtls::c_string::to_c_string;
use esp_hal_mbedtls::ca::{validate_ca_pem, CaCheck};
use esp_hal_mbedtls::pair::{validate_cert_key_pair, PairCheck, PairError};
use esp_hal_mbedtls::server::{server_config_from_pem, ServerSetup};

/// Runs a validation and records the calls it asks for.
fn run_pair(cert: &str, key: &str, statuses: [i32; 3]) -> (Vec<String>, Result<(), PairError>) {
    let mut calls = Vec::new();
    let mut check = validate_cert_key_pair(cert, key);
    loop {
        let status = match &check {
            PairCheck::ParseCertificate { cert, .. } => {
                calls.push(format!("cert {:?}", cert));
                statuses[0]
            }
            PairCheck::ParsePrivateKey { key } => {
                calls.push(format!("key {:?}", key));
                statuses[1]
            }
            PairCheck::CheckPair => {
                calls.push(format!("pair"));
                statuses[2]
            }
            PairCheck::Done(verdict) => return (calls, *verdict),
        };
        check = check.resume(status);
    }
}

fn run_server(
    cert: &str,
    key: &str,
    certificate: Result<u8, i32>,
    private_key: Result<&'static str, i32>,
) -> (Vec<Vec<u8>>, Result<(u8, &'static str), ()>) {
    let mut parsed = Vec::new();
    let mut setup: ServerSetup<u8, &'static str> = server_config_from_pem(cert, key);
    loop {
        setup = match setup {
            ServerSetup::ParseCertificate(step) => {
                parsed.push(step.cert.clone());
                step.resume(certificate)
            }
            ServerSetup::ParsePrivateKey(step) => {
                parsed.push(step.key.clone());
                step.resume(private_key)
            }
            ServerSetup::Done(Ok(c)) => return (parsed, Ok((c.certificate, c.private_key))),
            ServerSetup::Done(Err(())) => return (parsed, Err(())),
        };
    }
}

fn run_ca(pem: &str, parsed: Result<u8, i32>) -> (Option<Vec<u8>>, bool) {
    match validate_ca_pem(pem) {
        CaCheck::Parse(step) => {
            let buffer = step.ca.clone();
            match step.resume(parsed) {
                CaCheck::Done(valid) => (Some(buffer), valid),
                CaCheck::Parse(_) => panic!("the call is due once"),
            }
        }
        CaCheck::Done(valid) => (None, valid),
    }
}

#[test]
fn c_string_appends_a_nul() {
    assert_eq!(to_c_string("ab"), Some(vec![b'a', b'b', 0]));
    assert_eq!(to_c_string(""), Some(vec![0]));
    assert_eq!(to_c_string("\u{e9}\u{10000}"), Some(vec![0xc3, 0xa9, 0xf0, 0x90, 0x80, 0x80, 0]));
}

#[test]
fn c_string_refuses_a_nul() {
    assert_eq!(to_c_string("\0"), None);
    assert_eq!(to_c_string("a\0b"), None);
    assert_eq!(to_c_string("ab\0"), None);
}

#[test]
fn c_string_has_one_nul() {
    for text in ["", "x", "-----BEGIN CERTIFICATE-----\n", "\u{7f}\u{80}\u{7ff}\u{800}\u{10ffff}"] {
        let bytes = to_c_string(text).unwrap();
        assert_eq!(bytes.iter().position(|b| *b == 0), Some(bytes.len() - 1));
        assert_eq!(&bytes[..bytes.len() - 1], text.as_bytes());
    }
}

#[test]
fn pair_accepted_after_three_calls() {
    let (calls, verdict) = run_pair("C", "K", [0, 0, 0]);
    assert_eq!(calls, vec!["cert [67, 0]", "key [75, 0]", "pair"]);
    assert_eq!(verdict, Ok(()));
}

#[test]
fn pair_with_a_nul_is_refused_before_any_call() {
    assert_eq!(run_pair("C\0", "K\0", [0; 3]), (vec![], Err(PairError::InvalidCertificate)));
    assert_eq!(run_pair("C", "\0K", [0; 3]), (vec![], Err(PairError::InvalidPrivateKey)));
}

#[test]
fn pair_reports_the_first_failing_call() {
    let (calls, verdict) = run_pair("C", "K", [-1, -1, -1]);
    assert_eq!((calls.len(), verdict), (1, Err(PairError::InvalidCertificate)));
    let (calls, verdict) = run_pair("C", "K", [0, -1, -1]);
    assert_eq!((calls.len(), verdict), (2, Err(PairError::InvalidPrivateKey)));
    let (calls, verdict) = run_pair("C", "K", [0, 0, -1]);
    assert_eq!((calls.len(), verdict), (3, Err(PairError::Mismatch)));
}

#[test]
fn pair_takes_any_status_but_zero_for_a_failure() {
    // A positive status counts the certificates of a chain that were not parsed.
    assert_eq!(run_pair("C", "K", [1, 0, 0]).1, Err(PairError::InvalidCertificate));
    assert_eq!(run_pair("C", "K", [0, i32::MAX, 0]).1, Err(PairError::InvalidPrivateKey));
    assert_eq!(run_pair("C", "K", [0, 0, i32::MIN]).1, Err(PairError::Mismatch));
}

#[test]
fn pair_verdict_stays() {
    let check = validate_cert_key_pair("\0", "K").resume(0).resume(-1);
    assert!(matches!(check, PairCheck::Done(Err(PairError::InvalidCertificate))));
    let check = validate_cert_key_pair("C", "K").resume(0).resume(0).resume(0).resume(-1);
    assert!(matches!(check, PairCheck::Done(Ok(()))));
}

#[test]
fn server_takes_both_parsed_values() {
    let (parsed, result) = run_server("C", "K", Ok(7), Ok("key"));
    assert_eq!(parsed, vec![vec![b'C', 0], vec![b'K', 0]]);
    assert_eq!(result, Ok((7, "key")));
}

#[test]
fn server_fails_on_the_first_error() {
    assert_eq!(run_server("C\0", "K", Ok(7), Ok("key")), (vec![], Err(())));
    assert_eq!(run_server("C", "K\0", Ok(7), Ok("key")), (vec![], Err(())));
    let (parsed, result) = run_server("C", "K", Err(-1), Ok("key"));
    assert_eq!((parsed.len(), result), (1, Err(())));
    let (parsed, result) = run_server("C", "K", Ok(7), Err(-1));
    assert_eq!((parsed.len(), result), (2, Err(())));
}

#[test]
fn ca_is_valid_if_it_parses() {
    assert_eq!(run_ca("CA", Ok(1)), (Some(vec![b'C', b'A', 0]), true));
    assert_eq!(run_ca("CA", Err(-1)), (Some(vec![b'C', b'A', 0]), false));
    assert_eq!(run_ca("C\0A", Ok(1)), (None, false));
}
