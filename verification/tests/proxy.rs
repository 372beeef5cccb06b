use thor::cfssl::{Certificate, Pki};
use thor::proxy::{
    authenticate_certificate, get_common_name, is_before, CertTime, ConnectionError, EpochOffset,
    PeerCertificate,
};

fn at(days: i32, secs: i32) -> Option<EpochOffset> {
    Some(EpochOffset { days, secs })
}

fn peer(serial: &str, entries: Vec<Option<&str>>, nb: Option<EpochOffset>, na: Option<EpochOffset>) -> PeerCertificate {
    PeerCertificate {
        subject_entries: entries.into_iter().map(|e| e.map(|s| s.to_string())).collect(),
        serial: serial.to_string(),
        not_before: CertTime { text: "Nov 16 07:57:00 2022 GMT".to_string(), offset: nb },
        not_after: CertTime { text: "Nov 16 07:57:00 2023 GMT".to_string(), offset: na },
    }
}

fn revoked(serial: &str) -> Pki {
    let mut pki = Pki::default();
    pki.update_crl(vec![Certificate {
        serial_number: serial.to_string(),
        authority_key_identifier: String::new(),
        status: "revoked".to_string(),
        common_name: "mallory".to_string(),
    }]);
    pki
}

#[test]
fn no_certificate_is_refused() {
    let r = authenticate_certificate(None, &Pki::default(), Ok(at(19300, 0)));
    assert!(matches!(r, Err(ConnectionError::InvalidCertiicateCert)));
}

#[test]
fn valid_certificate_gives_last_subject_entry() {
    let p = peer("42", vec![Some("NL"), Some("Acme"), Some("device-7")], at(19000, 0), at(20000, 0));
    let r = authenticate_certificate(Some(&p), &revoked("41"), Ok(at(19300, 10)));
    assert_eq!(r.unwrap(), "device-7");
}

#[test]
fn revoked_certificate_is_refused() {
    let p = peer("42", vec![Some("device-7")], at(19000, 0), at(20000, 0));
    let r = authenticate_certificate(Some(&p), &revoked("42"), Ok(at(19300, 0)));
    assert!(matches!(r, Err(ConnectionError::CertificateRevoked)));
    // revocation is checked before the clock
    let r = authenticate_certificate(Some(&p), &revoked("42"), Err("no clock".to_string()));
    assert!(matches!(r, Err(ConnectionError::CertificateRevoked)));
}

#[test]
fn clock_failure_is_reported() {
    let p = peer("42", vec![Some("device-7")], at(19000, 0), at(20000, 0));
    match authenticate_certificate(Some(&p), &Pki::default(), Err("no clock".to_string())) {
        Err(ConnectionError::Ssl(m)) => assert_eq!(m, "no clock"),
        other => panic!("unexpected {:?}", other),
    }
}

#[test]
fn not_yet_valid_and_expired() {
    let p = peer("42", vec![Some("device-7")], at(19000, 100), at(20000, 0));
    match authenticate_certificate(Some(&p), &Pki::default(), Ok(at(19000, 99))) {
        Err(ConnectionError::ClientCertNotYetValid { date }) => {
            assert_eq!(date, "Nov 16 07:57:00 2022 GMT")
        }
        other => panic!("unexpected {:?}", other),
    }
    // the first valid second
    assert!(authenticate_certificate(Some(&p), &Pki::default(), Ok(at(19000, 100))).is_ok());
    // the last valid second
    assert!(authenticate_certificate(Some(&p), &Pki::default(), Ok(at(20000, 0))).is_ok());
    match authenticate_certificate(Some(&p), &Pki::default(), Ok(at(20000, 1))) {
        Err(ConnectionError::ClientCertExpired { date }) => {
            assert_eq!(date, "Nov 16 07:57:00 2023 GMT")
        }
        other => panic!("unexpected {:?}", other),
    }
}

#[test]
fn unreadable_times_are_refused() {
    let p = peer("42", vec![Some("device-7")], None, at(20000, 0));
    let r = authenticate_certificate(Some(&p), &Pki::default(), Ok(at(19300, 0)));
    assert!(matches!(r, Err(ConnectionError::InvalidTimeFormat)));
    let p = peer("42", vec![Some("device-7")], at(19000, 0), None);
    let r = authenticate_certificate(Some(&p), &Pki::default(), Ok(at(19300, 0)));
    assert!(matches!(r, Err(ConnectionError::InvalidTimeFormat)));
    let r = authenticate_certificate(Some(&p), &Pki::default(), Ok(None));
    assert!(matches!(r, Err(ConnectionError::InvalidTimeFormat)));
}

#[test]
fn common_name_fallbacks() {
    assert_eq!(get_common_name(&peer("1", vec![], None, None)), "<Unknown>");
    assert_eq!(get_common_name(&peer("1", vec![Some("a"), None], None, None)), "");
    assert_eq!(get_common_name(&peer("1", vec![None, Some("b")], None, None)), "b");
}

#[test]
fn is_before_compares_whole_seconds() {
    assert!(is_before(at(1, 0), at(0, 86401)).unwrap());
    assert!(!is_before(at(1, 0), at(0, 86400)).unwrap());
    assert!(!is_before(at(-1, -5), at(-1, -6)).unwrap());
    assert!(matches!(is_before(None, at(0, 0)), Err(ConnectionError::InvalidTimeFormat)));
}
