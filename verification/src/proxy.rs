use vstd::prelude::*;

use crate::cfssl::Pki;

verus! {

/// Why a client connection was refused or dropped.
#[derive(Debug, Clone)]
pub enum ConnectionError {
    /// The client presented no certificate.
    InvalidCertiicateCert,
    /// The client's certificate is on the revocation list.
    CertificateRevoked,
    /// A validity date of the certificate could not be compared with the clock.
    InvalidTimeFormat,
    /// The certificate's validity period has not begun.
    ClientCertNotYetValid { date: String },
    /// The certificate's validity period is over.
    ClientCertExpired { date: String },
    /// The TLS library reported an error.
    Ssl(String),
    /// A socket reported an error.
    Io(String),
}

/// A moment as the TLS library reports it: its distance from the Unix epoch
/// in whole days and remaining seconds, both of the same sign.
#[derive(Debug, Clone, Copy)]
pub struct EpochOffset {
    pub days: i32,
    pub secs: i32,
}

impl EpochOffset {
    /// The distance from the Unix epoch in seconds.
    pub open spec fn seconds(self) -> int {
        self.days * 86400 + self.secs
    }

    fn to_seconds(&self) -> (r: i64)
        ensures
            r == self.seconds(),
    {
        self.days as i64 * 86400 + self.secs as i64
    }
}

/// One validity bound of a certificate.
#[derive(Debug, Clone)]
pub struct CertTime {
    /// The date as the TLS library prints it.
    pub text: String,
    /// The date as an offset from the epoch, when the TLS library could
    /// compute one.
    pub offset: Option<EpochOffset>,
}

/// What authentication reads of a client's certificate.
#[derive(Debug, Clone)]
pub struct PeerCertificate {
    /// The data of each subject-name entry, in order: its text where it is
    /// UTF-8, `None` where it is not.
    pub subject_entries: Vec<Option<String>>,
    /// The serial number in decimal.
    pub serial: String,
    pub not_before: CertTime,
    pub not_after: CertTime,
}

/// The identity taken from a certificate's subject: the text of its last
/// entry, empty where that entry is not UTF-8, and `<Unknown>` where the
/// subject has no entry.
pub open spec fn common_name_of(entries: Seq<Option<String>>) -> Seq<char> {
    if entries.len() == 0 {
        "<Unknown>"@
    } else {
        match entries.last() {
            Some(s) => s@,
            None => Seq::<char>::empty(),
        }
    }
}

/// The identity taken from a certificate's subject (see [`common_name_of`]).
pub fn get_common_name(peer: &PeerCertificate) -> (r: String)
    ensures
        r@ == common_name_of(peer.subject_entries@),
{
    let n = peer.subject_entries.len();
    if n == 0 {
        String::from_str("<Unknown>")
    } else {
        match &peer.subject_entries[n - 1] {
            Some(s) => s.clone(),
            None => String::new(),
        }
    }
}

/// The identity is the text of the subject's last entry, however many
/// entries come before it; a last entry that is not UTF-8 gives an empty
/// identity, and a subject without entries gives `<Unknown>`.
pub proof fn identity_is_last_subject_entry(entries: Seq<Option<String>>, last: Option<String>)
    ensures
        last matches Some(s) ==> common_name_of(entries.push(last)) == s@,
        last is None ==> common_name_of(entries.push(last)) == Seq::<char>::empty(),
        common_name_of(Seq::<Option<String>>::empty()) == "<Unknown>"@,
{
}

/// Whether `y` lies strictly after `x`; an error where either moment is
/// unknown.
pub fn is_before(x: Option<EpochOffset>, y: Option<EpochOffset>) -> (r: Result<bool, ConnectionError>)
    ensures
        match (x, y) {
            (Some(a), Some(b)) => r == Ok::<bool, ConnectionError>(a.seconds() < b.seconds()),
            _ => r matches Err(ConnectionError::InvalidTimeFormat),
        },
{
    match (x, y) {
        (Some(a), Some(b)) => Ok(a.to_seconds() < b.to_seconds()),
        _ => Err(ConnectionError::InvalidTimeFormat),
    }
}

/// Checks a certificate's validity period against `now`.
pub fn is_valid_time(peer: &PeerCertificate, now: Option<EpochOffset>) -> (r: Result<(), ConnectionError>)
    ensures
        valid_time_outcome(peer, now, r),
{
    if is_before(now, peer.not_before.offset)? {
        return Err(ConnectionError::ClientCertNotYetValid { date: peer.not_before.text.clone() });
    }
    if is_before(peer.not_after.offset, now)? {
        return Err(ConnectionError::ClientCertExpired { date: peer.not_after.text.clone() });
    }
    Ok(())
}

/// The outcome of checking `peer`'s validity period against `now`.
pub open spec fn valid_time_outcome(
    peer: &PeerCertificate,
    now: Option<EpochOffset>,
    r: Result<(), ConnectionError>,
) -> bool {
    if now is None || peer.not_before.offset is None {
        r matches Err(ConnectionError::InvalidTimeFormat)
    } else if now.unwrap().seconds() < peer.not_before.offset.unwrap().seconds() {
        r matches Err(ConnectionError::ClientCertNotYetValid { date }) && date@
            == peer.not_before.text@
    } else if peer.not_after.offset is None {
        r matches Err(ConnectionError::InvalidTimeFormat)
    } else if peer.not_after.offset.unwrap().seconds() < now.unwrap().seconds() {
        r matches Err(ConnectionError::ClientCertExpired { date }) && date@ == peer.not_after.text@
    } else {
        r is Ok
    }
}

/// Decides whether a client may connect, and under which identity.
///
/// `peer` is the certificate the client presented, if any; `crl` holds the
/// revocation list; `now` is the current time as the TLS library gives it:
/// an error message where it could not produce the time, `None` where it
/// produced one that cannot be placed on the epoch.
pub fn authenticate_certificate(
    peer: Option<&PeerCertificate>,
    crl: &Pki,
    now: Result<Option<EpochOffset>, String>,
) -> (r: Result<String, ConnectionError>)
    ensures
        match peer {
            None => r matches Err(ConnectionError::InvalidCertiicateCert),
            Some(p) => if crl.revoked().dom().contains(p.serial@) {
                r matches Err(ConnectionError::CertificateRevoked)
            } else {
                match now {
                    Err(m) => r matches Err(ConnectionError::Ssl(e)) && e@ == m@,
                    Ok(t) => {
                        let checked: Result<(), ConnectionError> = match r {
                            Ok(_) => Ok(()),
                            Err(e) => Err(e),
                        };
                        &&& valid_time_outcome(p, t, checked)
                        &&& r matches Ok(name) ==> name@ == common_name_of(p.subject_entries@)
                    },
                }
            },
        },
{
    match peer {
        None => Err(ConnectionError::InvalidCertiicateCert),
        Some(p) => {
            let common_name = get_common_name(p);
            if crl.contains_key(&p.serial) {
                return Err(ConnectionError::CertificateRevoked);
            }
            let now = match now {
                Ok(t) => t,
                Err(m) => {
                    return Err(ConnectionError::Ssl(m));
                },
            };
            match is_valid_time(p, now) {
                Ok(_) => Ok(common_name),
                Err(e) => Err(e),
            }
        },
    }
}

} // verus!
