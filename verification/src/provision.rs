use vstd::prelude::*;

use crate::cfssl::{
    certinfo_url, is_pkcs8_pem, newcert_url, same_request, starts_with_pkcs8_header, unescape_newlines, CaSource, Definition, Pki, Request,
};
use crate::text::{from_utf8, replaced, utf8_decoding};
use crate::time::{parse_rfc3339, rfc3339_moment, Timestamp};

verus! {

/// Where provisioning stands.
#[derive(Debug)]
pub enum Phase {
    /// Waiting to learn whether the certificate and key files exist.
    CheckingPaths,
    /// Waiting for the stored certificate.
    ReadingCertificate,
    /// Waiting for the CA's description of the stored certificate.
    AwaitingCertInfo { certificate: String },
    /// Waiting for the stored private key.
    ReadingPrivateKey { certificate: String },
    /// Waiting for the CA certificate; `renewing` tells whether a new
    /// certificate was just issued.
    AwaitingCa { renewing: bool },
    /// Waiting for the stored chain bundle.
    ReadingBundle,
    /// Waiting for a newly issued certificate and key.
    AwaitingNewCert,
    /// Waiting for the issued key in PKCS#8 form.
    ConvertingKey,
    /// Waiting for the new certificate to be stored.
    WritingCertificate,
    /// Waiting for the new private key to be stored.
    WritingPrivateKey,
    /// Waiting for the new chain bundle to be stored.
    WritingBundle,
    /// Provisioning is complete.
    Done,
}

/// What provisioning asks its driver to do next.
#[derive(Debug)]
pub enum ProvisionAction {
    /// Report whether these two files exist.
    CheckPaths { certificate: String, private_key: String },
    /// Report the text of this file.
    ReadFile { path: String },
    /// Post `{"certificate": certificate}` to `url` and report the
    /// certificate's `not_after`, with the current time.
    RequestCertInfo { url: String, certificate: String },
    /// Post `{"request": request, "profile": profile}` to `url` and report
    /// the issued certificate and private key.
    RequestNewCert { url: String, request: Request, profile: String },
    /// Report the CA certificate's PEM bytes.
    LoadCa { source: CaSource },
    /// Report what `Pki::convert_key` gives for this issued private key.
    ConvertKey { pem: String },
    /// Store `contents` in the file at `path`.
    WriteFile { path: String, contents: String },
    /// Nothing more.
    Done,
}

/// What the driver reports back.
#[derive(Debug)]
pub enum ProvisionEvent {
    PathsChecked { certificate_exists: bool, private_key_exists: bool },
    FileRead { contents: String },
    CertInfo { not_after: String, now: Timestamp },
    NewCert { certificate: String, private_key: String },
    CaLoaded { pem: Vec<u8> },
    KeyConverted { pkcs8: Vec<u8> },
    FileWritten,
}

/// Why provisioning failed.
#[derive(Debug)]
pub enum ProvisionError {
    /// The CA described the certificate with a date that is not RFC 3339.
    InvalidDate,
    /// Bytes that should be text are not UTF-8.
    InvalidUtf8,
    /// An event came that the current phase does not wait for.
    OutOfOrder,
}

/// Provisioning of the proxy's key material from a CFSSL definition: reuse
/// the stored certificate while the CA says it is valid, else have a new one
/// issued and store it.
pub struct Provisioning {
    definition: Definition,
    bundle: bool,
    remote: String,
    phase: Phase,
}

/// The action that asks the CA for a new certificate.
pub open spec fn asks_new_cert(s: Provisioning, a: ProvisionAction) -> bool {
    a matches ProvisionAction::RequestNewCert { url, request, profile } && url@ == s.remote()@
        + "/api/v1/cfssl/newcert"@ && same_request(request, s.definition().request) && profile@
        == s.definition().profiles.cfssl.profile@
}

/// The action that reads the file at `path`.
pub open spec fn reads(a: ProvisionAction, path: Seq<char>) -> bool {
    a matches ProvisionAction::ReadFile { path: p } && p@ == path
}

/// The action that stores `contents` at `path`.
pub open spec fn writes(a: ProvisionAction, path: Seq<char>, contents: Seq<char>) -> bool {
    a matches ProvisionAction::WriteFile { path: p, contents: c } && p@ == path && c@ == contents
}

/// The action that loads the CA certificate from the CFSSL service.
pub open spec fn loads_remote_ca(a: ProvisionAction) -> bool {
    a matches ProvisionAction::LoadCa { source } && source is Remote
}

/// `p1` is `p0` with the certificate and key locations of definition `d`.
pub open spec fn paths_installed(p0: Pki, p1: Pki, d: Definition) -> bool {
    &&& p1.cert_path@ == d.profiles.paths.certificate@
    &&& p1.key_path@ == d.profiles.paths.private_key@
    &&& p1.certificate == p0.certificate
    &&& p1.private_key == p0.private_key
    &&& p1.ca_certificate == p0.ca_certificate
    &&& p1.bundle == p0.bundle
    &&& p1.bundle_path == p0.bundle_path
    &&& p1.crl == p0.crl
}

/// The result of one step of provisioning, from phase `s0.phase()` and pki
/// `p0` on event `e`, to phase `s1.phase()` and pki `p1`, answering `r`.
/// A step that fails stays in the phase it was taken in.
pub open spec fn stepped(
    s0: Provisioning,
    s1: Provisioning,
    p0: Pki,
    p1: Pki,
    e: ProvisionEvent,
    r: Result<ProvisionAction, ProvisionError>,
) -> bool {
    let d = s0.definition();
    let paths = d.profiles.paths;
    let out_of_order = r matches Err(ProvisionError::OutOfOrder) && p1 == p0;
    &&& r is Err ==> s1.phase() == s0.phase()
    &&& match s0.phase() {
        Phase::CheckingPaths => match e {
            ProvisionEvent::PathsChecked { certificate_exists, private_key_exists } => {
                &&& p1 == p0
                &&& if certificate_exists && private_key_exists {
                    s1.phase() is ReadingCertificate && (r matches Ok(a) && reads(
                        a,
                        paths.certificate@,
                    ))
                } else {
                    s1.phase() is AwaitingNewCert && (r matches Ok(a) && asks_new_cert(s0, a))
                }
            },
            _ => out_of_order,
        },
        Phase::ReadingCertificate => match e {
            ProvisionEvent::FileRead { contents } => {
                let cert = replaced(contents@, "\\n"@, "\n"@);
                &&& p1 == p0
                &&& s1.phase() matches Phase::AwaitingCertInfo { certificate } && certificate@ == cert
                &&& r matches Ok(ProvisionAction::RequestCertInfo { url, certificate }) && url@
                    == s0.remote()@ + "/api/v1/cfssl/certinfo"@ && certificate@ == cert
            },
            _ => out_of_order,
        },
        Phase::AwaitingCertInfo { certificate } => match e {
            ProvisionEvent::CertInfo { not_after, now } => {
                &&& p1 == p0
                &&& match rfc3339_moment(not_after@) {
                    None => r matches Err(ProvisionError::InvalidDate),
                    Some(m) => if (Timestamp { secs: m.0, nanos: m.1 }).spec_earlier(now) {
                        s1.phase() is AwaitingNewCert && (r matches Ok(a) && asks_new_cert(s0, a))
                    } else {
                        &&& s1.phase() matches Phase::ReadingPrivateKey { certificate: c }
                            && c == certificate
                        &&& r matches Ok(a) && reads(a, paths.private_key@)
                    },
                }
            },
            _ => out_of_order,
        },
        Phase::ReadingPrivateKey { certificate } => match e {
            ProvisionEvent::FileRead { contents } => {
                &&& p1.certificate == certificate
                &&& p1.private_key == contents
                &&& p1.ca_certificate == p0.ca_certificate
                &&& p1.bundle == p0.bundle
                &&& p1.cert_path == p0.cert_path
                &&& p1.key_path == p0.key_path
                &&& p1.bundle_path == p0.bundle_path
                &&& p1.crl == p0.crl
                &&& s1.phase() matches Phase::AwaitingCa { renewing } && !renewing
                &&& r matches Ok(a) && loads_remote_ca(a)
            },
            _ => out_of_order,
        },
        Phase::AwaitingCa { renewing } => match e {
            ProvisionEvent::CaLoaded { pem } => match utf8_decoding(pem@) {
                None => r matches Err(ProvisionError::InvalidUtf8) && p1 == p0,
                Some(ca) => {
                    &&& p1.ca_certificate@ == ca
                    &&& p1.certificate == p0.certificate
                    &&& p1.private_key == p0.private_key
                    &&& p1.cert_path == p0.cert_path
                    &&& p1.key_path == p0.key_path
                    &&& p1.bundle_path == p0.bundle_path
                    &&& p1.crl == p0.crl
                    &&& if renewing {
                        &&& p1.bundle@ == p0.certificate@ + ca
                        &&& s1.phase() is WritingBundle
                        &&& r matches Ok(a) && writes(a, paths.bundle@, p1.bundle@)
                    } else {
                        &&& p1.bundle == p0.bundle
                        &&& if s0.bundle() {
                            s1.phase() is ReadingBundle && (r matches Ok(a) && reads(
                                a,
                                paths.bundle@,
                            ))
                        } else {
                            s1.phase() is Done && (r matches Ok(ProvisionAction::Done))
                        }
                    }
                },
            },
            _ => out_of_order,
        },
        Phase::ReadingBundle => match e {
            ProvisionEvent::FileRead { contents } => {
                &&& p1.bundle == contents
                &&& p1.bundle_path@ == paths.bundle@
                &&& p1.certificate == p0.certificate
                &&& p1.private_key == p0.private_key
                &&& p1.ca_certificate == p0.ca_certificate
                &&& p1.cert_path == p0.cert_path
                &&& p1.key_path == p0.key_path
                &&& p1.crl == p0.crl
                &&& s1.phase() is Done
                &&& r matches Ok(ProvisionAction::Done)
            },
            _ => out_of_order,
        },
        Phase::AwaitingNewCert => match e {
            ProvisionEvent::NewCert { certificate, private_key } => {
                &&& p1.certificate == certificate
                &&& p1.private_key == p0.private_key
                &&& p1.ca_certificate == p0.ca_certificate
                &&& p1.bundle == p0.bundle
                &&& p1.cert_path == p0.cert_path
                &&& p1.key_path == p0.key_path
                &&& p1.bundle_path == p0.bundle_path
                &&& p1.crl == p0.crl
                &&& s1.phase() is ConvertingKey
                &&& r matches Ok(ProvisionAction::ConvertKey { pem }) && pem == private_key
            },
            _ => out_of_order,
        },
        Phase::ConvertingKey => match e {
            ProvisionEvent::KeyConverted { pkcs8 } => match utf8_decoding(pkcs8@) {
                None => r matches Err(ProvisionError::InvalidUtf8) && p1 == p0,
                Some(key) => {
                    &&& p1.private_key@ == key
                    &&& vstd::utf8::encode_utf8(p1.private_key@) == pkcs8@
                    &&& p1.certificate == p0.certificate
                    &&& p1.ca_certificate == p0.ca_certificate
                    &&& p1.bundle == p0.bundle
                    &&& p1.cert_path == p0.cert_path
                    &&& p1.key_path == p0.key_path
                    &&& p1.bundle_path == p0.bundle_path
                    &&& p1.crl == p0.crl
                    &&& s1.phase() is WritingCertificate
                    &&& r matches Ok(a) && writes(a, paths.certificate@, p0.certificate@)
                },
            },
            _ => out_of_order,
        },
        Phase::WritingCertificate => match e {
            ProvisionEvent::FileWritten => {
                &&& p1 == p0
                &&& s1.phase() is WritingPrivateKey
                &&& r matches Ok(a) && writes(a, paths.private_key@, p0.private_key@)
            },
            _ => out_of_order,
        },
        Phase::WritingPrivateKey => match e {
            ProvisionEvent::FileWritten => if s0.bundle() {
                &&& p1 == p0
                &&& s1.phase() matches Phase::AwaitingCa { renewing } && renewing
                &&& r matches Ok(a) && loads_remote_ca(a)
            } else {
                &&& paths_installed(p0, p1, d)
                &&& s1.phase() is Done
                &&& r matches Ok(ProvisionAction::Done)
            },
            _ => out_of_order,
        },
        Phase::WritingBundle => match e {
            ProvisionEvent::FileWritten => {
                &&& p1.bundle_path@ == paths.bundle@
                &&& p1.cert_path@ == paths.certificate@
                &&& p1.key_path@ == paths.private_key@
                &&& p1.certificate == p0.certificate
                &&& p1.private_key == p0.private_key
                &&& p1.ca_certificate == p0.ca_certificate
                &&& p1.bundle == p0.bundle
                &&& p1.crl == p0.crl
                &&& s1.phase() is Done
                &&& r matches Ok(ProvisionAction::Done)
            },
            _ => out_of_order,
        },
        Phase::Done => out_of_order,
    }
}

impl Provisioning {
    /// The definition being provisioned.
    pub closed spec fn definition(self) -> Definition {
        self.definition
    }

    /// Whether a chain bundle is provisioned too.
    pub closed spec fn bundle(self) -> bool {
        self.bundle
    }

    /// The CFSSL address in use.
    pub closed spec fn remote(self) -> String {
        self.remote
    }

    /// Where provisioning stands.
    pub closed spec fn phase(self) -> Phase {
        self.phase
    }

    /// Only a provisioning that wants a bundle waits for one, or for the CA
    /// certificate to build one.
    #[verifier::type_invariant]
    spec fn bundle_phases_need_bundle(self) -> bool {
        &&& (self.phase matches Phase::AwaitingCa { renewing } && renewing) ==> self.bundle
        &&& self.phase is ReadingBundle ==> self.bundle
        &&& self.phase is WritingBundle ==> self.bundle
    }

    /// Whether provisioning is complete.
    pub fn is_done(&self) -> (r: bool)
        ensures
            r == (self.phase() is Done),
    {
        match self.phase {
            Phase::Done => true,
            _ => false,
        }
    }

    /// Starts provisioning `pki` from `definition`: records the certificate
    /// and key locations and asks whether those files exist.
    /// `environment_address` is the value of `CFSSL_ADDRESS`, if set.
    pub fn start(
        pki: &mut Pki,
        definition: Definition,
        bundle: bool,
        environment_address: Option<String>,
    ) -> (r: (Provisioning, ProvisionAction))
        ensures
            paths_installed(*old(pki), *final(pki), definition),
            r.0.definition() == definition,
            r.0.bundle() == bundle,
            r.0.remote()@ == match environment_address {
                Some(a) => a@,
                None => definition.profiles.cfssl.remote@,
            },
            r.0.phase() is CheckingPaths,
            r.1 matches ProvisionAction::CheckPaths { certificate, private_key }
                && certificate@ == definition.profiles.paths.certificate@ && private_key@
                == definition.profiles.paths.private_key@,
    {
        pki.cert_path = definition.profiles.paths.certificate.clone();
        pki.key_path = definition.profiles.paths.private_key.clone();
        let remote = definition.profiles.cfssl.get_remote(environment_address);
        let action = ProvisionAction::CheckPaths {
            certificate: definition.profiles.paths.certificate.clone(),
            private_key: definition.profiles.paths.private_key.clone(),
        };
        (Provisioning { definition, bundle, remote, phase: Phase::CheckingPaths }, action)
    }

    fn new_cert_request(&self) -> (r: ProvisionAction)
        ensures
            asks_new_cert(*self, r),
    {
        ProvisionAction::RequestNewCert {
            url: newcert_url(self.remote.as_str()),
            request: self.definition.request.duplicate(),
            profile: self.definition.profiles.cfssl.profile.clone(),
        }
    }

    /// Takes in what the driver reports and says what to do next.
    pub fn step(&mut self, pki: &mut Pki, event: ProvisionEvent) -> (r: Result<
        ProvisionAction,
        ProvisionError,
    >)
        ensures
            stepped(*old(self), *final(self), *old(pki), *final(pki), event, r),
            final(self).definition() == old(self).definition(),
            final(self).bundle() == old(self).bundle(),
            final(self).remote() == old(self).remote(),
    {
        proof {
            use_type_invariant(&*self);
        }
        let mut phase = Phase::Done;
        std::mem::swap(&mut phase, &mut self.phase);
        match phase {
            Phase::CheckingPaths => match event {
                ProvisionEvent::PathsChecked { certificate_exists, private_key_exists } => {
                    if certificate_exists && private_key_exists {
                        self.phase = Phase::ReadingCertificate;
                        Ok(
                            ProvisionAction::ReadFile {
                                path: self.definition.profiles.paths.certificate.clone(),
                            },
                        )
                    } else {
                        self.phase = Phase::AwaitingNewCert;
                        Ok(self.new_cert_request())
                    }
                },
                _ => {
                    self.phase = phase;
                    Err(ProvisionError::OutOfOrder)
                },
            },
            Phase::ReadingCertificate => match event {
                ProvisionEvent::FileRead { contents } => {
                    let cert = unescape_newlines(contents.as_str());
                    let action = ProvisionAction::RequestCertInfo {
                        url: certinfo_url(self.remote.as_str()),
                        certificate: cert.clone(),
                    };
                    self.phase = Phase::AwaitingCertInfo { certificate: cert };
                    Ok(action)
                },
                _ => {
                    self.phase = phase;
                    Err(ProvisionError::OutOfOrder)
                },
            },
            Phase::AwaitingCertInfo { certificate } => match event {
                ProvisionEvent::CertInfo { not_after, now } => {
                    match parse_rfc3339(not_after.as_str()) {
                        None => {
                            self.phase = Phase::AwaitingCertInfo { certificate };
                            Err(ProvisionError::InvalidDate)
                        },
                        Some(after) => {
                            if after.is_earlier_than(&now) {
                                self.phase = Phase::AwaitingNewCert;
                                Ok(self.new_cert_request())
                            } else {
                                self.phase = Phase::ReadingPrivateKey { certificate };
                                Ok(
                                    ProvisionAction::ReadFile {
                                        path: self.definition.profiles.paths.private_key.clone(),
                                    },
                                )
                            }
                        },
                    }
                },
                _ => {
                    self.phase = Phase::AwaitingCertInfo { certificate };
                    Err(ProvisionError::OutOfOrder)
                },
            },
            Phase::ReadingPrivateKey { certificate } => match event {
                ProvisionEvent::FileRead { contents } => {
                    pki.certificate = certificate;
                    pki.private_key = contents;
                    self.phase = Phase::AwaitingCa { renewing: false };
                    Ok(ProvisionAction::LoadCa { source: CaSource::Remote })
                },
                _ => {
                    self.phase = Phase::ReadingPrivateKey { certificate };
                    Err(ProvisionError::OutOfOrder)
                },
            },
            Phase::AwaitingCa { renewing } => match event {
                ProvisionEvent::CaLoaded { pem } => {
                    if renewing {
                        match pki.get_cert_chain_bundle(pem) {
                            Some(b) => {
                                pki.bundle = b;
                            },
                            None => {
                                self.phase = Phase::AwaitingCa { renewing };
                                return Err(ProvisionError::InvalidUtf8);
                            },
                        }
                    } else if !pki.install_ca_certificate(pem) {
                        self.phase = Phase::AwaitingCa { renewing };
                        return Err(ProvisionError::InvalidUtf8);
                    }
                    if renewing {
                        self.phase = Phase::WritingBundle;
                        Ok(
                            ProvisionAction::WriteFile {
                                path: self.definition.profiles.paths.bundle.clone(),
                                contents: pki.bundle.clone(),
                            },
                        )
                    } else if self.bundle {
                        self.phase = Phase::ReadingBundle;
                        Ok(
                            ProvisionAction::ReadFile {
                                path: self.definition.profiles.paths.bundle.clone(),
                            },
                        )
                    } else {
                        self.phase = Phase::Done;
                        Ok(ProvisionAction::Done)
                    }
                },
                _ => {
                    self.phase = Phase::AwaitingCa { renewing };
                    Err(ProvisionError::OutOfOrder)
                },
            },
            Phase::ReadingBundle => match event {
                ProvisionEvent::FileRead { contents } => {
                    pki.bundle = contents;
                    pki.bundle_path = self.definition.profiles.paths.bundle.clone();
                    self.phase = Phase::Done;
                    Ok(ProvisionAction::Done)
                },
                _ => {
                    self.phase = phase;
                    Err(ProvisionError::OutOfOrder)
                },
            },
            Phase::AwaitingNewCert => match event {
                ProvisionEvent::NewCert { certificate, private_key } => {
                    pki.certificate = certificate;
                    self.phase = Phase::ConvertingKey;
                    Ok(ProvisionAction::ConvertKey { pem: private_key })
                },
                _ => {
                    self.phase = phase;
                    Err(ProvisionError::OutOfOrder)
                },
            },
            Phase::ConvertingKey => match event {
                ProvisionEvent::KeyConverted { pkcs8 } => {
                    let key = match from_utf8(pkcs8) {
                        Some(k) => k,
                        None => {
                            self.phase = Phase::ConvertingKey;
                            return Err(ProvisionError::InvalidUtf8);
                        },
                    };
                    pki.private_key = key;
                    self.phase = Phase::WritingCertificate;
                    Ok(
                        ProvisionAction::WriteFile {
                            path: self.definition.profiles.paths.certificate.clone(),
                            contents: pki.certificate.clone(),
                        },
                    )
                },
                _ => {
                    self.phase = phase;
                    Err(ProvisionError::OutOfOrder)
                },
            },
            Phase::WritingCertificate => match event {
                ProvisionEvent::FileWritten => {
                    self.phase = Phase::WritingPrivateKey;
                    Ok(
                        ProvisionAction::WriteFile {
                            path: self.definition.profiles.paths.private_key.clone(),
                            contents: pki.private_key.clone(),
                        },
                    )
                },
                _ => {
                    self.phase = phase;
                    Err(ProvisionError::OutOfOrder)
                },
            },
            Phase::WritingPrivateKey => match event {
                ProvisionEvent::FileWritten => {
                    if self.bundle {
                        self.phase = Phase::AwaitingCa { renewing: true };
                        Ok(ProvisionAction::LoadCa { source: CaSource::Remote })
                    } else {
                        pki.cert_path = self.definition.profiles.paths.certificate.clone();
                        pki.key_path = self.definition.profiles.paths.private_key.clone();
                        self.phase = Phase::Done;
                        Ok(ProvisionAction::Done)
                    }
                },
                _ => {
                    self.phase = phase;
                    Err(ProvisionError::OutOfOrder)
                },
            },
            Phase::WritingBundle => match event {
                ProvisionEvent::FileWritten => {
                    pki.bundle_path = self.definition.profiles.paths.bundle.clone();
                    pki.cert_path = self.definition.profiles.paths.certificate.clone();
                    pki.key_path = self.definition.profiles.paths.private_key.clone();
                    self.phase = Phase::Done;
                    Ok(ProvisionAction::Done)
                },
                _ => {
                    self.phase = phase;
                    Err(ProvisionError::OutOfOrder)
                },
            },
            Phase::Done => {
                self.phase = phase;
                Err(ProvisionError::OutOfOrder)
            },
        }
    }
}


/// Once provisioning has recorded the certificate and key locations of its
/// definition, no step moves them elsewhere.
pub proof fn locations_stay_installed(
    s0: Provisioning,
    s1: Provisioning,
    p0: Pki,
    p1: Pki,
    e: ProvisionEvent,
    r: Result<ProvisionAction, ProvisionError>,
)
    requires
        stepped(s0, s1, p0, p1, e, r),
        p0.cert_path@ == s0.definition().profiles.paths.certificate@,
        p0.key_path@ == s0.definition().profiles.paths.private_key@,
    ensures
        p1.cert_path@ == s0.definition().profiles.paths.certificate@,
        p1.key_path@ == s0.definition().profiles.paths.private_key@,
{
}

/// After an issuance, the stored private key is exactly the text whose UTF-8
/// bytes the key conversion reported; where those bytes begin, or are framed,
/// as a PKCS#8 PEM, so is the stored key.
pub proof fn stored_key_is_the_converted_key(
    s0: Provisioning,
    s1: Provisioning,
    p0: Pki,
    p1: Pki,
    pkcs8: Vec<u8>,
    r: Result<ProvisionAction, ProvisionError>,
)
    requires
        stepped(s0, s1, p0, p1, ProvisionEvent::KeyConverted { pkcs8 }, r),
        s0.phase() is ConvertingKey,
        r is Ok,
    ensures
        vstd::utf8::encode_utf8(p1.private_key@) == pkcs8@,
        starts_with_pkcs8_header(pkcs8@) ==> starts_with_pkcs8_header(
            vstd::utf8::encode_utf8(p1.private_key@),
        ),
        is_pkcs8_pem(pkcs8@) ==> is_pkcs8_pem(vstd::utf8::encode_utf8(p1.private_key@)),
{
}

/// Checking the stored certificate and having a new one issued go to one and
/// the same CFSSL address: the one provisioning started with, which is the
/// environment's where it gives one.
pub proof fn cfssl_requests_share_one_address(
    s0: Provisioning,
    s1: Provisioning,
    p0: Pki,
    p1: Pki,
    e: ProvisionEvent,
    r: Result<ProvisionAction, ProvisionError>,
)
    requires
        stepped(s0, s1, p0, p1, e, r),
    ensures
        r matches Ok(ProvisionAction::RequestCertInfo { url, .. }) ==> url@ == s0.remote()@
            + "/api/v1/cfssl/certinfo"@,
        r matches Ok(ProvisionAction::RequestNewCert { url, .. }) ==> url@ == s0.remote()@
            + "/api/v1/cfssl/newcert"@,
{
}

/// Provisioning never touches the revocation list.
pub proof fn revocations_untouched(
    s0: Provisioning,
    s1: Provisioning,
    p0: Pki,
    p1: Pki,
    e: ProvisionEvent,
    r: Result<ProvisionAction, ProvisionError>,
)
    requires
        stepped(s0, s1, p0, p1, e, r),
    ensures
        p1.revoked() == p0.revoked(),
{
}

/// A step that fails stays in its phase and leaves the pki as it was.
pub proof fn failed_step_changes_nothing(
    s0: Provisioning,
    s1: Provisioning,
    p0: Pki,
    p1: Pki,
    e: ProvisionEvent,
    r: Result<ProvisionAction, ProvisionError>,
)
    requires
        stepped(s0, s1, p0, p1, e, r),
        r is Err,
    ensures
        p1 == p0,
        s1.phase() == s0.phase(),
{
}

} // verus!
