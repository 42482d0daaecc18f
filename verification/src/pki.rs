//! The PKI engine's requests and responses, and the decisions its service
//! and handlers make around certificate issuance and the root CA.
//!
//! Key generation and certificate signing are done by the PKI engine; this
//! module decides who may ask, when the engine may act and what is stored
//! and answered.

use vstd::prelude::*;
use crate::auth::{has_privileged_role, privileged_roles};
use crate::models::HttpStatus;
use crate::text::{concat_str, owned, string_from_chars};

verus! {

/// Storage path of the root CA (certificate and key).
pub const CA_STORAGE_PATH: &'static str = "sys/pki/ca";

/// Storage prefix of the records of issued certificates.
pub const ISSUED_CERT_PREFIX: &'static str = "sys/pki/certs/";

/// How long a generated root CA is reported valid: 3650 days, in seconds.
pub const ROOT_CA_VALIDITY_SECONDS: i64 = 315360000;

/// Request to generate a certificate.
#[derive(Debug)]
pub struct GenerateCertRequest {
    pub common_name: String,
    pub ttl: Option<u64>,
    pub key_type: Option<String>,
    pub key_bits: Option<u64>,
    pub organization: Option<String>,
}

/// Request to generate the root CA.
#[derive(Debug)]
pub struct GenerateRootCaRequest {
    pub common_name: String,
    pub organization: String,
}

/// Response to a certificate generation.
#[derive(Debug)]
pub struct CertResponse {
    pub certificate: String,
    pub private_key: String,
    pub serial_number: String,
    pub expiration: i64,
}

/// A failure of the PKI service, by the HTTP status a handler answers.
#[derive(Debug)]
pub enum PkiServiceError {
    /// The requested resource was not found (404).
    NotFound(String),
    /// A conflicting state prevents the operation (409).
    Conflict(String),
    /// A client-supplied value is invalid (400).
    BadRequest(String),
    /// Any other unexpected failure (500).
    Internal(String),
}

/// The status a handler answers for a PKI service error.
pub open spec fn pki_error_status(e: PkiServiceError) -> HttpStatus {
    match e {
        PkiServiceError::NotFound(_) => HttpStatus::NotFound,
        PkiServiceError::Conflict(_) => HttpStatus::Conflict,
        PkiServiceError::BadRequest(_) => HttpStatus::BadRequest,
        PkiServiceError::Internal(_) => HttpStatus::InternalServerError,
    }
}

/// The message that a PKI service error displays.
pub open spec fn pki_error_text(e: PkiServiceError) -> Seq<char> {
    match e {
        PkiServiceError::NotFound(m) => m@,
        PkiServiceError::Conflict(m) => m@,
        PkiServiceError::BadRequest(m) => m@,
        PkiServiceError::Internal(m) => m@,
    }
}

impl PkiServiceError {
    /// The HTTP status that this error is answered with.
    pub fn status(&self) -> (s: HttpStatus)
        ensures
            s == pki_error_status(*self),
    {
        match self {
            PkiServiceError::NotFound(_) => HttpStatus::NotFound,
            PkiServiceError::Conflict(_) => HttpStatus::Conflict,
            PkiServiceError::BadRequest(_) => HttpStatus::BadRequest,
            PkiServiceError::Internal(_) => HttpStatus::InternalServerError,
        }
    }

    /// The error's message.
    pub fn message(&self) -> (m: String)
        ensures
            m@ == pki_error_text(*self),
    {
        match self {
            PkiServiceError::NotFound(m) => m.clone(),
            PkiServiceError::Conflict(m) => m.clone(),
            PkiServiceError::BadRequest(m) => m.clone(),
            PkiServiceError::Internal(m) => m.clone(),
        }
    }
}

/// Whether a user may issue certificates or generate the root CA: one with
/// an "admin" or "root" role, or a superuser.
pub fn may_manage_pki(roles: &Vec<String>, is_superuser: bool) -> (b: bool)
    ensures
        b == (privileged_roles(roles@) || is_superuser),
{
    has_privileged_role(roles) || is_superuser
}

/// What a PKI handler answers before it reaches the service: 403 for a user
/// who may not manage the engine, then 503 when the service is not running.
pub fn pki_request_gate(roles: &Vec<String>, is_superuser: bool, service_available: bool) -> (r:
    Result<(), HttpStatus>)
    ensures
        !(privileged_roles(roles@) || is_superuser) ==> r == Err::<(), HttpStatus>(
            HttpStatus::Forbidden,
        ),
        (privileged_roles(roles@) || is_superuser) && !service_available ==> r == Err::<
            (),
            HttpStatus,
        >(HttpStatus::ServiceUnavailable),
        (privileged_roles(roles@) || is_superuser) && service_available ==> r is Ok,
{
    if !may_manage_pki(roles, is_superuser) {
        Err(HttpStatus::Forbidden)
    } else if !service_available {
        Err(HttpStatus::ServiceUnavailable)
    } else {
        Ok(())
    }
}

/// The message refusing a second root CA.
pub open spec fn root_ca_exists_text() -> Seq<char> {
    "Root CA already exists. Use force if you really intend to overwrite."@
}

/// The message refusing to issue without a root CA.
pub open spec fn no_root_ca_text() -> Seq<char> {
    "PKI Engine not initialized with a Root CA. Please generate one first."@
}

/// Whether a root CA may be generated: never over an existing one.
pub fn root_ca_precondition(ca_configured: bool) -> (r: Result<(), PkiServiceError>)
    ensures
        ca_configured <==> r is Err,
        r matches Err(e) ==> e is Conflict && pki_error_text(e) == root_ca_exists_text(),
{
    if ca_configured {
        Err(
            PkiServiceError::Conflict(
                owned("Root CA already exists. Use force if you really intend to overwrite."),
            ),
        )
    } else {
        Ok(())
    }
}

/// Whether a certificate may be issued: only once a root CA exists.
pub fn issue_precondition(ca_configured: bool) -> (r: Result<(), PkiServiceError>)
    ensures
        !ca_configured <==> r is Err,
        r matches Err(e) ==> e is BadRequest && pki_error_text(e) == no_root_ca_text(),
{
    if !ca_configured {
        Err(
            PkiServiceError::BadRequest(
                owned("PKI Engine not initialized with a Root CA. Please generate one first."),
            ),
        )
    } else {
        Ok(())
    }
}

/// Storage path of the record of an issued certificate.
pub fn issued_cert_path(serial_number: &str) -> (p: String)
    ensures
        p@ == "sys/pki/certs/"@ + serial_number@,
{
    let v = concat_str("sys/pki/certs/", serial_number);
    string_from_chars(v.as_slice())
}

/// The certificate lifetime handed to the engine: the requested seconds,
/// reinterpreted as a signed count.
pub fn ttl_seconds(ttl: Option<u64>) -> (r: Option<i64>)
    ensures
        r == match ttl {
            Some(t) => Some(t as i64),
            None => None::<i64>,
        },
{
    match ttl {
        Some(t) => Some(t as i64),
        None => None,
    }
}

/// The answer to a root CA generation: the certificate, no private key,
/// the serial "ROOT", and an expiration 3650 days after `now`.
pub fn root_ca_response(certificate: String, now: i64) -> (r: CertResponse)
    requires
        now + ROOT_CA_VALIDITY_SECONDS <= i64::MAX,
    ensures
        r.certificate@ == certificate@,
        r.private_key@ == Seq::<char>::empty(),
        r.serial_number@ == "ROOT"@,
        r.expiration == now + ROOT_CA_VALIDITY_SECONDS,
{
    CertResponse {
        certificate,
        private_key: String::new(),
        serial_number: owned("ROOT"),
        expiration: now + ROOT_CA_VALIDITY_SECONDS,
    }
}

/// The CA certificate that a read of it answers: none until a root CA is
/// configured, and none when the engine cannot report it.
pub fn ca_pem(ca_configured: bool, ca_certificate: Option<String>) -> (r: Option<String>)
    ensures
        r == if ca_configured {
            ca_certificate
        } else {
            None::<String>
        },
{
    if !ca_configured {
        None
    } else {
        ca_certificate
    }
}

} // verus!
