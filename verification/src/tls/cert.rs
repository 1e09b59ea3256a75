//! The certificate the proxy presents for an intercepted host.
use vstd::prelude::*;
use vstd::utf8::encode_utf8;
use openssl::error::ErrorStack;
use openssl::x509::X509;
use crate::text::push_str;
use crate::tls::utils::{is_ip, isIp};

verus! {

#[verifier::external_type_specification]
#[verifier::external_body]
pub struct ExX509(X509);

#[verifier::external_type_specification]
#[verifier::external_body]
pub struct ExErrorStack(ErrorStack);

/// The subject alternative name a certificate for `host` carries: `IP:`
/// for an address, `DNS:` for a domain name, then the host.
pub open spec fn alt_name_of(host: Seq<char>) -> Seq<char> {
    (if is_ip(host) { "IP"@ } else { "DNS"@ }) + ":"@ + host
}

/// The subject alternative name a certificate for `host` carries.
pub fn subject_alt_name(host: &str) -> (name: String)
    ensures
        name@ == alt_name_of(host@),
{
    let mut name = if isIp(string_of_str(host)) {
        string_of_str("IP")
    } else {
        string_of_str("DNS")
    };
    push_str(&mut name, ":");
    push_str(&mut name, host);
    name
}

/// A `String` with the characters of `s`.
fn string_of_str(s: &str) -> (r: String)
    ensures
        r@ == s@,
{
    let mut r = String::new();
    push_str(&mut r, s);
    r
}

/// `X509::from_pem`: reads one PEM certificate. It asserts that the input
/// is no longer than `c_int::MAX` bytes. Nothing is stated of the outcome:
/// OpenSSL may ask the terminal for a pass phrase when the PEM block says
/// it is encrypted, and may fail to allocate.
#[verifier::external_body]
fn x509_from_pem(pem: &[u8]) -> (r: Result<X509, ErrorStack>)
    requires
        pem@.len() <= 0x7fff_ffff,
{
    X509::from_pem(pem)
}

/// A certificate read from PEM, or `()` in place of OpenSSL's errors.
pub fn certificate_or_unit(r: Result<X509, ErrorStack>) -> (res: Result<X509, ()>)
    ensures
        res is Ok <==> r is Ok,
        r matches Ok(c) ==> res == Ok::<X509, ()>(c),
{
    match r {
        Ok(cert) => Ok(cert),
        Err(_) => Err(()),
    }
}

/// Reads a PEM certificate from the UTF-8 bytes of `content`, which may
/// be at most `c_int::MAX` long. Whether it succeeds is OpenSSL's to say.
#[allow(non_snake_case)]
pub fn decodeX509(content: String) -> (res: Result<X509, ()>)
    requires
        encode_utf8(content@).len() <= 0x7fff_ffff,
{
    certificate_or_unit(x509_from_pem(content.as_str().as_bytes()))
}

} // verus!
