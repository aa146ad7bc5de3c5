//! The pure half of a verification attempt against one candidate: building
//! the CONNECT request bytes and classifying the bytes the server sent
//! back. Opening the connection, writing and reading are I/O and live with
//! the caller.

use vstd::prelude::*;
use crate::socks::{
    DecodeError, IpAddr, SocksRequest, SocksResponse, SocksVersion, spec_decode, spec_decode_v4,
    spec_decode_v5, spec_encode,
};

verus! {

/// The outcome of one verification attempt against one candidate.
/// `Granted` and `Denied` are the proxy's verdict; the other three say why
/// no verdict could be obtained.
#[derive(Clone, Copy, Debug, PartialEq, Eq, Structural)]
pub enum Outcome {
    Granted,
    Denied,
    ConnectFailed,
    ConnectTimeout,
    ProtocolError,
}

/// Whether a decoded response grants the CONNECT request: status `0x5A`
/// for SOCKS4, status `0x00` for SOCKS5.
pub open spec fn spec_granted(resp: SocksResponse) -> bool {
    match resp {
        SocksResponse::V4(status) => status == 0x5A,
        SocksResponse::V5(status, _) => status == 0x00,
    }
}

/// How response bytes classify: a decodable response is `Granted` or
/// `Denied` by its status byte; undecodable bytes are a protocol error.
pub open spec fn spec_classify(version: SocksVersion, bytes: Seq<u8>) -> Outcome {
    match spec_decode(version, bytes) {
        Ok(resp) => if spec_granted(resp) {
            Outcome::Granted
        } else {
            Outcome::Denied
        },
        Err(_) => Outcome::ProtocolError,
    }
}

/// A SOCKS4 response of at least two bytes always reaches a verdict, and
/// the verdict depends on its status byte alone: `0x5A` grants, every
/// other value denies.
pub proof fn lemma_socks4_classification(bytes: Seq<u8>)
    requires
        bytes.len() >= 2,
    ensures
        spec_classify(SocksVersion::V4, bytes) == (if bytes[1] == 0x5A {
            Outcome::Granted
        } else {
            Outcome::Denied
        }),
{
}

/// A decodable SOCKS5 response — whichever of the three legal address
/// types it carries — reaches a verdict by its status byte alone:
/// `0x00` grants, every other value denies.
pub proof fn lemma_socks5_classification(bytes: Seq<u8>)
    requires
        spec_decode_v5(bytes) is Ok,
    ensures
        spec_classify(SocksVersion::V5, bytes) == (if bytes[1] == 0x00 {
            Outcome::Granted
        } else {
            Outcome::Denied
        }),
{
}

/// A SOCKS4 response decodes exactly when two bytes arrived; anything
/// shorter is a protocol error, never a verdict.
pub proof fn lemma_socks4_boundary(bytes: Seq<u8>)
    ensures
        (bytes.len() >= 2) == (spec_decode_v4(bytes) is Ok),
        bytes.len() < 2 ==> spec_classify(SocksVersion::V4, bytes) == Outcome::ProtocolError,
{
}

/// Whether a decoded response grants the request.
pub fn is_granted(resp: &SocksResponse) -> (r: bool)
    ensures
        r == spec_granted(*resp),
{
    match resp {
        SocksResponse::V4(status) => *status == 0x5A,
        SocksResponse::V5(status, _) => *status == 0x00,
    }
}

/// The exact bytes to send to a candidate proxy: a CONNECT request for
/// the probe target, encoded per the candidate's SOCKS version.
pub fn connect_request_bytes(version: &SocksVersion, target_ip: &IpAddr, target_port: u16) -> (r:
    Vec<u8>)
    requires
        *version is V4 ==> *target_ip is V4,
    ensures
        r@ == spec_encode(
            SocksRequest { version: *version, ip: *target_ip, port: target_port },
        ),
{
    let req = SocksRequest { version: *version, ip: *target_ip, port: target_port };
    req.to_bytes()
}

/// Classify the bytes a candidate sent back: decode them and map the
/// status byte to a grant or a deny, and any decode failure to
/// `ProtocolError`.
pub fn classify_response(version: &SocksVersion, bytes: &[u8]) -> (r: Outcome)
    ensures
        r == spec_classify(*version, bytes@),
{
    match SocksResponse::from_bytes(version, bytes) {
        Ok(resp) => {
            if is_granted(&resp) {
                Outcome::Granted
            } else {
                Outcome::Denied
            }
        }
        Err(_) => Outcome::ProtocolError,
    }
}

} // verus!
