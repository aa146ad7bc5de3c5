//! SOCKS4 / SOCKS5 wire codec: CONNECT requests to bytes, responses from
//! bytes. Pure byte-level logic, no I/O.

use vstd::prelude::*;

verus! {

/// An IP address held as plain octets, so that the codec's byte-level
/// behaviour can be stated and proved octet by octet.
#[derive(Clone, Copy, Debug, PartialEq, Eq)]
pub enum IpAddr {
    V4(u8, u8, u8, u8),
    V6([u8; 16]),
}

impl IpAddr {
    /// The numeric value of an IPv4 address: its four octets read as one
    /// big-endian 32-bit integer. Zero for an IPv6 address.
    pub open spec fn spec_value(self) -> int {
        match self {
            IpAddr::V4(a, b, c, d) => a * 0x1000000 + b * 0x10000 + c * 0x100 + d,
            IpAddr::V6(_) => 0,
        }
    }

    /// The numeric value of an IPv4 address, for ordering the range and
    /// enumerating the address space.
    pub fn value(&self) -> (r: u32)
        requires
            *self is V4,
        ensures
            r as int == self.spec_value(),
    {
        match *self {
            IpAddr::V4(a, b, c, d) => (a as u32) * 0x1000000 + (b as u32) * 0x10000 + (c as u32)
                * 0x100 + (d as u32),
            IpAddr::V6(_) => 0,
        }
    }
}

/// The two SOCKS protocol versions the scanner probes.
#[derive(Clone, Copy, Debug, PartialEq, Eq, Structural)]
pub enum SocksVersion {
    V4,
    V5,
}

impl SocksVersion {
    /// The version for a validated version number. The configuration
    /// admits only 4 and 5, so nothing else reaches a probe.
    pub fn from_number(v: u8) -> (r: SocksVersion)
        requires
            v == 4 || v == 5,
        ensures
            r == (if v == 4 {
                SocksVersion::V4
            } else {
                SocksVersion::V5
            }),
    {
        if v == 4 {
            SocksVersion::V4
        } else {
            SocksVersion::V5
        }
    }
}

/// A CONNECT request: destination address and port, encoded per `version`.
pub struct SocksRequest {
    pub version: SocksVersion,
    pub ip: IpAddr,
    pub port: u16,
}

/// A decoded server response. `V4` holds the status byte; `V5` holds the
/// status byte (the first payload byte after the version byte) and the
/// reserved byte, in that order.
#[derive(Clone, Copy, Debug, PartialEq, Eq, Structural)]
pub enum SocksResponse {
    V4(u8),
    V5(u8, u8),
}

/// Why a response failed to decode: the input ended before a required
/// field, or the SOCKS5 address-type byte was none of 1, 3 or 4.
#[derive(Clone, Copy, Debug, PartialEq, Eq, Structural)]
pub enum DecodeError {
    Truncated,
    InvalidAddressType,
}

/// High byte of a port in network (big-endian) order.
pub open spec fn spec_port_hi(port: u16) -> u8 {
    (port / 256) as u8
}

/// Low byte of a port in network (big-endian) order.
pub open spec fn spec_port_lo(port: u16) -> u8 {
    (port % 256) as u8
}

/// The octets of an address as a sequence.
pub open spec fn spec_ip_octets(ip: IpAddr) -> Seq<u8> {
    match ip {
        IpAddr::V4(a, b, c, d) => seq![a, b, c, d],
        IpAddr::V6(o) => o@,
    }
}

/// The SOCKS5 address-type byte for an address: 1 for IPv4, 4 for IPv6.
pub open spec fn spec_addr_type(ip: IpAddr) -> u8 {
    match ip {
        IpAddr::V4(..) => 1u8,
        IpAddr::V6(_) => 4u8,
    }
}

/// SOCKS4 CONNECT layout:
/// `[0x04][0x01][port, 2 bytes big-endian][IPv4 address, 4 bytes][0x00]`.
pub open spec fn spec_socks4_request(octets: Seq<u8>, port: u16) -> Seq<u8> {
    seq![4u8, 1u8, spec_port_hi(port), spec_port_lo(port)] + octets + seq![0u8]
}

/// SOCKS5 CONNECT layout:
/// `[0x05][0x01][0x00][address-type][address][port, 2 bytes big-endian]`.
pub open spec fn spec_socks5_request(ip: IpAddr, port: u16) -> Seq<u8> {
    seq![5u8, 1u8, 0u8, spec_addr_type(ip)] + spec_ip_octets(ip)
        + seq![spec_port_hi(port), spec_port_lo(port)]
}

/// The exact bytes a request encodes to. Meaningful for every request a
/// well-formed candidate space produces: SOCKS4 with an IPv4 destination,
/// SOCKS5 with either address family.
pub open spec fn spec_encode(req: SocksRequest) -> Seq<u8> {
    match req.version {
        SocksVersion::V4 => spec_socks4_request(spec_ip_octets(req.ip), req.port),
        SocksVersion::V5 => spec_socks5_request(req.ip, req.port),
    }
}

impl SocksRequest {
    /// A SOCKS4 request can only carry an IPv4 destination.
    pub open spec fn wf(self) -> bool {
        self.version is V4 ==> self.ip is V4
    }

    /// Encode the request to its exact wire bytes. Never fails for a
    /// well-formed request; a SOCKS4 request with an IPv6 destination is
    /// ruled out by the precondition rather than silently truncated.
    pub fn to_bytes(&self) -> (r: Vec<u8>)
        requires
            self.wf(),
        ensures
            r@ == spec_encode(*self),
    {
        let mut buf: Vec<u8> = Vec::new();
        match self.version {
            SocksVersion::V4 => {
                buf.push(4u8);
                buf.push(1u8);
                buf.push((self.port / 256) as u8);
                buf.push((self.port % 256) as u8);
                match self.ip {
                    IpAddr::V4(a, b, c, d) => {
                        buf.push(a);
                        buf.push(b);
                        buf.push(c);
                        buf.push(d);
                    }
                    IpAddr::V6(_) => {
                        proof {
                            assert(false);
                        }
                    }
                }
                buf.push(0u8);
                proof {
                    assert(buf@ =~= spec_encode(*self));
                }
            }
            SocksVersion::V5 => {
                buf.push(5u8);
                buf.push(1u8);
                buf.push(0u8);
                match self.ip {
                    IpAddr::V4(a, b, c, d) => {
                        buf.push(1u8);
                        buf.push(a);
                        buf.push(b);
                        buf.push(c);
                        buf.push(d);
                    }
                    IpAddr::V6(octets) => {
                        buf.push(4u8);
                        push_octets_16(&mut buf, &octets);
                    }
                }
                buf.push((self.port / 256) as u8);
                buf.push((self.port % 256) as u8);
                proof {
                    assert(buf@ =~= spec_encode(*self));
                }
            }
        }
        buf
    }
}

/// Encoding is a pure function of the request: any two encodings of the
/// same request are byte-identical.
pub proof fn lemma_encode_idempotent(req: SocksRequest, first: Seq<u8>, second: Seq<u8>)
    requires
        first == spec_encode(req),
        second == spec_encode(req),
    ensures
        first == second,
{
}

/// What decoding a SOCKS4 response yields: at least two bytes are needed
/// (a marker byte to discard, then the status byte); anything shorter is
/// truncated input.
pub open spec fn spec_decode_v4(bytes: Seq<u8>) -> Result<SocksResponse, DecodeError> {
    if bytes.len() >= 2 {
        Ok(SocksResponse::V4(bytes[1]))
    } else {
        Err(DecodeError::Truncated)
    }
}

/// What decoding a SOCKS5 response yields. The layout is
/// `[version][status][reserved][address-type][address][port, 2 bytes]`,
/// where the address field is 4 bytes for type 1 (IPv4), one length byte
/// plus that many bytes for type 3 (domain), 16 bytes for type 4 (IPv6).
/// Input that ends before any field is truncated; an address type outside
/// {1, 3, 4} is invalid; trailing bytes beyond the port are ignored.
pub open spec fn spec_decode_v5(bytes: Seq<u8>) -> Result<SocksResponse, DecodeError> {
    if bytes.len() < 4 {
        Err(DecodeError::Truncated)
    } else if bytes[3] == 1 {
        if bytes.len() >= 10 {
            Ok(SocksResponse::V5(bytes[1], bytes[2]))
        } else {
            Err(DecodeError::Truncated)
        }
    } else if bytes[3] == 3 {
        if bytes.len() >= 5 && bytes.len() >= 7 + bytes[4] {
            Ok(SocksResponse::V5(bytes[1], bytes[2]))
        } else {
            Err(DecodeError::Truncated)
        }
    } else if bytes[3] == 4 {
        if bytes.len() >= 22 {
            Ok(SocksResponse::V5(bytes[1], bytes[2]))
        } else {
            Err(DecodeError::Truncated)
        }
    } else {
        Err(DecodeError::InvalidAddressType)
    }
}

/// What decoding a response yields, per protocol version.
pub open spec fn spec_decode(version: SocksVersion, bytes: Seq<u8>) -> Result<
    SocksResponse,
    DecodeError,
> {
    match version {
        SocksVersion::V4 => spec_decode_v4(bytes),
        SocksVersion::V5 => spec_decode_v5(bytes),
    }
}

impl SocksResponse {
    /// Decode a server response. Never panics: truncated or malformed
    /// input always comes back as a typed error, exactly as
    /// `spec_decode` lays the fields out.
    pub fn from_bytes(version: &SocksVersion, bytes: &[u8]) -> (r: Result<
        SocksResponse,
        DecodeError,
    >)
        ensures
            r == spec_decode(*version, bytes@),
    {
        match version {
            SocksVersion::V4 => {
                if bytes.len() >= 2 {
                    Ok(SocksResponse::V4(bytes[1]))
                } else {
                    Err(DecodeError::Truncated)
                }
            }
            SocksVersion::V5 => {
                if bytes.len() < 4 {
                    return Err(DecodeError::Truncated);
                }
                let addr_type = bytes[3];
                if addr_type == 1 {
                    if bytes.len() >= 10 {
                        Ok(SocksResponse::V5(bytes[1], bytes[2]))
                    } else {
                        Err(DecodeError::Truncated)
                    }
                } else if addr_type == 3 {
                    if bytes.len() < 5 {
                        return Err(DecodeError::Truncated);
                    }
                    let domain_len = bytes[4] as usize;
                    if bytes.len() >= 7 + domain_len {
                        Ok(SocksResponse::V5(bytes[1], bytes[2]))
                    } else {
                        Err(DecodeError::Truncated)
                    }
                } else if addr_type == 4 {
                    if bytes.len() >= 22 {
                        Ok(SocksResponse::V5(bytes[1], bytes[2]))
                    } else {
                        Err(DecodeError::Truncated)
                    }
                } else {
                    Err(DecodeError::InvalidAddressType)
                }
            }
        }
    }
}

/// Append the sixteen octets of an IPv6 address.
fn push_octets_16(buf: &mut Vec<u8>, octets: &[u8; 16])
    ensures
        final(buf)@ == old(buf)@ + octets@,
{
    let mut i: usize = 0;
    while i < 16
        invariant
            i <= 16,
            buf@ == old(buf)@ + octets@.take(i as int),
        decreases 16 - i,
    {
        buf.push(octets[i]);
        i = i + 1;
        proof {
            assert(buf@ =~= old(buf)@ + octets@.take(i as int));
        }
    }
    proof {
        assert(octets@.take(16) =~= octets@);
    }
}

} // verus!
