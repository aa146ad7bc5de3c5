//! Scan configuration: the port specification, the IPv4 range, the SOCKS
//! version set and the concurrency limit, with the parsing and validation
//! that turn command-line text into a well-formed `ScannerConfig`.

use vstd::prelude::*;
use vstd::string::StringSliceAdditionalSpecFns;
use crate::socks::IpAddr;

verus! {

/// One entry of a port specification: a single port or an inclusive range.
#[derive(Clone, Copy, Debug, PartialEq, Eq, Structural)]
pub enum Port {
    Single(u16),
    Range(PortRange),
}

/// An inclusive port range.
#[derive(Clone, Copy, Debug, PartialEq, Eq, Structural)]
pub struct PortRange {
    pub start: u16,
    pub end: u16,
}

/// A configuration fault. Every one is detected before any scan work is
/// created and is fatal to the run.
#[derive(Clone, Copy, Debug, PartialEq, Eq, Structural)]
pub enum ConfigError {
    /// The IP range was not two texts joined by a single `-`.
    InvalidIpRangeFormat,
    /// The text before the `-` is not an IPv4 address.
    InvalidStartIp,
    /// The text after the `-` is not an IPv4 address.
    InvalidEndIp,
    /// The range's start address is numerically above its end address.
    IpRangeOutOfOrder,
    /// A requested SOCKS version is neither 4 nor 5.
    InvalidSocksVersion,
    /// A port entry does not satisfy 1 <= start <= end <= 65535, or a port
    /// text failed to parse.
    InvalidPortSpec,
    /// The concurrency limit is zero.
    InvalidConnectionLimit,
}

/// ASCII decimal digit.
pub open spec fn is_ascii_digit(b: u8) -> bool {
    48 <= b && b <= 57
}

/// Every byte of the sequence is an ASCII decimal digit.
pub open spec fn all_digits(s: Seq<u8>) -> bool {
    forall|i: int| 0 <= i < s.len() ==> is_ascii_digit(#[trigger] s[i])
}

/// The value of a sequence of ASCII digits read as a decimal numeral.
pub open spec fn digits_val(s: Seq<u8>) -> int
    decreases s.len(),
{
    if s.len() == 0 {
        0
    } else {
        digits_val(s.drop_last()) * 10 + (s.last() - 48)
    }
}

/// The sequence is a non-empty decimal numeral whose value is at most
/// `max`. Leading zeros are accepted.
pub open spec fn is_numeral_upto(s: Seq<u8>, max: int) -> bool {
    s.len() > 0 && all_digits(s) && digits_val(s) <= max
}

/// The index of the first occurrence of `b`, if any.
pub open spec fn spec_find(s: Seq<u8>, b: u8) -> Option<int>
    decreases s.len(),
{
    if s.len() == 0 {
        None
    } else if s[0] == b {
        Some(0int)
    } else {
        match spec_find(s.drop_first(), b) {
            None => None,
            Some(i) => Some(i + 1),
        }
    }
}

/// A numeral's value is never negative.
proof fn lemma_digits_val_nonneg(s: Seq<u8>)
    requires
        all_digits(s),
    ensures
        digits_val(s) >= 0,
    decreases s.len(),
{
    if s.len() > 0 {
        assert forall|i: int| 0 <= i < s.drop_last().len() implies is_ascii_digit(
            #[trigger] s.drop_last()[i],
        ) by {
            assert(s.drop_last()[i] == s[i]);
        }
        lemma_digits_val_nonneg(s.drop_last());
    }
}

/// Reading more digits never lowers a numeral's value.
proof fn lemma_digits_val_take_le(s: Seq<u8>, k: int)
    requires
        all_digits(s),
        0 <= k <= s.len(),
    ensures
        digits_val(s.take(k)) <= digits_val(s),
    decreases s.len() - k,
{
    if k < s.len() {
        assert(s.take(k + 1).drop_last() =~= s.take(k));
        assert(s.take(k + 1).last() == s[k]);
        assert forall|i: int| 0 <= i < s.take(k).len() implies is_ascii_digit(
            #[trigger] s.take(k)[i],
        ) by {
            assert(s.take(k)[i] == s[i]);
        }
        lemma_digits_val_nonneg(s.take(k));
        assert(digits_val(s.take(k + 1)) == digits_val(s.take(k)) * 10 + (s[k] - 48));
        lemma_digits_val_take_le(s, k + 1);
    } else {
        assert(s.take(k) =~= s);
    }
}

/// Where `b` first occurs, `spec_find` points at exactly that index.
proof fn lemma_find_found(s: Seq<u8>, b: u8, i: int)
    requires
        0 <= i < s.len(),
        s[i] == b,
        forall|j: int| 0 <= j < i ==> s[j] != b,
    ensures
        spec_find(s, b) == Some(i),
    decreases i,
{
    if i > 0 {
        assert(s.drop_first()[i - 1] == s[i]);
        assert forall|j: int| 0 <= j < i - 1 implies s.drop_first()[j] != b by {
            assert(s.drop_first()[j] == s[j + 1]);
        }
        lemma_find_found(s.drop_first(), b, i - 1);
    }
}

/// Where `b` never occurs, `spec_find` reports nothing.
proof fn lemma_find_absent(s: Seq<u8>, b: u8)
    requires
        forall|j: int| 0 <= j < s.len() ==> s[j] != b,
    ensures
        spec_find(s, b) is None,
    decreases s.len(),
{
    if s.len() > 0 {
        assert forall|j: int| 0 <= j < s.drop_first().len() implies s.drop_first()[j] != b by {
            assert(s.drop_first()[j] == s[j + 1]);
        }
        lemma_find_absent(s.drop_first(), b);
    }
}

/// Find the first occurrence of `b` in `s[lo..hi]`, reported as an index
/// into `s`.
fn find_byte_span(s: &[u8], lo: usize, hi: usize, b: u8) -> (r: Option<usize>)
    requires
        lo <= hi <= s@.len(),
    ensures
        match r {
            Some(i) => lo <= i < hi && spec_find(s@.subrange(lo as int, hi as int), b) == Some(
                i - lo,
            ),
            None => spec_find(s@.subrange(lo as int, hi as int), b) is None,
        },
{
    let ghost t = s@.subrange(lo as int, hi as int);
    let mut i: usize = lo;
    while i < hi
        invariant
            lo <= i <= hi <= s@.len(),
            t == s@.subrange(lo as int, hi as int),
            forall|j: int| lo <= j < i ==> s@[j] != b,
        decreases hi - i,
    {
        if s[i] == b {
            proof {
                assert(t[i - lo] == s@[i as int]);
                assert forall|j: int| 0 <= j < i - lo implies t[j] != b by {
                    assert(t[j] == s@[j + lo]);
                }
                lemma_find_found(t, b, i - lo);
            }
            return Some(i);
        }
        i = i + 1;
    }
    proof {
        assert forall|j: int| 0 <= j < t.len() implies t[j] != b by {
            assert(t[j] == s@[j + lo]);
        }
        lemma_find_absent(t, b);
    }
    None
}

/// Parse `s[lo..hi]` as a decimal numeral of value at most `max`. Returns
/// the value exactly when the span is a numeral within the bound.
fn parse_decimal_span(s: &[u8], lo: usize, hi: usize, max: u32) -> (r: Option<u32>)
    requires
        lo <= hi <= s@.len(),
    ensures
        (r is Some) == is_numeral_upto(s@.subrange(lo as int, hi as int), max as int),
        r matches Some(v) ==> v as int == digits_val(s@.subrange(lo as int, hi as int)),
{
    let ghost t = s@.subrange(lo as int, hi as int);
    if lo == hi {
        return None;
    }
    let mut acc: u64 = 0;
    let mut i: usize = lo;
    while i < hi
        invariant
            lo <= i <= hi <= s@.len(),
            t == s@.subrange(lo as int, hi as int),
            all_digits(t.take(i - lo)),
            acc as int == digits_val(t.take(i - lo)),
            acc <= max as u64,
        decreases hi - i,
    {
        let b = s[i];
        proof {
            assert(t[i - lo] == s@[i as int]);
        }
        if b < 48 || b > 57 {
            proof {
                assert(!all_digits(t));
            }
            return None;
        }
        let d = (b - 48) as u64;
        let new_acc = acc * 10 + d;
        proof {
            assert(t.take(i - lo + 1).drop_last() =~= t.take(i - lo));
            assert(t.take(i - lo + 1).last() == t[i - lo]);
            assert(digits_val(t.take(i - lo + 1)) == digits_val(t.take(i - lo)) * 10 + (t[i - lo]
                - 48));
            assert forall|j: int| 0 <= j < t.take(i - lo + 1).len() implies is_ascii_digit(
                #[trigger] t.take(i - lo + 1)[j],
            ) by {
                assert(t.take(i - lo + 1)[j] == t[j]);
                assert(t.take(i - lo)[j] == t[j] || j == i - lo);
            }
        }
        if new_acc > max as u64 {
            proof {
                if all_digits(t) {
                    lemma_digits_val_take_le(t, i - lo + 1);
                }
            }
            return None;
        }
        acc = new_acc;
        i = i + 1;
    }
    proof {
        assert(t.take(hi - lo) =~= t);
    }
    Some(acc as u32)
}

/// What `Port::from_str` yields: with no `-`, a single port; otherwise a
/// range split at the first `-`. Each side must be a decimal numeral of
/// value at most 65535.
pub open spec fn spec_port_from_str(s: Seq<u8>) -> Option<Port> {
    match spec_find(s, 45u8) {
        Some(i) => {
            let left = s.take(i);
            let right = s.subrange(i + 1, s.len() as int);
            if is_numeral_upto(left, 65535) && is_numeral_upto(right, 65535) {
                Some(
                    Port::Range(
                        PortRange {
                            start: digits_val(left) as u16,
                            end: digits_val(right) as u16,
                        },
                    ),
                )
            } else {
                None
            }
        }
        None => if is_numeral_upto(s, 65535) {
            Some(Port::Single(digits_val(s) as u16))
        } else {
            None
        },
    }
}

/// What `PortRange::from_str` yields: the text up to the first `-` gives
/// the start; the text between the first and second `-` (or the rest, if
/// there is no second) gives the end; with no `-` at all the start doubles
/// as the end. Text after a second `-` is ignored.
pub open spec fn spec_port_range_from_str(s: Seq<u8>) -> Option<PortRange> {
    match spec_find(s, 45u8) {
        None => if is_numeral_upto(s, 65535) {
            Some(PortRange { start: digits_val(s) as u16, end: digits_val(s) as u16 })
        } else {
            None
        },
        Some(i) => {
            let left = s.take(i);
            let rest = s.subrange(i + 1, s.len() as int);
            let right = match spec_find(rest, 45u8) {
                None => rest,
                Some(j) => rest.take(j),
            };
            if is_numeral_upto(left, 65535) && is_numeral_upto(right, 65535) {
                Some(
                    PortRange { start: digits_val(left) as u16, end: digits_val(right) as u16 },
                )
            } else {
                None
            }
        },
    }
}

/// What parsing an IPv4 address yields: four decimal octets, each at most
/// 255, joined by exactly three dots.
pub open spec fn spec_parse_ipv4(s: Seq<u8>) -> Option<IpAddr> {
    match spec_find(s, 46u8) {
        None => None,
        Some(i1) => {
            let seg1 = s.take(i1);
            let r1 = s.subrange(i1 + 1, s.len() as int);
            match spec_find(r1, 46u8) {
                None => None,
                Some(i2) => {
                    let seg2 = r1.take(i2);
                    let r2 = r1.subrange(i2 + 1, r1.len() as int);
                    match spec_find(r2, 46u8) {
                        None => None,
                        Some(i3) => {
                            let seg3 = r2.take(i3);
                            let seg4 = r2.subrange(i3 + 1, r2.len() as int);
                            if spec_find(seg4, 46u8) is None && is_numeral_upto(seg1, 255)
                                && is_numeral_upto(seg2, 255) && is_numeral_upto(seg3, 255)
                                && is_numeral_upto(seg4, 255) {
                                Some(
                                    IpAddr::V4(
                                        digits_val(seg1) as u8,
                                        digits_val(seg2) as u8,
                                        digits_val(seg3) as u8,
                                        digits_val(seg4) as u8,
                                    ),
                                )
                            } else {
                                None
                            }
                        },
                    }
                },
            }
        },
    }
}

/// What parsing an IP range yields: exactly two IPv4 texts joined by a
/// single `-`, with the faults told apart as the error taxonomy asks.
pub open spec fn spec_parse_ip_range(s: Seq<u8>) -> Result<(IpAddr, IpAddr), ConfigError> {
    match spec_find(s, 45u8) {
        None => Err(ConfigError::InvalidIpRangeFormat),
        Some(i) => {
            let left = s.take(i);
            let right = s.subrange(i + 1, s.len() as int);
            if spec_find(right, 45u8) is Some {
                Err(ConfigError::InvalidIpRangeFormat)
            } else {
                match spec_parse_ipv4(left) {
                    None => Err(ConfigError::InvalidStartIp),
                    Some(a) => match spec_parse_ipv4(right) {
                        None => Err(ConfigError::InvalidEndIp),
                        Some(b) => Ok((a, b)),
                    },
                }
            }
        },
    }
}

/// Parse `s[lo..hi]` as a dotted-quad IPv4 address.
fn parse_ipv4_span(s: &[u8], lo: usize, hi: usize) -> (r: Option<IpAddr>)
    requires
        lo <= hi <= s@.len(),
    ensures
        r == spec_parse_ipv4(s@.subrange(lo as int, hi as int)),
{
    let ghost t = s@.subrange(lo as int, hi as int);
    let d1 = match find_byte_span(s, lo, hi, 46) {
        None => {
            return None;
        }
        Some(d) => d,
    };
    proof {
        assert(t.take(d1 - lo) =~= s@.subrange(lo as int, d1 as int));
        assert(t.subrange(d1 - lo + 1, t.len() as int) =~= s@.subrange(d1 + 1, hi as int));
    }
    let ghost r1 = s@.subrange(d1 + 1, hi as int);
    let d2 = match find_byte_span(s, d1 + 1, hi, 46) {
        None => {
            return None;
        }
        Some(d) => d,
    };
    proof {
        assert(r1.take(d2 - (d1 + 1)) =~= s@.subrange(d1 + 1, d2 as int));
        assert(r1.subrange(d2 - (d1 + 1) + 1, r1.len() as int) =~= s@.subrange(
            d2 + 1,
            hi as int,
        ));
    }
    let ghost r2 = s@.subrange(d2 + 1, hi as int);
    let d3 = match find_byte_span(s, d2 + 1, hi, 46) {
        None => {
            return None;
        }
        Some(d) => d,
    };
    proof {
        assert(r2.take(d3 - (d2 + 1)) =~= s@.subrange(d2 + 1, d3 as int));
        assert(r2.subrange(d3 - (d2 + 1) + 1, r2.len() as int) =~= s@.subrange(
            d3 + 1,
            hi as int,
        ));
    }
    if let Some(_) = find_byte_span(s, d3 + 1, hi, 46) {
        return None;
    }
    let a = match parse_decimal_span(s, lo, d1, 255) {
        None => {
            return None;
        }
        Some(v) => v,
    };
    let b = match parse_decimal_span(s, d1 + 1, d2, 255) {
        None => {
            return None;
        }
        Some(v) => v,
    };
    let c = match parse_decimal_span(s, d2 + 1, d3, 255) {
        None => {
            return None;
        }
        Some(v) => v,
    };
    let d = match parse_decimal_span(s, d3 + 1, hi, 255) {
        None => {
            return None;
        }
        Some(v) => v,
    };
    Some(IpAddr::V4(a as u8, b as u8, c as u8, d as u8))
}

impl Port {
    /// Parse one entry of a port specification, `"80"` or `"1080-1090"`.
    pub fn from_str(s: &str) -> (r: Result<Port, ConfigError>)
        ensures
            r matches Ok(p) ==> spec_port_from_str(s.spec_bytes()) == Some(p),
            r matches Err(e) ==> spec_port_from_str(s.spec_bytes()) is None && e
                == ConfigError::InvalidPortSpec,
    {
        let bytes = s.as_bytes();
        let n = bytes.len();
        proof {
            assert(bytes@.subrange(0, n as int) =~= bytes@);
        }
        match find_byte_span(bytes, 0, n, 45) {
            Some(i) => {
                proof {
                    assert(bytes@.take(i as int) =~= bytes@.subrange(0, i as int));
                }
                let start = parse_decimal_span(bytes, 0, i, 65535);
                let end = parse_decimal_span(bytes, i + 1, n, 65535);
                match (start, end) {
                    (Some(a), Some(b)) => Ok(
                        Port::Range(PortRange { start: a as u16, end: b as u16 }),
                    ),
                    _ => Err(ConfigError::InvalidPortSpec),
                }
            }
            None => {
                match parse_decimal_span(bytes, 0, n, 65535) {
                    Some(v) => Ok(Port::Single(v as u16)),
                    None => Err(ConfigError::InvalidPortSpec),
                }
            }
        }
    }
}

impl PortRange {
    /// Parse an inclusive range, `"1080-1090"`; a bare `"1080"` stands for
    /// the one-port range.
    pub fn from_str(s: &str) -> (r: Result<PortRange, ConfigError>)
        ensures
            r matches Ok(p) ==> spec_port_range_from_str(s.spec_bytes()) == Some(p),
            r matches Err(e) ==> spec_port_range_from_str(s.spec_bytes()) is None && e
                == ConfigError::InvalidPortSpec,
    {
        let bytes = s.as_bytes();
        let n = bytes.len();
        proof {
            assert(bytes@.subrange(0, n as int) =~= bytes@);
        }
        match find_byte_span(bytes, 0, n, 45) {
            None => {
                match parse_decimal_span(bytes, 0, n, 65535) {
                    Some(v) => Ok(PortRange { start: v as u16, end: v as u16 }),
                    None => Err(ConfigError::InvalidPortSpec),
                }
            }
            Some(i) => {
                proof {
                    assert(bytes@.take(i as int) =~= bytes@.subrange(0, i as int));
                    assert(bytes@.subrange(i + 1, n as int) == bytes@.subrange(i + 1, n as int));
                }
                let ghost rest = bytes@.subrange(i + 1, n as int);
                let hi = match find_byte_span(bytes, i + 1, n, 45) {
                    None => n,
                    Some(j) => j,
                };
                proof {
                    assert(rest.take(hi - (i + 1)) =~= bytes@.subrange(i + 1, hi as int));
                    if hi == n {
                        assert(rest.take(hi - (i + 1)) =~= rest);
                    }
                }
                let start = parse_decimal_span(bytes, 0, i, 65535);
                let end = parse_decimal_span(bytes, i + 1, hi, 65535);
                match (start, end) {
                    (Some(a), Some(b)) => Ok(PortRange { start: a as u16, end: b as u16 }),
                    _ => Err(ConfigError::InvalidPortSpec),
                }
            }
        }
    }
}

/// Parse an IP range given as `"START_IP-END_IP"`.
pub fn parse_ip_range(s: &str) -> (r: Result<(IpAddr, IpAddr), ConfigError>)
    ensures
        r == spec_parse_ip_range(s.spec_bytes()),
{
    let bytes = s.as_bytes();
    let n = bytes.len();
    proof {
        assert(bytes@.subrange(0, n as int) =~= bytes@);
    }
    match find_byte_span(bytes, 0, n, 45) {
        None => Err(ConfigError::InvalidIpRangeFormat),
        Some(i) => {
            proof {
                assert(bytes@.take(i as int) =~= bytes@.subrange(0, i as int));
            }
            match find_byte_span(bytes, i + 1, n, 45) {
                Some(_) => Err(ConfigError::InvalidIpRangeFormat),
                None => {
                    match parse_ipv4_span(bytes, 0, i) {
                        None => Err(ConfigError::InvalidStartIp),
                        Some(a) => match parse_ipv4_span(bytes, i + 1, n) {
                            None => Err(ConfigError::InvalidEndIp),
                            Some(b) => Ok((a, b)),
                        },
                    }
                }
            }
        }
    }
}

/// The raw command-line options, as the argument parser hands them over.
pub struct CliOptions {
    pub ip_range: String,
    pub socks_versions: Vec<u8>,
    pub connection_limit: usize,
    pub ports: Vec<Port>,
}

/// A port entry keeps every port in 1..=65535 and orders its ends.
pub open spec fn spec_port_wf(p: Port) -> bool {
    match p {
        Port::Single(v) => v >= 1,
        Port::Range(r) => 1 <= r.start && r.start <= r.end,
    }
}

/// Every requested SOCKS version is 4 or 5.
pub open spec fn spec_versions_ok(vs: Seq<u8>) -> bool {
    forall|i: int| 0 <= i < vs.len() ==> #[trigger] vs[i] == 4 || vs[i] == 5
}

/// Connect timeout applied to every candidate, in seconds.
pub const DEFAULT_TIMEOUT_SECS: u64 = 5;

/// A validated scan configuration. Once built it is well-formed: the IP
/// range is IPv4 and ordered, every version is 4 or 5, the concurrency
/// limit is positive and every port entry is well-formed.
#[derive(Debug)]
pub struct ScannerConfig {
    pub ip_range: (IpAddr, IpAddr),
    pub socks_versions: Vec<u8>,
    pub connection_limit: usize,
    pub ports: Vec<Port>,
    pub timeout: u64,
    pub target_ip: IpAddr,
    pub target_port: u16,
}

impl ScannerConfig {
    /// The invariant `from_options` establishes and the engine relies on.
    pub open spec fn wf(self) -> bool {
        &&& self.ip_range.0 is V4
        &&& self.ip_range.1 is V4
        &&& self.ip_range.0.spec_value() <= self.ip_range.1.spec_value()
        &&& spec_versions_ok(self.socks_versions@)
        &&& self.connection_limit >= 1
        &&& forall|i: int| 0 <= i < self.ports@.len() ==> spec_port_wf(#[trigger] self.ports@[i])
    }
}

/// What validating the options yields, fault by fault in the order the
/// checks run: the IP range text, the version set, the concurrency limit,
/// the port entries, and last the ordering of the range's ends.
pub open spec fn spec_from_options(options: CliOptions) -> Result<ScannerConfig, ConfigError> {
    match spec_parse_ip_range(vstd::utf8::encode_utf8(options.ip_range@)) {
        Err(e) => Err(e),
        Ok(pair) => if !spec_versions_ok(options.socks_versions@) {
            Err(ConfigError::InvalidSocksVersion)
        } else if options.connection_limit < 1 {
            Err(ConfigError::InvalidConnectionLimit)
        } else if !(forall|i: int|
            0 <= i < options.ports@.len() ==> spec_port_wf(#[trigger] options.ports@[i])) {
            Err(ConfigError::InvalidPortSpec)
        } else if !(pair.0.spec_value() <= pair.1.spec_value()) {
            Err(ConfigError::IpRangeOutOfOrder)
        } else {
            Ok(
                ScannerConfig {
                    ip_range: pair,
                    socks_versions: options.socks_versions,
                    connection_limit: options.connection_limit,
                    ports: options.ports,
                    timeout: DEFAULT_TIMEOUT_SECS,
                    target_ip: IpAddr::V4(8, 8, 8, 8),
                    target_port: 53,
                },
            )
        },
    }
}

/// Whether one port entry is well-formed.
pub fn port_wf(p: &Port) -> (r: bool)
    ensures
        r == spec_port_wf(*p),
{
    match p {
        Port::Single(v) => *v >= 1,
        Port::Range(pr) => 1 <= pr.start && pr.start <= pr.end,
    }
}

/// Whether every requested version is 4 or 5.
fn versions_ok(vs: &Vec<u8>) -> (r: bool)
    ensures
        r == spec_versions_ok(vs@),
{
    let mut i: usize = 0;
    while i < vs.len()
        invariant
            i <= vs@.len(),
            forall|j: int| 0 <= j < i ==> #[trigger] vs@[j] == 4 || vs@[j] == 5,
        decreases vs@.len() - i,
    {
        let v = vs[i];
        if v != 4 && v != 5 {
            return false;
        }
        i = i + 1;
    }
    true
}

/// Whether every port entry is well-formed.
fn ports_wf(ps: &Vec<Port>) -> (r: bool)
    ensures
        r == (forall|i: int| 0 <= i < ps@.len() ==> spec_port_wf(#[trigger] ps@[i])),
{
    let mut i: usize = 0;
    while i < ps.len()
        invariant
            i <= ps@.len(),
            forall|j: int| 0 <= j < i ==> spec_port_wf(#[trigger] ps@[j]),
        decreases ps@.len() - i,
    {
        if !port_wf(&ps[i]) {
            return false;
        }
        i = i + 1;
    }
    true
}

impl ScannerConfig {
    /// Validate the raw options into a well-formed configuration, or
    /// report the first configuration fault. No scan work exists yet when
    /// this runs; an error aborts the run before any is created.
    pub fn from_options(options: CliOptions) -> (r: Result<ScannerConfig, ConfigError>)
        ensures
            r == spec_from_options(options),
            r matches Ok(c) ==> c.wf(),
    {
        let CliOptions { ip_range, socks_versions, connection_limit, ports } = options;
        let pair = match parse_ip_range(ip_range.as_str()) {
            Err(e) => {
                return Err(e);
            }
            Ok(p) => p,
        };
        if !versions_ok(&socks_versions) {
            return Err(ConfigError::InvalidSocksVersion);
        }
        if connection_limit < 1 {
            return Err(ConfigError::InvalidConnectionLimit);
        }
        if !ports_wf(&ports) {
            return Err(ConfigError::InvalidPortSpec);
        }
        let (start, end) = pair;
        proof {
            assert(start is V4 && end is V4);
        }
        if !(start.value() <= end.value()) {
            return Err(ConfigError::IpRangeOutOfOrder);
        }
        Ok(
            ScannerConfig {
                ip_range: (start, end),
                socks_versions,
                connection_limit,
                ports,
                timeout: DEFAULT_TIMEOUT_SECS,
                target_ip: IpAddr::V4(8, 8, 8, 8),
                target_port: 53,
            },
        )
    }
}

} // verus!
