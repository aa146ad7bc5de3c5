//! The report line for a confirmed proxy, in ProxyChains format:
//! `"SOCKS4 10.0.0.1 1080\n"` as exact bytes. Appending the line to the
//! proxies file is I/O and lives with the caller.

use vstd::prelude::*;
use crate::socks::{IpAddr, SocksVersion};

verus! {

/// The shortest decimal numeral for a value: no leading zero except for
/// the value zero itself.
pub open spec fn spec_decimal(n: int) -> Seq<u8>
    decreases n,
{
    if n < 10 {
        seq![(48 + n) as u8]
    } else {
        spec_decimal(n / 10) + seq![(48 + n % 10) as u8]
    }
}

/// The label a version reports under.
pub open spec fn spec_version_label(version: SocksVersion) -> Seq<u8> {
    match version {
        SocksVersion::V4 => seq![83u8, 79u8, 67u8, 75u8, 83u8, 52u8],
        SocksVersion::V5 => seq![83u8, 79u8, 67u8, 75u8, 83u8, 53u8],
    }
}

/// One report line: label, a space, the dotted-quad address, a space,
/// the port, a newline.
pub open spec fn spec_proxy_line(version: SocksVersion, ip: IpAddr, port: u16) -> Seq<u8> {
    match ip {
        IpAddr::V4(a, b, c, d) => spec_version_label(version) + seq![32u8] + spec_decimal(a as int)
            + seq![46u8] + spec_decimal(b as int) + seq![46u8] + spec_decimal(c as int)
            + seq![46u8] + spec_decimal(d as int) + seq![32u8] + spec_decimal(port as int)
            + seq![10u8],
        IpAddr::V6(_) => Seq::empty(),
    }
}

/// Append the shortest decimal numeral for `v`.
fn push_decimal(out: &mut Vec<u8>, v: u64)
    ensures
        final(out)@ == old(out)@ + spec_decimal(v as int),
    decreases v,
{
    if v < 10 {
        out.push(48 + v as u8);
        proof {
            assert(out@ =~= old(out)@ + spec_decimal(v as int));
        }
    } else {
        push_decimal(out, v / 10);
        out.push(48 + (v % 10) as u8);
        proof {
            assert(out@ =~= old(out)@ + spec_decimal(v as int));
        }
    }
}

/// Append the version's label.
fn push_version_label(out: &mut Vec<u8>, version: &SocksVersion)
    ensures
        final(out)@ == old(out)@ + spec_version_label(*version),
{
    out.push(83);
    out.push(79);
    out.push(67);
    out.push(75);
    out.push(83);
    match version {
        SocksVersion::V4 => out.push(52),
        SocksVersion::V5 => out.push(53),
    }
    proof {
        assert(out@ =~= old(out)@ + spec_version_label(*version));
    }
}

/// Build the exact report line for one confirmed proxy.
pub fn proxy_line(version: &SocksVersion, ip: &IpAddr, port: u16) -> (r: Vec<u8>)
    requires
        *ip is V4,
    ensures
        r@ == spec_proxy_line(*version, *ip, port),
{
    let mut out: Vec<u8> = Vec::new();
    push_version_label(&mut out, version);
    out.push(32);
    match *ip {
        IpAddr::V4(a, b, c, d) => {
            push_decimal(&mut out, a as u64);
            out.push(46);
            push_decimal(&mut out, b as u64);
            out.push(46);
            push_decimal(&mut out, c as u64);
            out.push(46);
            push_decimal(&mut out, d as u64);
        }
        IpAddr::V6(_) => {
            proof {
                assert(false);
            }
        }
    }
    out.push(32);
    push_decimal(&mut out, port as u64);
    out.push(10);
    proof {
        assert(out@ =~= spec_proxy_line(*version, *ip, port));
    }
    out
}

} // verus!
