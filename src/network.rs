use vstd::prelude::*;
use vstd::string::*;
use crate::{HostInfo, LcnError};

verus! {

/// An IPv4 address as its four octets, most significant first.
#[derive(Debug, Clone, Copy, PartialEq, Eq, Structural)]
pub struct Ipv4Addr {
    pub a: u8,
    pub b: u8,
    pub c: u8,
    pub d: u8,
}

impl Ipv4Addr {
    pub fn new(a: u8, b: u8, c: u8, d: u8) -> (r: Ipv4Addr)
        ensures
            r == (Ipv4Addr { a, b, c, d }),
    {
        Ipv4Addr { a, b, c, d }
    }

    pub fn octets(&self) -> (r: [u8; 4])
        ensures
            r@ == seq![self.a, self.b, self.c, self.d],
    {
        [self.a, self.b, self.c, self.d]
    }
}

/// The decimal digit character of `d`.
pub open spec fn digit_char(d: int) -> char {
    if d == 0 { '0' } else if d == 1 { '1' } else if d == 2 { '2' } else if d == 3 { '3' }
    else if d == 4 { '4' } else if d == 5 { '5' } else if d == 6 { '6' } else if d == 7 { '7' }
    else if d == 8 { '8' } else { '9' }
}

/// The decimal text of `n`, without leading zeros.
pub open spec fn decimal_text(n: nat) -> Seq<char>
    decreases n,
{
    if n < 10 {
        seq![digit_char(n as int)]
    } else {
        decimal_text(n / 10).push(digit_char((n % 10) as int))
    }
}

/// The decimal text of an octet.
pub open spec fn octet_text(n: u8) -> Seq<char> {
    decimal_text(n as nat)
}

/// The dotted-quad text of an address, such as `192.168.1.7`.
pub open spec fn ipv4_text(ip: Ipv4Addr) -> Seq<char> {
    octet_text(ip.a) + seq!['.'] + octet_text(ip.b) + seq!['.'] + octet_text(ip.c) + seq!['.']
        + octet_text(ip.d)
}

fn digit_str(d: u8) -> (r: &'static str)
    requires
        d < 10,
    ensures
        r@ == seq![digit_char(d as int)],
{
    proof {
        reveal_strlit("0");
        reveal_strlit("1");
        reveal_strlit("2");
        reveal_strlit("3");
        reveal_strlit("4");
        reveal_strlit("5");
        reveal_strlit("6");
        reveal_strlit("7");
        reveal_strlit("8");
        reveal_strlit("9");
    }
    let r = if d == 0 { "0" } else if d == 1 { "1" } else if d == 2 { "2" } else if d == 3 { "3" }
    else if d == 4 { "4" } else if d == 5 { "5" } else if d == 6 { "6" } else if d == 7 { "7" }
    else if d == 8 { "8" } else { "9" };
    assert(r@ =~= seq![digit_char(d as int)]);
    r
}

/// Append the decimal text of `n` to `out`.
pub fn push_decimal(out: &mut String, n: u64)
    ensures
        final(out)@ == old(out)@ + decimal_text(n as nat),
    decreases n,
{
    if n >= 10 {
        push_decimal(out, n / 10);
    }
    out.append(digit_str((n % 10) as u8));
    assert(final(out)@ =~= old(out)@ + decimal_text(n as nat));
}

fn push_octet(out: &mut String, n: u8)
    ensures
        final(out)@ == old(out)@ + octet_text(n),
{
    push_decimal(out, n as u64);
}

fn push_dot(out: &mut String)
    ensures
        final(out)@ == old(out)@ + seq!['.'],
{
    proof {
        reveal_strlit(".");
    }
    out.append(".");
    assert(final(out)@ =~= old(out)@ + seq!['.']);
}

impl Ipv4Addr {
    /// The dotted-quad text of this address.
    pub fn to_string(&self) -> (r: String)
        ensures
            r@ == ipv4_text(*self),
    {
        let mut out = String::new();
        push_octet(&mut out, self.a);
        push_dot(&mut out);
        push_octet(&mut out, self.b);
        push_dot(&mut out);
        push_octet(&mut out, self.c);
        push_dot(&mut out);
        push_octet(&mut out, self.d);
        assert(out@ =~= ipv4_text(*self));
        out
    }
}

/// The host addresses of a /24 subnet: last octet 1 to 254, in ascending order.
pub open spec fn subnet_of(ip: Ipv4Addr) -> Seq<Ipv4Addr> {
    Seq::new(254, |i: int| Ipv4Addr { a: ip.a, b: ip.b, c: ip.c, d: (i + 1) as u8 })
}

/// Generate all host addresses of the /24 subnet of `local_ip`,
/// for 192.168.1.10 that is 192.168.1.1 through 192.168.1.254.
pub fn generate_subnet_ips(local_ip: Ipv4Addr) -> (r: Vec<Ipv4Addr>)
    ensures
        r@ == subnet_of(local_ip),
{
    let mut ips: Vec<Ipv4Addr> = Vec::with_capacity(254);
    let mut last: u8 = 1;
    while last <= 254
        invariant
            1 <= last <= 255,
            ips@.len() == last - 1,
            forall|i: int| 0 <= i < ips@.len() ==> #[trigger] ips@[i] == subnet_of(local_ip)[i],
        decreases 255 - last,
    {
        ips.push(Ipv4Addr::new(local_ip.a, local_ip.b, local_ip.c, last));
        last = last + 1;
    }
    assert(ips@ =~= subnet_of(local_ip));
    ips
}

/// Whether some address of `ips` has `n` as its last octet.
pub open spec fn has_last_octet(ips: Seq<Ipv4Addr>, n: u8) -> bool {
    exists|i: int| 0 <= i < ips.len() && ips[i].d == n
}

/// Every subnet list has 254 addresses, each sharing the first three octets of
/// the address it was made from, whose last octets are exactly 1 to 254, each once.
pub proof fn lemma_subnet_shape(ip: Ipv4Addr)
    ensures
        subnet_of(ip).len() == 254,
        forall|i: int| #![auto] 0 <= i < 254 ==> subnet_of(ip)[i].a == ip.a && subnet_of(ip)[i].b == ip.b
            && subnet_of(ip)[i].c == ip.c,
        forall|n: u8| (1 <= n <= 254) == #[trigger] has_last_octet(subnet_of(ip), n),
        forall|i: int, j: int| 0 <= i < 254 && 0 <= j < 254 && i != j ==> subnet_of(ip)[i].d != subnet_of(ip)[j].d,
{
    assert forall|n: u8| (1 <= n <= 254) == #[trigger] has_last_octet(subnet_of(ip), n) by {
        if 1 <= n <= 254 {
            assert(subnet_of(ip)[n - 1].d == n);
        }
    }
}

/// Relies on local_ip_address::local_ip: the address of the machine's primary
/// interface, as its octets when it is IPv4 and `None` when it is IPv6, or the
/// lookup's error message.
#[verifier::external_body]
fn local_ip_lookup() -> (r: Result<Option<[u8; 4]>, String>) {
    match local_ip_address::local_ip() {
        Ok(core::net::IpAddr::V4(v4)) => Ok(Some(v4.octets())),
        Ok(core::net::IpAddr::V6(_)) => Ok(None),
        Err(e) => Err(e.to_string()),
    }
}

/// The message of a local address that is IPv6 only.
pub open spec fn ipv6_message() -> Seq<char> {
    "Expected IPv4 address, got IPv6"@
}

/// The message of a hostname that is not valid Unicode.
pub open spec fn encoding_message() -> Seq<char> {
    "Invalid hostname encoding"@
}

/// The local IPv4 address from the interface lookup: its octets, a lookup
/// error, or an IPv6 address, which this service cannot use.
pub fn local_ip_from_lookup(lookup: Result<Option<[u8; 4]>, String>) -> (r: Result<Ipv4Addr, LcnError>)
    ensures
        match lookup {
            Ok(Some(o)) => r == Ok::<Ipv4Addr, LcnError>(Ipv4Addr { a: o[0], b: o[1], c: o[2], d: o[3] }),
            Ok(None) => r matches Err(LcnError::LocalIpError(m)) && m@ == ipv6_message(),
            Err(e) => r matches Err(LcnError::LocalIpError(m)) && m@ == e@,
        },
{
    match lookup {
        Ok(Some(o)) => Ok(Ipv4Addr::new(o[0], o[1], o[2], o[3])),
        Ok(None) => Err(LcnError::LocalIpError(String::from_str("Expected IPv4 address, got IPv6"))),
        Err(e) => Err(LcnError::LocalIpError(e)),
    }
}

/// The IPv4 address of this machine; any failure is a `LocalIpError`.
pub fn get_local_ip() -> (r: Result<Ipv4Addr, LcnError>)
    ensures
        r matches Err(e) ==> e is LocalIpError,
{
    local_ip_from_lookup(local_ip_lookup())
}

/// Relies on hostname::get: the machine's hostname, as a `String` when it is
/// valid Unicode and `None` when it is not, or the error message of the call.
#[verifier::external_body]
fn hostname_lookup() -> (r: Result<Option<String>, String>) {
    match hostname::get() {
        Ok(name) => Ok(name.into_string().ok()),
        Err(e) => Err(e.to_string()),
    }
}

/// The hostname from the system lookup: the name, an I/O error, or a name
/// that is not valid Unicode.
pub fn hostname_from_lookup(lookup: Result<Option<String>, String>) -> (r: Result<String, LcnError>)
    ensures
        match lookup {
            Ok(Some(n)) => r matches Ok(s) && s@ == n@,
            Ok(None) => r matches Err(LcnError::LocalIpError(m)) && m@ == encoding_message(),
            Err(e) => r matches Err(LcnError::IoError(m)) && m@ == e@,
        },
{
    match lookup {
        Ok(Some(n)) => Ok(n),
        Ok(None) => Err(LcnError::LocalIpError(String::from_str("Invalid hostname encoding"))),
        Err(e) => Err(LcnError::IoError(e)),
    }
}

/// The hostname of this machine.
pub fn get_hostname() -> (r: Result<String, LcnError>)
    ensures
        r matches Err(e) ==> (e is IoError || e is LocalIpError),
{
    hostname_from_lookup(hostname_lookup())
}

/// The identity record of a host with this name and address.
pub fn host_info_of(hostname: String, ip: Ipv4Addr) -> (r: HostInfo)
    ensures
        r.hostname@ == hostname@,
        r.hostipv4@ == ipv4_text(ip),
{
    HostInfo { hostname, hostipv4: ip.to_string() }
}

} // verus!
