//! The WASI network allow-list: parsing `allow_net` entries into filters and
//! checking socket addresses against them.

use vstd::prelude::*;
use vstd::string::*;
use crate::text::owned;

verus! {

/// An IP address: IPv4 as a 32-bit and IPv6 as a 128-bit number.
#[derive(Clone, Copy, Debug, PartialEq, Eq, Structural)]
pub enum IpAddress {
    V4(u32),
    V6(u128),
}

/// An IP network: an address and a prefix length (at most 32 for IPv4, at
/// most 128 for IPv6). The address may have host bits set.
#[derive(Clone, Copy, Debug, PartialEq, Eq, Structural)]
pub struct IpNetwork {
    pub addr: IpAddress,
    pub prefix_len: u8,
}

impl IpNetwork {
    /// The prefix length fits the address family.
    pub open spec fn wf(self) -> bool {
        match self.addr {
            IpAddress::V4(_) => self.prefix_len <= 32,
            IpAddress::V6(_) => self.prefix_len <= 128,
        }
    }
}

/// A socket address: an IP address and a port.
#[derive(Clone, Copy, Debug, PartialEq, Eq, Structural)]
pub struct SocketAddress {
    pub ip: IpAddress,
    pub port: u16,
}

/// One resolved allow-list entry.
#[derive(Clone, Copy, Debug, PartialEq, Eq, Structural)]
pub enum NetFilter {
    /// An IP network (a single IP as /32 or /128, or a CIDR block); any port.
    Net(IpNetwork),
    /// A specific IP and port.
    IpPort(IpAddress, u16),
}

/// The network mask of an IPv4 prefix length: the top `p` bits set.
pub open spec fn v4_netmask(p: u8) -> u32 {
    if p == 0 {
        0
    } else {
        0xffff_ffffu32 << ((32 - p) as u32)
    }
}

/// The host mask of an IPv4 prefix length: the low `32 - p` bits set.
pub open spec fn v4_hostmask(p: u8) -> u32 {
    if p >= 32 {
        0
    } else {
        0xffff_ffffu32 >> (p as u32)
    }
}

/// The network mask of an IPv6 prefix length.
pub open spec fn v6_netmask(p: u8) -> u128 {
    if p == 0 {
        0
    } else {
        0xffff_ffff_ffff_ffff_ffff_ffff_ffff_ffffu128 << ((128 - p) as u128)
    }
}

/// The host mask of an IPv6 prefix length.
pub open spec fn v6_hostmask(p: u8) -> u128 {
    if p >= 128 {
        0
    } else {
        0xffff_ffff_ffff_ffff_ffff_ffff_ffff_ffffu128 >> (p as u128)
    }
}

/// A network contains an address of its own family that lies between its
/// network address (host bits cleared) and its broadcast address (host bits
/// set).
pub open spec fn network_contains(net: IpNetwork, ip: IpAddress) -> bool {
    match (net.addr, ip) {
        (IpAddress::V4(a), IpAddress::V4(x)) => (a & v4_netmask(net.prefix_len)) <= x && x <= (a | v4_hostmask(net.prefix_len)),
        (IpAddress::V6(a), IpAddress::V6(x)) => (a & v6_netmask(net.prefix_len)) <= x && x <= (a | v6_hostmask(net.prefix_len)),
        _ => false,
    }
}

/// Whether `net` contains `ip`, through `ipnet`'s `Ipv4Net::contains` and
/// `Ipv6Net::contains` on an address. The contract restates ipnet's
/// definition: same family, and network address <= ip <= broadcast address.
#[verifier::external_body]
fn ipnet_contains(net: &IpNetwork, ip: &IpAddress) -> (r: bool)
    requires
        net.wf(),
    ensures
        r == network_contains(*net, *ip),
{
    match (net.addr, *ip) {
        (IpAddress::V4(a), IpAddress::V4(x)) => {
            let n = ipnet::Ipv4Net::new(a.into(), net.prefix_len).unwrap();
            n.contains(&ipnet::Ipv4Net::new(x.into(), 32).unwrap().addr())
        },
        (IpAddress::V6(a), IpAddress::V6(x)) => {
            let n = ipnet::Ipv6Net::new(a.into(), net.prefix_len).unwrap();
            n.contains(&ipnet::Ipv6Net::new(x.into(), 128).unwrap().addr())
        },
        _ => false,
    }
}

/// Whether a filter lets a socket address through.
pub open spec fn filter_matches(f: NetFilter, addr: SocketAddress) -> bool {
    match f {
        NetFilter::Net(net) => network_contains(net, addr.ip),
        NetFilter::IpPort(ip, port) => addr.ip == ip && addr.port == port,
    }
}

impl NetFilter {
    /// Whether the filter is well formed (its network's prefix fits).
    pub open spec fn wf(self) -> bool {
        match self {
            NetFilter::Net(net) => net.wf(),
            NetFilter::IpPort(_, _) => true,
        }
    }

    /// Checks a socket address against this filter: a network matches any
    /// port of an address it contains, an IP:port pair matches exactly.
    pub fn matches(&self, addr: &SocketAddress) -> (r: bool)
        requires
            self.wf(),
        ensures
            r == filter_matches(*self, *addr),
    {
        match self {
            NetFilter::Net(net) => ipnet_contains(net, &addr.ip),
            NetFilter::IpPort(ip, port) => addr.ip == *ip && addr.port == *port,
        }
    }
}

/// Whether some filter lets a socket address through.
pub open spec fn filters_allow(filters: Seq<NetFilter>, addr: SocketAddress) -> bool {
    exists|i: int| 0 <= i < filters.len() && filter_matches(#[trigger] filters[i], addr)
}

/// The socket check of a WASI context with a non-empty allow-list: an
/// address is allowed when any filter matches it.
pub fn socket_allowed(filters: &[NetFilter], addr: &SocketAddress) -> (r: bool)
    requires
        forall|i: int| 0 <= i < filters@.len() ==> (#[trigger] filters@[i]).wf(),
    ensures
        r == filters_allow(filters@, *addr),
{
    let n = filters.len();
    let mut i: usize = 0;
    while i < n
        invariant
            n == filters@.len(),
            i <= n,
            forall|k: int| 0 <= k < filters@.len() ==> (#[trigger] filters@[k]).wf(),
            forall|j: int| 0 <= j < i ==> !filter_matches(#[trigger] filters@[j], *addr),
        decreases n - i,
    {
        if filters[i].matches(addr) {
            return true;
        }
        i += 1;
    }
    false
}

} // verus!

verus! {

// ---------------------------------------------------------------------------
// Parsing allow-list entries
// ---------------------------------------------------------------------------

/// What `ipnet` parses a string into as an `IpNet` (CIDR notation), if it
/// parses.
pub uninterp spec fn ipnet_parse(s: Seq<char>) -> Option<IpNetwork>;

/// Parses CIDR notation through `ipnet`'s `FromStr for IpNet`. The parser
/// bounds the prefix length by the address family (at most 32 or 128).
#[verifier::external_body]
fn parse_ip_net(s: &str) -> (r: Option<IpNetwork>)
    ensures
        r == ipnet_parse(s@),
        r matches Some(n) ==> n.wf(),
{
    match s.parse::<ipnet::IpNet>() {
        Ok(ipnet::IpNet::V4(n)) => Some(IpNetwork { addr: IpAddress::V4(u32::from(n.addr())), prefix_len: n.prefix_len() }),
        Ok(ipnet::IpNet::V6(n)) => Some(IpNetwork { addr: IpAddress::V6(u128::from(n.addr())), prefix_len: n.prefix_len() }),
        Err(_) => None,
    }
}

/// The host of a URL.
pub enum UrlHost {
    Domain(String),
    Ipv4(u32),
    Ipv6(u128),
}

/// The host of a URL, with the domain as characters.
pub enum UrlHostView {
    Domain(Seq<char>),
    Ipv4(u32),
    Ipv6(u128),
}

/// The view of an optional host.
pub open spec fn host_view(h: Option<UrlHost>) -> Option<UrlHostView> {
    match h {
        None => None,
        Some(UrlHost::Domain(d)) => Some(UrlHostView::Domain(d@)),
        Some(UrlHost::Ipv4(a)) => Some(UrlHostView::Ipv4(a)),
        Some(UrlHost::Ipv6(a)) => Some(UrlHostView::Ipv6(a)),
    }
}

/// What `url` makes of a string: `None` when it does not parse as a URL,
/// otherwise the URL's host, if it has one.
pub uninterp spec fn url_host_parse(s: Seq<char>) -> Option<Option<UrlHostView>>;

/// Parses a URL with `url::Url::parse` and takes its host with `Url::host`.
#[verifier::external_body]
fn url_host(s: &str) -> (r: Option<Option<UrlHost>>)
    ensures
        match r {
            None => url_host_parse(s@) is None,
            Some(h) => url_host_parse(s@) == Some(host_view(h)),
        },
{
    match url::Url::parse(s) {
        Err(_) => None,
        Ok(u) => Some(match u.host() {
            None => None,
            Some(url::Host::Domain(d)) => Some(UrlHost::Domain(String::from(d))),
            Some(url::Host::Ipv4(a)) => Some(UrlHost::Ipv4(u32::from(a))),
            Some(url::Host::Ipv6(a)) => Some(UrlHost::Ipv6(u128::from(a))),
        }),
    }
}

/// Whether every character is an ASCII digit.
pub open spec fn all_digits(s: Seq<char>) -> bool {
    forall|i: int| 0 <= i < s.len() ==> '0' <= #[trigger] s[i] <= '9'
}

/// The number a string of decimal digits stands for.
pub open spec fn digits_value(s: Seq<char>) -> nat
    decreases s.len(),
{
    if s.len() == 0 {
        0
    } else {
        digits_value(s.drop_last()) * 10 + ((s.last() as int) - 48) as nat
    }
}

/// A port number as `u16`'s `FromStr` reads it: an optional `+`, then one or
/// more decimal digits whose value fits in 16 bits.
pub open spec fn port_parse(s: Seq<char>) -> Option<u16> {
    let d = if s.len() > 0 && s[0] == '+' { s.skip(1) } else { s };
    if d.len() > 0 && all_digits(d) && digits_value(d) <= 65535 {
        Some(digits_value(d) as u16)
    } else {
        None
    }
}

proof fn lemma_digits_value_prefix(d: Seq<char>, i: int)
    requires
        0 <= i <= d.len(),
        all_digits(d),
    ensures
        digits_value(d.take(i)) <= digits_value(d),
    decreases d.len(),
{
    if i < d.len() {
        assert(d.drop_last().take(i) =~= d.take(i));
        lemma_digits_value_prefix(d.drop_last(), i);
    } else {
        assert(d.take(i) =~= d);
    }
}

/// Parses a port number the way `str::parse::<u16>` does.
pub fn parse_port(s: &str) -> (r: Option<u16>)
    ensures
        r == port_parse(s@),
{
    let n = s.unicode_len();
    let start: usize = if n > 0 && s.get_char(0) == '+' { 1 } else { 0 };
    let ghost d = if s@.len() > 0 && s@[0] == '+' { s@.skip(1) } else { s@ };
    assert(d =~= s@.skip(start as int));
    if start >= n {
        return None;
    }
    let mut acc: u32 = 0;
    let mut i: usize = start;
    while i < n
        invariant
            n == s@.len(),
            start <= i <= n,
            start < n,
            d =~= s@.skip(start as int),
            d == (if s@.len() > 0 && s@[0] == '+' { s@.skip(1) } else { s@ }),
            acc <= 65535,
            acc == digits_value(d.take(i - start)),
            all_digits(d.take(i - start)),
        decreases n - i,
    {
        let c = s.get_char(i);
        if !('0' <= c && c <= '9') {
            assert(d[(i - start) as int] == c);
            assert(!all_digits(d));
            return None;
        }
        let next: u32 = acc * 10 + ((c as u32) - 48);
        assert(d.take(i + 1 - start).drop_last() =~= d.take(i - start));
        if next > 65535 {
            proof {
                if all_digits(d) {
                    lemma_digits_value_prefix(d, i + 1 - start);
                }
            }
            return None;
        }
        acc = next;
        i += 1;
    }
    assert(d.take(n - start) =~= d);
    Some(acc as u16)
}

/// The index of the last occurrence of `c` in `s`, if any.
pub open spec fn last_index_of(s: Seq<char>, c: char) -> Option<int>
    decreases s.len(),
{
    if s.len() == 0 {
        None
    } else if s.last() == c {
        Some(s.len() - 1)
    } else {
        last_index_of(s.drop_last(), c)
    }
}

/// The port written after the last `:` of an entry, if it parses.
pub open spec fn entry_port(entry: Seq<char>) -> Option<u16> {
    match last_index_of(entry, ':') {
        None => None,
        Some(k) => port_parse(entry.skip(k + 1)),
    }
}

/// Recovers the port of an allow-list entry from the text after its last
/// `:` (URL parsing drops the default port 80 of `http`).
pub fn port_after_last_colon(entry: &str) -> (r: Option<u16>)
    ensures
        r == entry_port(entry@),
{
    let n = entry.unicode_len();
    let mut i: usize = n;
    assert(entry@.take(n as int) =~= entry@);
    while i > 0
        invariant
            n == entry@.len(),
            i <= n,
            last_index_of(entry@, ':') == last_index_of(entry@.take(i as int), ':'),
        decreases i,
    {
        assert(entry@.take(i as int).drop_last() =~= entry@.take(i - 1));
        if entry.get_char(i - 1) == ':' {
            let rest = entry.substring_char(i, n);
            assert(rest@ =~= entry@.skip(i as int));
            return parse_port(rest);
        }
        i -= 1;
    }
    assert(entry@.take(0) =~= Seq::<char>::empty());
    None
}

} // verus!

verus! {

/// The network holding exactly one address (/32 or /128), as `ipnet`'s
/// `From<IpAddr> for IpNet` builds it.
pub open spec fn host_network(ip: IpAddress) -> IpNetwork {
    match ip {
        IpAddress::V4(_) => IpNetwork { addr: ip, prefix_len: 32 },
        IpAddress::V6(_) => IpNetwork { addr: ip, prefix_len: 128 },
    }
}

/// The filter for one address: the exact IP:port pair when a port was
/// given, otherwise the address on any port.
pub open spec fn address_filter(ip: IpAddress, port: Option<u16>) -> NetFilter {
    match port {
        Some(p) => NetFilter::IpPort(ip, p),
        None => NetFilter::Net(host_network(ip)),
    }
}

fn single_host_network(ip: IpAddress) -> (r: IpNetwork)
    ensures
        r == host_network(ip),
        r.wf(),
{
    match ip {
        IpAddress::V4(_) => IpNetwork { addr: ip, prefix_len: 32 },
        IpAddress::V6(_) => IpNetwork { addr: ip, prefix_len: 128 },
    }
}

/// Builds the filter for one address and an optional port.
pub fn filter_for_address(ip: IpAddress, port: Option<u16>) -> (r: NetFilter)
    ensures
        r == address_filter(ip, port),
        r.wf(),
{
    match port {
        Some(p) => NetFilter::IpPort(ip, p),
        None => NetFilter::Net(single_host_network(ip)),
    }
}

/// What becomes of one allow-list entry.
pub enum EntryPlan {
    /// The entry is a network, an address, or an address with a port.
    Filter(NetFilter),
    /// The entry names a host, which has to be resolved; each address it
    /// resolves to becomes a filter with the given port, if any.
    Resolve { host: String, port: Option<u16> },
    /// The entry parses as a URL without a host; it is skipped.
    NoHost,
    /// The entry does not parse at all; it is skipped.
    Invalid,
}

/// [`EntryPlan`] with the host name as characters.
pub enum EntryPlanView {
    Filter(NetFilter),
    Resolve(Seq<char>, Option<u16>),
    NoHost,
    Invalid,
}

/// The view of a plan.
pub open spec fn plan_view(p: EntryPlan) -> EntryPlanView {
    match p {
        EntryPlan::Filter(f) => EntryPlanView::Filter(f),
        EntryPlan::Resolve { host, port } => EntryPlanView::Resolve(host@, port),
        EntryPlan::NoHost => EntryPlanView::NoHost,
        EntryPlan::Invalid => EntryPlanView::Invalid,
    }
}

/// How an entry is read, given what the parsers made of it: first as a
/// CIDR network (`net`), then as a single IP address (`bare_ip`), then as
/// the host and optional port of the URL `http://{entry}` (`host`: `None`
/// when the URL does not parse, otherwise its host, if any); a domain host
/// is left for resolution.
pub open spec fn plan_of(
    entry: Seq<char>,
    net: Option<IpNetwork>,
    bare_ip: Option<IpAddress>,
    host: Option<Option<UrlHostView>>,
) -> EntryPlanView {
    match net {
        Some(n) => EntryPlanView::Filter(NetFilter::Net(n)),
        None => match bare_ip {
            Some(ip) => EntryPlanView::Filter(NetFilter::Net(host_network(ip))),
            None => match host {
                None => EntryPlanView::Invalid,
                Some(None) => EntryPlanView::NoHost,
                Some(Some(UrlHostView::Ipv4(a))) => EntryPlanView::Filter(address_filter(IpAddress::V4(a), entry_port(entry))),
                Some(Some(UrlHostView::Ipv6(a))) => EntryPlanView::Filter(address_filter(IpAddress::V6(a), entry_port(entry))),
                Some(Some(UrlHostView::Domain(d))) => EntryPlanView::Resolve(d, entry_port(entry)),
            },
        },
    }
}

/// How an entry is read: `plan_of` with the entry parsed by `ipnet` as a
/// network and by `url` as `http://{entry}` (`bare_ip` is the entry parsed
/// as an IP address).
pub open spec fn entry_plan(entry: Seq<char>, bare_ip: Option<IpAddress>) -> EntryPlanView {
    plan_of(entry, ipnet_parse(entry), bare_ip, url_host_parse("http://"@ + entry))
}

/// The view of what the URL parser gave.
pub open spec fn url_result_view(host: Option<Option<UrlHost>>) -> Option<Option<UrlHostView>> {
    match host {
        None => None,
        Some(h) => Some(host_view(h)),
    }
}

/// A plan's filter, when it has one, is well formed.
pub open spec fn plan_wf(p: EntryPlan) -> bool {
    p matches EntryPlan::Filter(f) ==> f.wf()
}

/// Decides what becomes of one allow-list entry from what the parsers made
/// of it: `net` (the entry as a CIDR network), `bare_ip` (the entry as an
/// IP address) and `host` (the URL `http://{entry}`: `None` when it does not
/// parse, otherwise its host, if any). `host` is read only when the entry is
/// neither a network nor an address.
pub fn plan_from(
    entry: &str,
    net: Option<IpNetwork>,
    bare_ip: Option<IpAddress>,
    host: Option<Option<UrlHost>>,
) -> (r: EntryPlan)
    requires
        net matches Some(n) ==> n.wf(),
    ensures
        plan_view(r) == plan_of(entry@, net, bare_ip, url_result_view(host)),
        plan_wf(r),
{
    if let Some(n) = net {
        return EntryPlan::Filter(NetFilter::Net(n));
    }
    if let Some(ip) = bare_ip {
        return EntryPlan::Filter(NetFilter::Net(single_host_network(ip)));
    }
    match host {
        None => EntryPlan::Invalid,
        Some(None) => EntryPlan::NoHost,
        Some(Some(h)) => {
            let port = port_after_last_colon(entry);
            match h {
                UrlHost::Ipv4(a) => EntryPlan::Filter(filter_for_address(IpAddress::V4(a), port)),
                UrlHost::Ipv6(a) => EntryPlan::Filter(filter_for_address(IpAddress::V6(a), port)),
                UrlHost::Domain(d) => EntryPlan::Resolve { host: d, port },
            }
        },
    }
}

/// Decides what becomes of one allow-list entry. `bare_ip` is the entry
/// parsed as a single IP address, if it is one. The entry is parsed as a
/// network with `ipnet`, and as a URL with `url` only when it is neither a
/// network nor an address.
pub fn plan_entry(entry: &str, bare_ip: Option<IpAddress>) -> (r: EntryPlan)
    ensures
        plan_view(r) == entry_plan(entry@, bare_ip),
        plan_wf(r),
{
    let net = parse_ip_net(entry);
    if net.is_some() || bare_ip.is_some() {
        return plan_from(entry, net, bare_ip, None);
    }
    let mut url = owned("http://");
    url.append(entry);
    let host = url_host(url.as_str());
    plan_from(entry, net, bare_ip, host)
}

/// Plans every entry of an allow-list, in order. `bare_ips[i]` is
/// `allow_net[i]` parsed as a single IP address, if it is one.
pub fn plan_filters(allow_net: &[String], bare_ips: &[Option<IpAddress>]) -> (r: Vec<EntryPlan>)
    requires
        bare_ips@.len() == allow_net@.len(),
    ensures
        r@.len() == allow_net@.len(),
        forall|i: int| 0 <= i < r@.len() ==> plan_view(#[trigger] r@[i]) == entry_plan(allow_net@[i]@, bare_ips@[i]),
        forall|i: int| 0 <= i < r@.len() ==> plan_wf(#[trigger] r@[i]),
{
    let mut out: Vec<EntryPlan> = Vec::new();
    let n = allow_net.len();
    let mut i: usize = 0;
    while i < n
        invariant
            n == allow_net@.len(),
            bare_ips@.len() == n,
            i <= n,
            out@.len() == i,
            forall|j: int| 0 <= j < i ==> plan_view(#[trigger] out@[j]) == entry_plan(allow_net@[j]@, bare_ips@[j]),
            forall|j: int| 0 <= j < i ==> plan_wf(#[trigger] out@[j]),
        decreases n - i,
    {
        out.push(plan_entry(allow_net[i].as_str(), bare_ips[i]));
        i += 1;
    }
    out
}

/// The filters an entry contributes: its own filter, or one filter per
/// address its host resolved to, or none.
pub open spec fn plan_filters_of(p: EntryPlan, resolved: Seq<IpAddress>) -> Seq<NetFilter> {
    match p {
        EntryPlan::Filter(f) => seq![f],
        EntryPlan::Resolve { host, port } => resolved.map_values(|ip: IpAddress| address_filter(ip, port)),
        EntryPlan::NoHost => Seq::empty(),
        EntryPlan::Invalid => Seq::empty(),
    }
}

/// The filters of all entries from position `i`, in entry order.
pub open spec fn assembled_filters(plans: Seq<EntryPlan>, resolved: Seq<Vec<IpAddress>>, i: int) -> Seq<NetFilter>
    decreases plans.len() - i,
{
    if i < 0 || i >= plans.len() {
        Seq::empty()
    } else {
        plan_filters_of(plans[i], resolved[i]@) + assembled_filters(plans, resolved, i + 1)
    }
}

/// Turns planned entries into the final filter list. `resolved[i]` holds the
/// addresses the host of a `Resolve` plan resolved to (empty when resolution
/// failed); it is not read for other plans.
pub fn assemble_filters(plans: &[EntryPlan], resolved: &[Vec<IpAddress>]) -> (r: Vec<NetFilter>)
    requires
        resolved@.len() == plans@.len(),
        forall|i: int| 0 <= i < plans@.len() ==> plan_wf(#[trigger] plans@[i]),
    ensures
        r@ == assembled_filters(plans@, resolved@, 0),
        forall|i: int| 0 <= i < r@.len() ==> (#[trigger] r@[i]).wf(),
{
    let mut out: Vec<NetFilter> = Vec::new();
    let n = plans.len();
    let mut i: usize = 0;
    while i < n
        invariant
            n == plans@.len(),
            resolved@.len() == n,
            i <= n,
            forall|k: int| 0 <= k < plans@.len() ==> plan_wf(#[trigger] plans@[k]),
            assembled_filters(plans@, resolved@, 0) == out@ + assembled_filters(plans@, resolved@, i as int),
            forall|k: int| 0 <= k < out@.len() ==> (#[trigger] out@[k]).wf(),
        decreases n - i,
    {
        let ghost before = out@;
        match &plans[i] {
            EntryPlan::Filter(f) => {
                out.push(*f);
            },
            EntryPlan::Resolve { host: _, port } => {
                let addrs = &resolved[i];
                let m = addrs.len();
                let mut j: usize = 0;
                while j < m
                    invariant
                        m == addrs@.len(),
                        j <= m,
                        out@ == before + addrs@.take(j as int).map_values(|ip: IpAddress| address_filter(ip, *port)),
                        forall|k: int| 0 <= k < out@.len() ==> (#[trigger] out@[k]).wf(),
                    decreases m - j,
                {
                    out.push(filter_for_address(addrs[j], *port));
                    assert(addrs@.take(j + 1).map_values(|ip: IpAddress| address_filter(ip, *port)) =~= addrs@.take(j as int).map_values(|ip: IpAddress| address_filter(ip, *port)).push(address_filter(addrs@[j as int], *port)));
                    j += 1;
                }
                assert(addrs@.take(m as int) =~= addrs@);
            },
            EntryPlan::NoHost => {},
            EntryPlan::Invalid => {},
        }
        proof {
            let own = plan_filters_of(plans@[i as int], resolved@[i as int]@);
            assert(out@ =~= before + own);
            let rest = assembled_filters(plans@, resolved@, i + 1);
            assert(before + (own + rest) =~= (before + own) + rest);
        }
        i += 1;
    }
    assert(out@ + Seq::<NetFilter>::empty() =~= out@);
    out
}

} // verus!

verus! {

/// Parses an allow-list into filters in one go: `bare_ips[i]` is
/// `allow_net[i]` parsed as a single IP address, and `resolved[i]` the
/// addresses its host resolved to (used only for host names).
pub fn parse_filters(allow_net: &[String], bare_ips: &[Option<IpAddress>], resolved: &[Vec<IpAddress>]) -> (r: Vec<NetFilter>)
    requires
        bare_ips@.len() == allow_net@.len(),
        resolved@.len() == allow_net@.len(),
    ensures
        exists|plans: Seq<EntryPlan>| {
            &&& plans.len() == allow_net@.len()
            &&& forall|i: int| 0 <= i < plans.len() ==> plan_view(#[trigger] plans[i]) == entry_plan(allow_net@[i]@, bare_ips@[i])
            &&& r@ == assembled_filters(plans, resolved@, 0)
        },
        forall|i: int| 0 <= i < r@.len() ==> (#[trigger] r@[i]).wf(),
{
    let plans = plan_filters(allow_net, bare_ips);
    let r = assemble_filters(plans.as_slice(), resolved);
    assert(plans@.len() == allow_net@.len() && r@ == assembled_filters(plans@, resolved@, 0));
    r
}

} // verus!

verus! {

/// The network of a single address holds exactly that address.
pub proof fn lemma_host_network_exact(ip: IpAddress, x: IpAddress)
    ensures
        network_contains(host_network(ip), x) <==> x == ip,
{
    match (ip, x) {
        (IpAddress::V4(a), IpAddress::V4(b)) => {
            assert(v4_netmask(32) == 0xffff_ffffu32) by (bit_vector);
            assert(v4_hostmask(32) == 0u32);
            assert((a & 0xffff_ffffu32) == a && (a | 0u32) == a) by (bit_vector);
        },
        (IpAddress::V6(a), IpAddress::V6(b)) => {
            assert(v6_netmask(128) == 0xffff_ffff_ffff_ffff_ffff_ffff_ffff_ffffu128) by (bit_vector);
            assert(v6_hostmask(128) == 0u128);
            assert((a & 0xffff_ffff_ffff_ffff_ffff_ffff_ffff_ffffu128) == a && (a | 0u128) == a) by (bit_vector);
        },
        _ => {},
    }
}

/// A filter for an address lets through exactly that address: on any port
/// when no port was given, on the given port only otherwise.
pub proof fn lemma_address_filter_matches(ip: IpAddress, port: Option<u16>, addr: SocketAddress)
    ensures
        filter_matches(address_filter(ip, port), addr) <==> match port {
            None => addr.ip == ip,
            Some(p) => addr.ip == ip && addr.port == p,
        },
{
    lemma_host_network_exact(ip, addr.ip);
}

/// An IPv4 network contains exactly the addresses that agree with it on its
/// first `prefix_len` bits.
pub proof fn lemma_v4_contains_prefix(a: u32, p: u8, x: u32)
    requires
        p <= 32,
    ensures
        network_contains(IpNetwork { addr: IpAddress::V4(a), prefix_len: p }, IpAddress::V4(x))
            <==> (x & v4_netmask(p)) == (a & v4_netmask(p)),
{
    if p == 0 {
        assert(v4_hostmask(0) == 0xffff_ffffu32) by (bit_vector);
        assert((a & 0u32) == 0u32 && (x & 0u32) == 0u32 && x <= (a | 0xffff_ffffu32)) by (bit_vector);
    } else if p == 32 {
        assert(v4_netmask(32) == 0xffff_ffffu32) by (bit_vector);
        assert((a & 0xffff_ffffu32) == a && (x & 0xffff_ffffu32) == x && (a | 0u32) == a) by (bit_vector);
    } else {
        let m: u32 = 0xffff_ffffu32 << ((32 - p) as u32);
        let h: u32 = 0xffff_ffffu32 >> (p as u32);
        let s: u32 = (32 - p) as u32;
        assert(m == 0xffff_ffffu32 << s);
        assert(h == 0xffff_ffffu32 >> (p as u32));
        assert(h == !m) by (bit_vector)
            requires
                1 <= p <= 31,
                s == 32 - p,
                m == 0xffff_ffffu32 << s,
                h == 0xffff_ffffu32 >> (p as u32),
        ;
        assert(((a & m) <= x && x <= (a | h)) <==> ((x & m) == (a & m))) by (bit_vector)
            requires
                h == !m,
                1 <= p <= 31,
                s == 32 - p,
                m == 0xffff_ffffu32 << s,
        ;
    }
}

} // verus!

verus! {

// ---------------------------------------------------------------------------
// Laws of the assembled allow-list
// ---------------------------------------------------------------------------

proof fn lemma_assembled_contains(plans: Seq<EntryPlan>, resolved: Seq<Vec<IpAddress>>, j: int, i: int, t: int)
    requires
        0 <= j <= i < plans.len(),
        0 <= t < plan_filters_of(plans[i], resolved[i]@).len(),
    ensures
        exists|m: int| 0 <= m < assembled_filters(plans, resolved, j).len()
            && #[trigger] assembled_filters(plans, resolved, j)[m] == plan_filters_of(plans[i], resolved[i]@)[t],
    decreases i - j,
{
    let a = assembled_filters(plans, resolved, j);
    let head = plan_filters_of(plans[j], resolved[j]@);
    let rest = assembled_filters(plans, resolved, j + 1);
    assert(a == head + rest);
    if j == i {
        assert(a[t] == head[t]);
    } else {
        lemma_assembled_contains(plans, resolved, j + 1, i, t);
        let m = choose|m: int| 0 <= m < rest.len() && #[trigger] rest[m] == plan_filters_of(plans[i], resolved[i]@)[t];
        assert(a[head.len() + m] == rest[m]);
    }
}

/// Each address a host entry resolved to is in the allow-list as a filter
/// that lets through exactly that address: on any port when the entry names
/// no port, and only on the named port when it names one.
pub proof fn lemma_resolved_host_filter(plans: Seq<EntryPlan>, resolved: Seq<Vec<IpAddress>>, i: int, t: int)
    requires
        0 <= i < plans.len(),
        resolved.len() == plans.len(),
        plans[i] is Resolve,
        0 <= t < resolved[i]@.len(),
    ensures
        ({
            let ip = resolved[i]@[t];
            let port = plans[i]->Resolve_port;
            let all = assembled_filters(plans, resolved, 0);
            exists|m: int| #![trigger all[m]] 0 <= m < all.len() && forall|a: SocketAddress| #[trigger] filter_matches(all[m], a) <==> (a.ip == ip && match port {
                None => true,
                Some(p) => a.port == p,
            })
        }),
{
    let ip = resolved[i]@[t];
    let port = plans[i]->Resolve_port;
    let all = assembled_filters(plans, resolved, 0);
    let f = address_filter(ip, port);
    assert(plan_filters_of(plans[i], resolved[i]@)[t] == f);
    lemma_assembled_contains(plans, resolved, 0, i, t);
    let m = choose|m: int| 0 <= m < all.len() && #[trigger] all[m] == plan_filters_of(plans[i], resolved[i]@)[t];
    assert forall|a: SocketAddress| #[trigger] filter_matches(all[m], a) <==> (a.ip == ip && match port {
        None => true,
        Some(p) => a.port == p,
    }) by {
        lemma_address_filter_matches(ip, port, a);
    }
}

/// A socket on an address that a port-less host entry resolved to is
/// allowed, whatever its port.
pub proof fn lemma_resolved_host_any_port(plans: Seq<EntryPlan>, resolved: Seq<Vec<IpAddress>>, i: int, t: int, a: SocketAddress)
    requires
        0 <= i < plans.len(),
        resolved.len() == plans.len(),
        plans[i] matches EntryPlan::Resolve { port: None, .. },
        0 <= t < resolved[i]@.len(),
        a.ip == resolved[i]@[t],
    ensures
        exists|m: int| 0 <= m < assembled_filters(plans, resolved, 0).len()
            && #[trigger] filter_matches(assembled_filters(plans, resolved, 0)[m], a),
{
    let ip = resolved[i]@[t];
    let all = assembled_filters(plans, resolved, 0);
    assert(plan_filters_of(plans[i], resolved[i]@)[t] == address_filter(ip, None));
    lemma_assembled_contains(plans, resolved, 0, i, t);
    let m = choose|m: int| 0 <= m < all.len() && #[trigger] all[m] == plan_filters_of(plans[i], resolved[i]@)[t];
    lemma_address_filter_matches(ip, None, a);
    assert(filter_matches(all[m], a));
}

} // verus!
