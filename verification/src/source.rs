//! The IP sources: the closed set of strategies an updater can be configured
//! with to discover the host's current address, and the address-selection
//! rules of each. The network and process calls themselves happen outside
//! the library; the functions here turn what those calls return into an
//! address or an exact failure.

use vstd::prelude::*;
use vstd::utf8::encode_utf8;

use crate::error::Error;
use crate::ip::{spec_parse_ip, spec_parse_ipv6, spec_trimmed, parse_ip, parse_ipv6, trimmed,
    IpAddress};
use crate::text::append_str;

verus! {

/// Looks the address up on the IpIp web page.
#[derive(Debug)]
pub struct IpIp;

impl IpIp {
    /// A new IpIp lookup.
    pub fn new() -> IpIp {
        IpIp
    }
}

/// What the fixed IpIp page pattern captures out of a fetched page; the
/// capture depends on the page text alone.
pub uninterp spec fn ipip_page_capture(page: Seq<char>) -> Option<Seq<char>>;

/// Relies on `regex::Regex::captures` with the fixed pattern below: a
/// deterministic match over the page text, yielding its first capture group.
#[verifier::external_body]
fn capture_ip_text(page: &str) -> (r: Option<String>)
    ensures
        match r {
            Some(t) => ipip_page_capture(page@) == Some(t@),
            None => ipip_page_capture(page@) is None,
        },
{
    regex::Regex::new(
        r"\$\('input\[name=ip\]'\).attr\('value', '(.+)'\).get\(0\).form.submit\(\);",
    )
        .ok()
        .and_then(|re| re.captures(page))
        .and_then(|c| c.get(1))
        .map(|m| m.as_str().to_string())
}

impl IpIp {
    /// IpIp serves only IPv4 lookups: a bound IPv6 local address is rejected
    /// before any request is made.
    pub fn check_bind(bind_address: &Option<IpAddress>) -> (r: Result<(), Error>)
        ensures
            match bind_address {
                Some(a) => if a is V6 {
                    r matches Err(e) && e@ == "IpIp \u{4e0d}\u{652f}\u{6301}\u{83b7}\u{53d6} IPv6 \u{5730}\u{5740}"@
                } else {
                    r is Ok
                },
                None => r is Ok,
            },
    {
        match bind_address {
            Some(a) => if a.is_ipv6() {
                Err(Error::new_str("IpIp \u{4e0d}\u{652f}\u{6301}\u{83b7}\u{53d6} IPv6 \u{5730}\u{5740}"))
            } else {
                Ok(())
            },
            None => Ok(()),
        }
    }

    /// Reads the address out of a fetched IpIp page: the page pattern's
    /// capture must parse as an address.
    pub fn extract_address(page: &str) -> (r: Result<IpAddress, Error>)
        ensures
            match ipip_page_capture(page@) {
                Some(t) => match spec_parse_ip(encode_utf8(t)) {
                    Some(a) => r == Ok::<IpAddress, Error>(a),
                    None => r matches Err(e) && e@ == "\u{89e3}\u{6790} IpIp \u{7f51}\u{9875}\u{5931}\u{8d25}"@,
                },
                None => r matches Err(e) && e@ == "\u{89e3}\u{6790} IpIp \u{7f51}\u{9875}\u{5931}\u{8d25}"@,
            },
    {
        match capture_ip_text(page) {
            Some(t) => match parse_ip(t.as_str().as_bytes()) {
                Some(a) => Ok(a),
                None => Err(Error::new_str("\u{89e3}\u{6790} IpIp \u{7f51}\u{9875}\u{5931}\u{8d25}")),
            },
            None => Err(Error::new_str("\u{89e3}\u{6790} IpIp \u{7f51}\u{9875}\u{5931}\u{8d25}")),
        }
    }
}

/// The failure text when a standalone server's response is not an address.
pub open spec fn standalone_parse_failure_chars(url: Seq<char>) -> Seq<char> {
    "\u{72ec}\u{7acb}\u{670d}\u{52a1}\u{5668} "@ + url + " \u{54cd}\u{5e94}\u{6d88}\u{606f}\u{5e76}\u{975e}\u{5408}\u{6cd5} IP \u{5730}\u{5740}"@
}

/// Asks a dedicated server, which answers with the address as its whole
/// response body.
#[derive(Debug)]
pub struct Standalone {
    pub url: String,
}

impl Standalone {
    /// A new standalone-server lookup against `url`.
    pub fn new(url: String) -> (s: Standalone)
        ensures
            s.url@ == url@,
    {
        Standalone { url }
    }

    /// Reads the server's response body: trimmed, it must parse as an
    /// address.
    pub fn parse_body(&self, body: &[u8]) -> (r: Result<IpAddress, Error>)
        ensures
            match spec_parse_ip(spec_trimmed(body@)) {
                Some(a) => r == Ok::<IpAddress, Error>(a),
                None => r matches Err(e) && e@ == standalone_parse_failure_chars(self.url@),
            },
    {
        match parse_ip(trimmed(body)) {
            Some(a) => Ok(a),
            None => {
                let mut message = "\u{72ec}\u{7acb}\u{670d}\u{52a1}\u{5668} ".to_owned();
                append_str(&mut message, self.url.as_str());
                append_str(&mut message, " \u{54cd}\u{5e94}\u{6d88}\u{606f}\u{5e76}\u{975e}\u{5408}\u{6cd5} IP \u{5730}\u{5740}");
                Err(Error::new_string(message))
            },
        }
    }
}

/// One address entry of a local interface listing.
#[derive(Debug, Clone)]
pub struct AddrInfo {
    pub local: IpAddress,
    pub scope: String,
    pub temporary: bool,
    pub dynamic: bool,
    pub mngtmpaddr: bool,
    pub noprefixroute: bool,
}

/// One entry of a local interface listing.
#[derive(Debug, Clone)]
pub struct Interface {
    pub ifname: String,
    pub operstate: String,
    pub addr_info: Vec<AddrInfo>,
}

/// Whether an interface entry is considered: its name matches the wanted one
/// (every name matches when none is wanted) and its operational state is up.
pub open spec fn interface_matches(i: Interface, wanted: Option<Seq<char>>) -> bool {
    &&& match wanted {
        Some(n) => i.ifname@ == n,
        None => true,
    }
    &&& i.operstate@ == "UP"@
}

/// Whether an address entry qualifies: global scope, dynamic, a managed
/// temporary address, without a prefix route, and not itself temporary.
pub open spec fn addr_qualifies(a: AddrInfo) -> bool {
    a.scope@ == "global"@ && !a.temporary && a.dynamic && a.mngtmpaddr && a.noprefixroute
}

/// The first interface entry that matches.
pub open spec fn spec_select_interface(s: Seq<Interface>, wanted: Option<Seq<char>>) -> Option<
    Interface,
>
    decreases s.len(),
{
    if s.len() == 0 {
        None
    } else if interface_matches(s[0], wanted) {
        Some(s[0])
    } else {
        spec_select_interface(s.skip(1), wanted)
    }
}

/// The first qualifying address entry.
pub open spec fn spec_select_addr(s: Seq<AddrInfo>) -> Option<AddrInfo>
    decreases s.len(),
{
    if s.len() == 0 {
        None
    } else if addr_qualifies(s[0]) {
        Some(s[0])
    } else {
        spec_select_addr(s.skip(1))
    }
}

/// The address the interface listing yields: the first qualifying address of
/// the first matching interface alone.
pub open spec fn spec_select_linux(s: Seq<Interface>, wanted: Option<Seq<char>>) -> Option<
    IpAddress,
> {
    match spec_select_interface(s, wanted) {
        Some(i) => match spec_select_addr(i.addr_info@) {
            Some(a) => Some(a.local),
            None => None,
        },
        None => None,
    }
}

/// Whether a candidate address from the Windows listing is kept: an IPv6
/// address that is not loopback, unspecified, multicast, link-local or
/// unique-local.
pub open spec fn windows_qualifies(a: IpAddress) -> bool {
    &&& a is V6
    &&& !a.spec_is_loopback()
    &&& !a.spec_is_unspecified()
    &&& !a.spec_is_multicast()
    &&& !a.spec_is_unicast_link_local()
    &&& !a.spec_is_unique_local()
}

/// The first entry of the Windows listing that parses as an IPv6 address and
/// qualifies.
pub open spec fn spec_select_windows(s: Seq<Seq<char>>) -> Option<IpAddress>
    decreases s.len(),
{
    if s.len() == 0 {
        None
    } else {
        match spec_parse_ipv6(encode_utf8(s[0])) {
            Some(a) => if windows_qualifies(a) {
                Some(a)
            } else {
                spec_select_windows(s.skip(1))
            },
            None => spec_select_windows(s.skip(1)),
        }
    }
}

/// Queries the local network interfaces for an IPv6 address, optionally
/// restricted to one interface by name.
#[derive(Debug)]
pub struct LocalIPv6(pub Option<String>);

impl LocalIPv6 {
    /// A new local-interface lookup, optionally bound to one interface name.
    pub fn new(interface_name: Option<String>) -> (s: LocalIPv6)
        ensures
            s.0 == interface_name,
    {
        LocalIPv6(interface_name)
    }

    /// Picks the address out of the listing that the `ip` command produced:
    /// the first qualifying address of the first matching interface.
    #[verifier::loop_isolation(false)]
    pub fn select_linux(&self, interfaces: &Vec<Interface>) -> (r: Result<IpAddress, Error>)
        ensures
            match spec_select_linux(interfaces@, self.0.deep_view()) {
                Some(a) => r == Ok::<IpAddress, Error>(a),
                None => r matches Err(e) && e@ == "\u{672a}\u{5339}\u{914d}\u{5230}\u{5408}\u{6cd5}\u{7684} IPv6 \u{5730}\u{5740}"@,
            },
    {
        let up: String = "UP".to_owned();
        let global: String = "global".to_owned();
        let mut i: usize = 0;
        proof {
            assert(interfaces@.skip(0) =~= interfaces@);
        }
        while i < interfaces.len()
            invariant
                i <= interfaces@.len(),
                up@ == "UP"@,
                global@ == "global"@,
                spec_select_interface(interfaces@, self.0.deep_view())
                    == spec_select_interface(interfaces@.skip(i as int), self.0.deep_view()),
            decreases interfaces@.len() - i,
        {
            let entry = &interfaces[i];
            let name_matches = match self.0.as_ref() {
                Some(n) => entry.ifname.eq(n),
                None => true,
            };
            proof {
                assert(interfaces@.skip(i as int)[0] == interfaces@[i as int]);
            }
            if name_matches && entry.operstate.eq(&up) {
                let mut j: usize = 0;
                while j < entry.addr_info.len()
                    invariant
                        j <= entry.addr_info@.len(),
                        global@ == "global"@,
                        addr_qualifies_up_to(entry.addr_info@, j as int),
                    decreases entry.addr_info@.len() - j,
                {
                    let a = &entry.addr_info[j];
                    if a.scope.eq(&global) && !a.temporary && a.dynamic && a.mngtmpaddr
                        && a.noprefixroute {
                        proof {
                            assert(interface_matches(interfaces@[i as int], self.0.deep_view()));
                            assert(spec_select_interface(
                                interfaces@.skip(i as int),
                                self.0.deep_view(),
                            ) == Some(interfaces@[i as int]));
                            lemma_select_addr_found(entry.addr_info@, j as int);
                        }
                        return Ok(a.local);
                    }
                    j = j + 1;
                }
                proof {
                    assert(interface_matches(interfaces@[i as int], self.0.deep_view()));
                    assert(spec_select_interface(interfaces@.skip(i as int), self.0.deep_view())
                        == Some(interfaces@[i as int]));
                    lemma_select_addr_none(entry.addr_info@, entry.addr_info@.len() as int);
                }
                return Err(Error::new_str("\u{672a}\u{5339}\u{914d}\u{5230}\u{5408}\u{6cd5}\u{7684} IPv6 \u{5730}\u{5740}"));
            }
            proof {
                assert(interfaces@.skip(i as int).skip(1) =~= interfaces@.skip(i + 1));
            }
            i = i + 1;
        }
        Err(Error::new_str("\u{672a}\u{5339}\u{914d}\u{5230}\u{5408}\u{6cd5}\u{7684} IPv6 \u{5730}\u{5740}"))
    }

    /// Picks the address out of the listing that the Windows query produced:
    /// the first entry that parses as a qualifying IPv6 address.
    #[verifier::loop_isolation(false)]
    pub fn select_windows(&self, addresses: &Vec<String>) -> (r: Result<IpAddress, Error>)
        ensures
            match spec_select_windows(addresses.deep_view()) {
                Some(a) => r == Ok::<IpAddress, Error>(a),
                None => r matches Err(e) && e@ == "\u{672a}\u{5339}\u{914d}\u{5230}\u{5408}\u{6cd5}\u{7684} IPv6 \u{5730}\u{5740}"@,
            },
    {
        let mut i: usize = 0;
        proof {
            assert(addresses.deep_view().skip(0) =~= addresses.deep_view());
        }
        while i < addresses.len()
            invariant
                i <= addresses@.len(),
                spec_select_windows(addresses.deep_view()) == spec_select_windows(
                    addresses.deep_view().skip(i as int),
                ),
            decreases addresses@.len() - i,
        {
            proof {
                assert(addresses.deep_view().skip(i as int)[0] == addresses.deep_view()[i as int]);
                assert(addresses.deep_view()[i as int] == addresses@[i as int]@);
                assert(addresses.deep_view().skip(i as int).skip(1) =~= addresses.deep_view().skip(
                    i + 1,
                ));
            }
            if let Some(a) = parse_ipv6(addresses[i].as_str().as_bytes()) {
                let keep = !a.is_loopback() && !a.is_unspecified() && !a.is_multicast()
                    && !a.is_unicast_link_local() && !a.is_unique_local();
                if keep {
                    return Ok(a);
                }
            }
            i = i + 1;
        }
        Err(Error::new_str("\u{672a}\u{5339}\u{914d}\u{5230}\u{5408}\u{6cd5}\u{7684} IPv6 \u{5730}\u{5740}"))
    }
}

/// No address entry before `j` qualifies.
pub open spec fn addr_qualifies_up_to(s: Seq<AddrInfo>, j: int) -> bool {
    forall|k: int| 0 <= k < j ==> !addr_qualifies(#[trigger] s[k])
}

/// When the first `j` entries fail and entry `j` qualifies, it is the
/// selected one.
proof fn lemma_select_addr_found(s: Seq<AddrInfo>, j: int)
    requires
        0 <= j < s.len(),
        addr_qualifies_up_to(s, j),
        addr_qualifies(s[j]),
    ensures
        spec_select_addr(s) == Some(s[j]),
    decreases j,
{
    if j == 0 {
    } else {
        assert(!addr_qualifies(s[0]));
        assert(s.skip(1)[j - 1] == s[j]);
        assert(forall|k: int| 0 <= k < j - 1 ==> s.skip(1)[k] == s[k + 1]);
        lemma_select_addr_found(s.skip(1), j - 1);
    }
}

/// When no entry qualifies, none is selected.
proof fn lemma_select_addr_none(s: Seq<AddrInfo>, j: int)
    requires
        j == s.len(),
        addr_qualifies_up_to(s, j),
    ensures
        spec_select_addr(s) is None,
    decreases s.len(),
{
    if s.len() == 0 {
    } else {
        assert(!addr_qualifies(s[0]));
        assert(forall|k: int| 0 <= k < s.len() - 1 ==> s.skip(1)[k] == s[k + 1]);
        lemma_select_addr_none(s.skip(1), s.len() - 1);
    }
}

/// A standalone lookup meant for the host's stable local IPv6 address; it
/// is not selectable from configuration.
#[derive(Debug)]
pub struct LocalStableIPv6;

impl LocalStableIPv6 {
    /// A new stable local IPv6 lookup.
    pub fn new() -> LocalStableIPv6 {
        LocalStableIPv6
    }
}

/// The closed set of IP sources an updater can be configured with.
#[derive(Debug)]
pub enum IpSourceKind {
    IpIp(IpIp),
    Standalone(Standalone),
    LocalIPv6(LocalIPv6),
}

impl IpSourceKind {
    /// The source's display name.
    pub fn name(&self) -> (n: &'static str)
        ensures
            self is IpIp ==> n@ == "IpIp"@,
            self is Standalone ==> n@ == "Standalone Server"@,
            self is LocalIPv6 ==> n@ == "Local IPv6"@,
    {
        match self {
            IpSourceKind::IpIp(_) => "IpIp",
            IpSourceKind::Standalone(_) => "Standalone Server",
            IpSourceKind::LocalIPv6(_) => "Local IPv6",
        }
    }

    /// The extra detail worth logging beside the name: the standalone
    /// server's address, or the chosen interface.
    pub fn info(&self) -> (r: Option<String>)
        ensures
            match self {
                IpSourceKind::IpIp(_) => r is None,
                IpSourceKind::Standalone(s) => r matches Some(t) && t@ == s.url@,
                IpSourceKind::LocalIPv6(l) => match l.0 {
                    Some(n) => r matches Some(t) && t@ == "\u{6307}\u{5b9a}\u{7f51}\u{5361}\u{63a5}\u{53e3} "@ + n@,
                    None => r is None,
                },
            },
    {
        match self {
            IpSourceKind::IpIp(_) => None,
            IpSourceKind::Standalone(s) => Some(s.url.clone()),
            IpSourceKind::LocalIPv6(l) => match l.0.as_ref() {
                Some(n) => {
                    let mut t = "\u{6307}\u{5b9a}\u{7f51}\u{5361}\u{63a5}\u{53e3} ".to_owned();
                    append_str(&mut t, n.as_str());
                    Some(t)
                },
                None => None,
            },
        }
    }
}

} // verus!
