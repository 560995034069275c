//! The built-in provider list: process-wide immutable data, loaded as a
//! constant, and the two ready-made resolvers over it.

use vstd::prelude::*;

use crate::info::ProviderInfo;
use crate::info::ProviderInfoModel;
use crate::info::ProviderInfoProtocol;
use crate::info::ProviderInfoType;
use crate::resolver::ProviderAny;
use crate::resolver::ResolveRun;
use crate::resolver::created_entry;

verus! {

/// The built-in provider list as configuration text.
pub const DEFAULT_TOML: &'static str = r#"
    [[providers]]
        name     = "ipv6-test"
        ptype    = "IPv4"
        protocol = "HttpPlane"
        url      = "http://v4.ipv6-test.com/api/myip.php"
        key      = []

    [[providers]]
        name     = "ipv6-test"
        ptype    = "IPv6"
        protocol = "HttpPlane"
        url      = "http://v6.ipv6-test.com/api/myip.php"
        key      = []

    [[providers]]
        name     = "ident.me"
        ptype    = "IPv4"
        protocol = "HttpPlane"
        url      = "http://v4.ident.me/"
        key      = []

    [[providers]]
        name     = "ident.me"
        ptype    = "IPv6"
        protocol = "HttpPlane"
        url      = "http://v6.ident.me/"
        key      = []

    [[providers]]
        name     = "test-ipv6"
        ptype    = "IPv4"
        protocol = "HttpJson"
        url      = "http://ipv4.test-ipv6.com/ip/"
        key      = ["ip"]
        padding  = "callback"

    [[providers]]
        name     = "test-ipv6"
        ptype    = "IPv6"
        protocol = "HttpJson"
        url      = "http://ipv6.test-ipv6.com/ip/"
        key      = ["ip"]
        padding  = "callback"

    [[providers]]
        name     = "opendns.com"
        ptype    = "IPv4"
        protocol = "Dns"
        url      = "myip.opendns.com@resolver1.opendns.com"
        key      = []

    [[providers]]
        name     = "opendns.com"
        ptype    = "IPv6"
        protocol = "Dns"
        url      = "myip.opendns.com@resolver1.opendns.com"
        key      = []

    [[providers]]
        name     = "akamai.net"
        ptype    = "IPv4"
        protocol = "Dns"
        url      = "whoami.akamai.net@ns1-1.akamaitech.net"
        key      = []

    [[providers]]
        name     = "akamai.net"
        ptype    = "IPv6"
        protocol = "Dns"
        url      = "whoami.akamai.net@ns1-1.akamaitech.net"
        key      = []
"#;

/// The descriptors of the built-in providers, in their fixed order: each
/// service once per address family.
pub open spec fn default_descriptors() -> Seq<ProviderInfoModel> {
    seq![
        ProviderInfoModel {
            name: "ipv6-test"@,
            ptype: ProviderInfoType::IPv4,
            protocol: ProviderInfoProtocol::HttpPlane,
            url: "http://v4.ipv6-test.com/api/myip.php"@,
            key: Seq::<Seq<char>>::empty(),
            padding: None,
            record: None,
        },
        ProviderInfoModel {
            name: "ipv6-test"@,
            ptype: ProviderInfoType::IPv6,
            protocol: ProviderInfoProtocol::HttpPlane,
            url: "http://v6.ipv6-test.com/api/myip.php"@,
            key: Seq::<Seq<char>>::empty(),
            padding: None,
            record: None,
        },
        ProviderInfoModel {
            name: "ident.me"@,
            ptype: ProviderInfoType::IPv4,
            protocol: ProviderInfoProtocol::HttpPlane,
            url: "http://v4.ident.me/"@,
            key: Seq::<Seq<char>>::empty(),
            padding: None,
            record: None,
        },
        ProviderInfoModel {
            name: "ident.me"@,
            ptype: ProviderInfoType::IPv6,
            protocol: ProviderInfoProtocol::HttpPlane,
            url: "http://v6.ident.me/"@,
            key: Seq::<Seq<char>>::empty(),
            padding: None,
            record: None,
        },
        ProviderInfoModel {
            name: "test-ipv6"@,
            ptype: ProviderInfoType::IPv4,
            protocol: ProviderInfoProtocol::HttpJson,
            url: "http://ipv4.test-ipv6.com/ip/"@,
            key: seq!["ip"@],
            padding: Some("callback"@),
            record: None,
        },
        ProviderInfoModel {
            name: "test-ipv6"@,
            ptype: ProviderInfoType::IPv6,
            protocol: ProviderInfoProtocol::HttpJson,
            url: "http://ipv6.test-ipv6.com/ip/"@,
            key: seq!["ip"@],
            padding: Some("callback"@),
            record: None,
        },
        ProviderInfoModel {
            name: "opendns.com"@,
            ptype: ProviderInfoType::IPv4,
            protocol: ProviderInfoProtocol::Dns,
            url: "myip.opendns.com@resolver1.opendns.com"@,
            key: Seq::<Seq<char>>::empty(),
            padding: None,
            record: None,
        },
        ProviderInfoModel {
            name: "opendns.com"@,
            ptype: ProviderInfoType::IPv6,
            protocol: ProviderInfoProtocol::Dns,
            url: "myip.opendns.com@resolver1.opendns.com"@,
            key: Seq::<Seq<char>>::empty(),
            padding: None,
            record: None,
        },
        ProviderInfoModel {
            name: "akamai.net"@,
            ptype: ProviderInfoType::IPv4,
            protocol: ProviderInfoProtocol::Dns,
            url: "whoami.akamai.net@ns1-1.akamaitech.net"@,
            key: Seq::<Seq<char>>::empty(),
            padding: None,
            record: None,
        },
        ProviderInfoModel {
            name: "akamai.net"@,
            ptype: ProviderInfoType::IPv6,
            protocol: ProviderInfoProtocol::Dns,
            url: "whoami.akamai.net@ns1-1.akamaitech.net"@,
            key: Seq::<Seq<char>>::empty(),
            padding: None,
            record: None,
        },
    ]
}

/// Law: every built-in descriptor satisfies the structural invariant —
/// the JSON providers name a key, and each DNS locator holds exactly one
/// `@` separator.
pub proof fn lemma_default_descriptors_well_formed()
    ensures
        forall|i: int|
            0 <= i < default_descriptors().len() ==> #[trigger] default_descriptors()[i].well_formed(),
{
    assert forall|i: int|
        0 <= i < default_descriptors().len() implies #[trigger] default_descriptors()[i].well_formed() by {
        reveal_with_fuel(crate::text::find_char_from, 45);
        reveal_strlit("myip.opendns.com@resolver1.opendns.com");
        reveal_strlit("whoami.akamai.net@ns1-1.akamaitech.net");
        assert(default_descriptors()[6].well_formed());
        assert(default_descriptors()[7].well_formed());
        assert(default_descriptors()[8].well_formed());
        assert(default_descriptors()[9].well_formed());
        assert(default_descriptors()[0].well_formed());
        assert(default_descriptors()[1].well_formed());
        assert(default_descriptors()[2].well_formed());
        assert(default_descriptors()[3].well_formed());
        assert(default_descriptors()[4].well_formed());
        assert(default_descriptors()[5].well_formed());
    }
}

/// Builds the built-in descriptors as values.
pub fn default_provider_infos() -> (r: Vec<ProviderInfo>)
    ensures
        r@.len() == default_descriptors().len(),
        forall|i: int| 0 <= i < r@.len() ==> r@[i]@ == default_descriptors()[i],
{
    let empty_key: Vec<String> = Vec::new();
    let ip_key_src: Vec<String> = vec![String::from_str("ip")];
    let mut r: Vec<ProviderInfo> = Vec::new();
    r.push(
        ProviderInfo::new().name("ipv6-test").ptype(ProviderInfoType::IPv4).protocol(
            ProviderInfoProtocol::HttpPlane,
        ).url("http://v4.ipv6-test.com/api/myip.php").key(&empty_key),
    );
    r.push(
        ProviderInfo::new().name("ipv6-test").ptype(ProviderInfoType::IPv6).protocol(
            ProviderInfoProtocol::HttpPlane,
        ).url("http://v6.ipv6-test.com/api/myip.php").key(&empty_key),
    );
    r.push(
        ProviderInfo::new().name("ident.me").ptype(ProviderInfoType::IPv4).protocol(
            ProviderInfoProtocol::HttpPlane,
        ).url("http://v4.ident.me/").key(&empty_key),
    );
    r.push(
        ProviderInfo::new().name("ident.me").ptype(ProviderInfoType::IPv6).protocol(
            ProviderInfoProtocol::HttpPlane,
        ).url("http://v6.ident.me/").key(&empty_key),
    );
    r.push(
        ProviderInfo::new().name("test-ipv6").ptype(ProviderInfoType::IPv4).protocol(
            ProviderInfoProtocol::HttpJson,
        ).url("http://ipv4.test-ipv6.com/ip/").key(&ip_key_src).padding("callback"),
    );
    r.push(
        ProviderInfo::new().name("test-ipv6").ptype(ProviderInfoType::IPv6).protocol(
            ProviderInfoProtocol::HttpJson,
        ).url("http://ipv6.test-ipv6.com/ip/").key(&ip_key_src).padding("callback"),
    );
    r.push(
        ProviderInfo::new().name("opendns.com").ptype(ProviderInfoType::IPv4).protocol(
            ProviderInfoProtocol::Dns,
        ).url("myip.opendns.com@resolver1.opendns.com").key(&empty_key),
    );
    r.push(
        ProviderInfo::new().name("opendns.com").ptype(ProviderInfoType::IPv6).protocol(
            ProviderInfoProtocol::Dns,
        ).url("myip.opendns.com@resolver1.opendns.com").key(&empty_key),
    );
    r.push(
        ProviderInfo::new().name("akamai.net").ptype(ProviderInfoType::IPv4).protocol(
            ProviderInfoProtocol::Dns,
        ).url("whoami.akamai.net@ns1-1.akamaitech.net").key(&empty_key),
    );
    r.push(
        ProviderInfo::new().name("akamai.net").ptype(ProviderInfoType::IPv6).protocol(
            ProviderInfoProtocol::Dns,
        ).url("whoami.akamai.net@ns1-1.akamaitech.net").key(&empty_key),
    );
    proof {
        assert(empty_key.deep_view() =~= Seq::<Seq<char>>::empty());
        assert(ip_key_src.deep_view() =~= seq!["ip"@]);
        assert forall|i: int| 0 <= i < r@.len() implies r@[i]@ =~= default_descriptors()[i] by {
        }
    }
    r
}

/// A provider set over the built-in list, answering for one family.
fn default_provider_any(ptype: ProviderInfoType) -> (r: ProviderAny)
    ensures
        r.ptype == ptype,
        r.providers@.len() == default_descriptors().len(),
        forall|i: int|
            0 <= i < r.providers@.len() ==> created_entry(default_descriptors()[i], r.providers@[i]),
{
    let mut infos = default_provider_infos();
    let mut providers: Vec<crate::resolver::ProviderEntry> = Vec::new();
    let ghost ms = default_descriptors();
    while infos.len() > 0
        invariant
            providers@.len() + infos@.len() == ms.len(),
            forall|i: int| 0 <= i < infos@.len() ==> infos@[i]@ == ms[providers@.len() + i],
            forall|i: int| 0 <= i < providers@.len() ==> created_entry(ms[i], providers@[i]),
        decreases infos@.len(),
    {
        let info = infos.remove(0);
        providers.push(info.create());
    }
    ProviderAny { providers, ptype }
}

/// A ready-made resolver over the built-in providers, asking for IPv4.
pub struct ProviderDefaultV4 {
    /// The underlying provider set.
    pub provider: ProviderAny,
}

impl ProviderDefaultV4 {
    /// The built-in provider set, asking for IPv4.
    pub fn new() -> (r: ProviderDefaultV4)
        ensures
            r.provider.ptype == ProviderInfoType::IPv4,
            r.provider.providers@.len() == default_descriptors().len(),
            forall|i: int|
                0 <= i < r.provider.providers@.len() ==> created_entry(
                    default_descriptors()[i],
                    r.provider.providers@[i],
                ),
    {
        ProviderDefaultV4 { provider: default_provider_any(ProviderInfoType::IPv4) }
    }

    /// The resolver's name.
    pub fn get_name(&self) -> (r: String)
        ensures
            r@ == "any"@,
    {
        self.provider.get_name()
    }

    /// The family the set asks for.
    pub fn get_type(&self) -> (r: ProviderInfoType)
        ensures
            r == self.provider.ptype,
    {
        self.provider.get_type()
    }

    /// Sets every member's timeout; see `ProviderAny::set_timeout`.
    pub fn set_timeout(&mut self, timeout: usize)
        ensures
            final(self).provider.ptype == old(self).provider.ptype,
            final(self).provider.providers@.len() == old(self).provider.providers@.len(),
            forall|i: int|
                0 <= i < old(self).provider.providers@.len() ==> crate::resolver::entry_retimed(
                    old(self).provider.providers@[i],
                    final(self).provider.providers@[i],
                    timeout,
                ),
    {
        self.provider.set_timeout(timeout)
    }

    /// Sets every member's proxy; see `ProviderAny::set_proxy`.
    pub fn set_proxy(&mut self, host: &str, port: u16)
        ensures
            final(self).provider.ptype == old(self).provider.ptype,
            final(self).provider.providers@.len() == old(self).provider.providers@.len(),
            forall|i: int|
                0 <= i < old(self).provider.providers@.len() ==> crate::resolver::entry_reproxied(
                    old(self).provider.providers@[i],
                    final(self).provider.providers@[i],
                    host@,
                    port,
                ),
    {
        self.provider.set_proxy(host, port)
    }

    /// Opens one resolution call; see `ProviderAny::start_resolve`: the
    /// candidates of the requested family in this call's randomized
    /// order, no attempts made yet.
    pub fn start_resolve(&self) -> (r: ResolveRun)
        ensures
            r.wf(),
            r.next == 0,
            r.errors@.len() == 0,
            r.order@.to_multiset() == crate::resolver::spec_candidates(
                self.provider.providers@,
                self.provider.ptype,
                self.provider.providers@.len() as int,
            ).to_multiset(),
            r.order@.len() == crate::resolver::spec_candidates(
                self.provider.providers@,
                self.provider.ptype,
                self.provider.providers@.len() as int,
            ).len(),
            forall|k: int|
                0 <= k < r.order@.len() ==> (r.order@[k] as int)
                    < self.provider.providers@.len()
                    && self.provider.providers@[r.order@[k] as int].info_spec().ptype
                    == self.provider.ptype,
    {
        self.provider.start_resolve()
    }
}

/// A ready-made resolver over the built-in providers, asking for IPv6.
pub struct ProviderDefaultV6 {
    /// The underlying provider set.
    pub provider: ProviderAny,
}

impl ProviderDefaultV6 {
    /// The built-in provider set, asking for IPv6.
    pub fn new() -> (r: ProviderDefaultV6)
        ensures
            r.provider.ptype == ProviderInfoType::IPv6,
            r.provider.providers@.len() == default_descriptors().len(),
            forall|i: int|
                0 <= i < r.provider.providers@.len() ==> created_entry(
                    default_descriptors()[i],
                    r.provider.providers@[i],
                ),
    {
        ProviderDefaultV6 { provider: default_provider_any(ProviderInfoType::IPv6) }
    }

    /// The resolver's name.
    pub fn get_name(&self) -> (r: String)
        ensures
            r@ == "any"@,
    {
        self.provider.get_name()
    }

    /// The family the set asks for.
    pub fn get_type(&self) -> (r: ProviderInfoType)
        ensures
            r == self.provider.ptype,
    {
        self.provider.get_type()
    }

    /// Sets every member's timeout; see `ProviderAny::set_timeout`.
    pub fn set_timeout(&mut self, timeout: usize)
        ensures
            final(self).provider.ptype == old(self).provider.ptype,
            final(self).provider.providers@.len() == old(self).provider.providers@.len(),
            forall|i: int|
                0 <= i < old(self).provider.providers@.len() ==> crate::resolver::entry_retimed(
                    old(self).provider.providers@[i],
                    final(self).provider.providers@[i],
                    timeout,
                ),
    {
        self.provider.set_timeout(timeout)
    }

    /// Sets every member's proxy; see `ProviderAny::set_proxy`.
    pub fn set_proxy(&mut self, host: &str, port: u16)
        ensures
            final(self).provider.ptype == old(self).provider.ptype,
            final(self).provider.providers@.len() == old(self).provider.providers@.len(),
            forall|i: int|
                0 <= i < old(self).provider.providers@.len() ==> crate::resolver::entry_reproxied(
                    old(self).provider.providers@[i],
                    final(self).provider.providers@[i],
                    host@,
                    port,
                ),
    {
        self.provider.set_proxy(host, port)
    }

    /// Opens one resolution call; see `ProviderAny::start_resolve`: the
    /// candidates of the requested family in this call's randomized
    /// order, no attempts made yet.
    pub fn start_resolve(&self) -> (r: ResolveRun)
        ensures
            r.wf(),
            r.next == 0,
            r.errors@.len() == 0,
            r.order@.to_multiset() == crate::resolver::spec_candidates(
                self.provider.providers@,
                self.provider.ptype,
                self.provider.providers@.len() as int,
            ).to_multiset(),
            r.order@.len() == crate::resolver::spec_candidates(
                self.provider.providers@,
                self.provider.ptype,
                self.provider.providers@.len() as int,
            ).len(),
            forall|k: int|
                0 <= k < r.order@.len() ==> (r.order@[k] as int)
                    < self.provider.providers@.len()
                    && self.provider.providers@[r.order@[k] as int].info_spec().ptype
                    == self.provider.ptype,
    {
        self.provider.start_resolve()
    }
}

} // verus!
