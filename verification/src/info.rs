//! Provider descriptors: the declarative record of one external address
//! service, and the builder methods that assemble one.

use vstd::prelude::*;

verus! {

/// Which address family a provider answers for.
#[derive(Clone, Copy, Debug, PartialEq, Eq, Structural)]
pub enum ProviderInfoType {
    IPv4,
    IPv6,
}

/// The wire protocol a provider speaks.
#[derive(Clone, Copy, Debug, PartialEq, Eq, Structural)]
pub enum ProviderInfoProtocol {
    /// Plain text over HTTP: the body is the address literal.
    HttpPlane,
    /// JSON over HTTP: the address sits at a key path in the document.
    HttpJson,
    /// DNS: the answer record of a query against a chosen resolver.
    Dns,
}

/// The mathematical content of a descriptor: each text field as its
/// character sequence.
#[verifier::ext_equal]
pub struct ProviderInfoModel {
    pub name: Seq<char>,
    pub ptype: ProviderInfoType,
    pub protocol: ProviderInfoProtocol,
    pub url: Seq<char>,
    pub key: Seq<Seq<char>>,
    pub padding: Option<Seq<char>>,
    pub record: Option<Seq<char>>,
}

/// Declarative record of one external address service.
#[derive(Debug, Clone, PartialEq)]
pub struct ProviderInfo {
    /// Provider name; duplicates are legal (one entry per family).
    pub name: String,
    /// Address family the provider answers for.
    pub ptype: ProviderInfoType,
    /// Wire protocol.
    pub protocol: ProviderInfoProtocol,
    /// URL for the HTTP protocols; `query@resolver` for DNS.
    pub url: String,
    /// Key path to the address field of a JSON response.
    pub key: Vec<String>,
    /// Name of a JSONP-style wrapper function the JSON body may sit in.
    pub padding: Option<String>,
    /// Record hint for DNS; unused by the built-in behaviour.
    pub record: Option<String>,
}

impl View for ProviderInfo {
    type V = ProviderInfoModel;

    open spec fn view(&self) -> ProviderInfoModel {
        ProviderInfoModel {
            name: self.name@,
            ptype: self.ptype,
            protocol: self.protocol,
            url: self.url@,
            key: self.key.deep_view(),
            padding: match self.padding {
                Some(p) => Some(p@),
                None => None,
            },
            record: match self.record {
                Some(p) => Some(p@),
                None => None,
            },
        }
    }
}

impl ProviderInfoModel {
    /// The structural invariant of a descriptor: a JSON provider names at
    /// least one key, and a DNS locator holds exactly one `@` separator.
    pub open spec fn well_formed(&self) -> bool {
        (self.protocol == ProviderInfoProtocol::HttpJson ==> self.key.len() > 0) && (self.protocol
            == ProviderInfoProtocol::Dns ==> {
            let k = crate::text::find_char_from(self.url, '@', 0);
            k < self.url.len() && crate::text::find_char_from(self.url, '@', k + 1)
                == self.url.len()
        })
    }
}

/// The descriptor every builder chain starts from: an unnamed IPv4
/// plain-HTTP provider with an empty endpoint.
pub open spec fn default_info_model() -> ProviderInfoModel {
    ProviderInfoModel {
        name: Seq::<char>::empty(),
        ptype: ProviderInfoType::IPv4,
        protocol: ProviderInfoProtocol::HttpPlane,
        url: Seq::<char>::empty(),
        key: Seq::<Seq<char>>::empty(),
        padding: None,
        record: None,
    }
}

impl ProviderInfo {
    /// An empty IPv4 plain-HTTP descriptor, ready for the builder methods.
    pub fn new() -> (r: ProviderInfo)
        ensures
            r@ == default_info_model(),
    {
        let r = ProviderInfo {
            name: String::new(),
            ptype: ProviderInfoType::IPv4,
            protocol: ProviderInfoProtocol::HttpPlane,
            url: String::new(),
            key: Vec::new(),
            padding: None,
            record: None,
        };
        proof {
            assert(r@ =~= default_info_model());
        }
        r
    }

    /// The descriptor with its name replaced.
    pub fn name(self, name: &str) -> (r: ProviderInfo)
        ensures
            r@ == (ProviderInfoModel { name: name@, ..self@ }),
    {
        ProviderInfo { name: String::from_str(name), ..self }
    }

    /// The descriptor with its address family replaced.
    pub fn ptype(self, ptype: ProviderInfoType) -> (r: ProviderInfo)
        ensures
            r@ == (ProviderInfoModel { ptype, ..self@ }),
    {
        ProviderInfo { ptype, ..self }
    }

    /// The descriptor with its protocol replaced.
    pub fn protocol(self, protocol: ProviderInfoProtocol) -> (r: ProviderInfo)
        ensures
            r@ == (ProviderInfoModel { protocol, ..self@ }),
    {
        ProviderInfo { protocol, ..self }
    }

    /// The descriptor with its endpoint locator replaced.
    pub fn url(self, url: &str) -> (r: ProviderInfo)
        ensures
            r@ == (ProviderInfoModel { url: url@, ..self@ }),
    {
        ProviderInfo { url: String::from_str(url), ..self }
    }

    /// The descriptor with its JSON key path replaced by a copy of `key`.
    pub fn key(self, key: &Vec<String>) -> (r: ProviderInfo)
        ensures
            r@ == (ProviderInfoModel { key: key.deep_view(), ..self@ }),
    {
        ProviderInfo { key: clone_strings(key), ..self }
    }

    /// The descriptor with its JSONP wrapper name set.
    pub fn padding(self, padding: &str) -> (r: ProviderInfo)
        ensures
            r@ == (ProviderInfoModel { padding: Some(padding@), ..self@ }),
    {
        ProviderInfo { padding: Some(String::from_str(padding)), ..self }
    }

    /// The descriptor with its DNS record hint set.
    pub fn record(self, record: &str) -> (r: ProviderInfo)
        ensures
            r@ == (ProviderInfoModel { record: Some(record@), ..self@ }),
    {
        ProviderInfo { record: Some(String::from_str(record)), ..self }
    }
}

/// An element-wise copy of a list of strings.
pub fn clone_strings(v: &Vec<String>) -> (r: Vec<String>)
    ensures
        r.deep_view() == v.deep_view(),
        r@.len() == v@.len(),
{
    let mut r: Vec<String> = Vec::new();
    let mut i: usize = 0;
    while i < v.len()
        invariant
            0 <= i <= v@.len(),
            r@.len() == i,
            forall|j: int| 0 <= j < i ==> r@[j]@ == v@[j]@,
        decreases v@.len() - i,
    {
        r.push(v[i].clone());
        i = i + 1;
    }
    proof {
        assert(r.deep_view() =~= v.deep_view());
    }
    r
}

} // verus!
