//! The protocol adapters.  Each struct holds one provider's descriptor and
//! per-call settings; the extraction methods turn a raw response into a
//! validated address.  The network transport itself lives with the caller:
//! it fetches the raw material and hands it to these methods.

use vstd::prelude::*;

use crate::addr::Ipv4Address;
use crate::addr::Ipv6Address;
use crate::addr::spec_parse_ipv4;
use crate::addr::spec_parse_ipv6;
use crate::address::GlobalAddress;
use crate::error::Error;
use crate::extract::spec_pointer;
use crate::extract::spec_strip_addr_run;
use crate::extract::spec_strip_padding;
use crate::info::ProviderInfo;
use crate::info::ProviderInfoModel;
use crate::info::ProviderInfoType;
use crate::json::JsonOutcome;
use crate::json::json_document_ok;
use crate::json::json_string_value;
use crate::text::spec_trim;

verus! {

/// The timeout every adapter starts with, in milliseconds.
pub const DEFAULT_TIMEOUT_MS: usize = 1000;

/// What a trimmed or stripped candidate text parses to for the requested
/// family: the bits of a v4 literal, of a v6 literal, or nothing.
pub open spec fn spec_family_parse(ptype: ProviderInfoType, t: Seq<char>) -> Option<int> {
    match ptype {
        ProviderInfoType::IPv4 => spec_parse_ipv4(t),
        ProviderInfoType::IPv6 => spec_parse_ipv6(t),
    }
}

/// The address fields a successful extraction must carry: the parsed bits
/// under the requested family, the other family empty.
pub open spec fn spec_address_fields(g: GlobalAddress, ptype: ProviderInfoType, bits: int) -> bool {
    match ptype {
        ProviderInfoType::IPv4 => g.v4addr matches Some(a) && a.bits as int == bits && g.v6addr
            is None,
        ProviderInfoType::IPv6 => g.v6addr matches Some(a) && a.bits as int == bits && g.v4addr
            is None,
    }
}

/// Parses `t` as a literal of the requested family and wraps it with the
/// provider's name; the error carries `raw` as the text that failed.
fn parse_family_address(
    ptype: ProviderInfoType,
    t: &Vec<char>,
    name: &str,
    raw: &str,
    latency: Option<u64>,
) -> (r: Result<GlobalAddress, Error>)
    ensures
        r is Ok <==> spec_family_parse(ptype, t@) is Some,
        r matches Ok(g) ==> spec_address_fields(g, ptype, spec_family_parse(ptype, t@)->0)
            && g.provider@ == name@ && g.latency == latency,
        r matches Err(e) ==> e matches Error::AddrParseFailed { addr } && addr@ == raw@,
{
    match ptype {
        ProviderInfoType::IPv4 => match crate::addr::parse_ipv4_chars(t) {
            Some(bits) => Ok(GlobalAddress::from_v4(Ipv4Address { bits }, name, latency)),
            None => Err(Error::AddrParseFailed { addr: String::from_str(raw) }),
        },
        ProviderInfoType::IPv6 => match crate::addr::parse_ipv6_chars(t) {
            Some(bits) => Ok(GlobalAddress::from_v6(Ipv6Address { bits }, name, latency)),
            None => Err(Error::AddrParseFailed { addr: String::from_str(raw) }),
        },
    }
}

// ------------------------------------------------------------------
// Plain text over HTTP
// ------------------------------------------------------------------

/// Checks the global address through a provider that answers with the
/// plain address literal in its HTTP body.
pub struct ProviderHttpPlane {
    /// Provider descriptor.
    pub info: ProviderInfo,
    /// Timeout in milliseconds.
    pub timeout: usize,
    /// Proxy as host and port, when one is set.
    pub proxy: Option<(String, u16)>,
}

impl ProviderHttpPlane {
    /// An adapter over the empty descriptor, with the default timeout and
    /// no proxy.
    pub fn new() -> (r: ProviderHttpPlane)
        ensures
            r.info@ == crate::info::default_info_model(),
            r.timeout == DEFAULT_TIMEOUT_MS,
            r.proxy is None,
    {
        ProviderHttpPlane { info: ProviderInfo::new(), timeout: DEFAULT_TIMEOUT_MS, proxy: None }
    }

    /// Extracts the address from a fetched body: the body is trimmed of
    /// surrounding whitespace and parsed as a literal of the descriptor's
    /// family.  A body that does not parse gives `AddrParseFailed` carrying
    /// the raw body.
    pub fn extract_address(&self, body: &str, latency: Option<u64>) -> (r: Result<
        GlobalAddress,
        Error,
    >)
        ensures
            ({
                let parsed = spec_family_parse(self.info@.ptype, spec_trim(body@));
                &&& (r is Ok <==> parsed is Some)
                &&& (r matches Ok(g) ==> spec_address_fields(g, self.info@.ptype, parsed->0)
                    && g.provider@ == self.info@.name && g.latency == latency)
                &&& (r matches Err(e) ==> e matches Error::AddrParseFailed { addr } && addr@
                    == body@)
            }),
    {
        let chars = crate::text::str_to_chars(body);
        let trimmed = crate::text::trim_chars(&chars);
        parse_family_address(self.info.ptype, &trimmed, self.info.name.as_str(), body, latency)
    }
}

// ------------------------------------------------------------------
// JSON over HTTP
// ------------------------------------------------------------------

/// Checks the global address through a provider that answers with a JSON
/// document, possibly inside a JSONP-style wrapper call.
pub struct ProviderHttpJson {
    /// Provider descriptor.
    pub info: ProviderInfo,
    /// Timeout in milliseconds.
    pub timeout: usize,
    /// Proxy as host and port, when one is set.
    pub proxy: Option<(String, u16)>,
}

/// The body a JSON adapter actually parses: the fetched body itself, or,
/// when the descriptor names a padding wrapper, the text inside it.
pub open spec fn spec_effective_body(info: ProviderInfoModel, body: Seq<char>) -> Option<
    Seq<char>,
> {
    match info.padding {
        None => Some(body),
        Some(p) => spec_strip_padding(body, p),
    }
}

impl ProviderHttpJson {
    /// An adapter over the empty descriptor, with the default timeout and
    /// no proxy.
    pub fn new() -> (r: ProviderHttpJson)
        ensures
            r.info@ == crate::info::default_info_model(),
            r.timeout == DEFAULT_TIMEOUT_MS,
            r.proxy is None,
    {
        ProviderHttpJson { info: ProviderInfo::new(), timeout: DEFAULT_TIMEOUT_MS, proxy: None }
    }

    /// Extracts the address from a fetched body.  When the descriptor
    /// names a padding wrapper, the body must contain it and the text
    /// inside becomes the document; a missing wrapper is a parse failure,
    /// never silently ignored.  The document is parsed as JSON and the key
    /// path is walked to a string; from that string the first run of
    /// address characters is taken and parsed as a literal of the
    /// descriptor's family.  A body that is not a JSON document gives
    /// `JsonParse`; every other failure gives `AddrParseFailed` with the
    /// text that failed.
    pub fn extract_address(&self, body: &str, latency: Option<u64>) -> (r: Result<
        GlobalAddress,
        Error,
    >)
        ensures
            spec_effective_body(self.info@, body@) is None ==> (r matches Err(e) && e matches
                Error::AddrParseFailed { addr } && addr@ == body@),
            ({
                spec_effective_body(self.info@, body@) matches Some(doc) ==> ({
                    let jv = json_string_value(doc, spec_pointer(self.info@.key));
                    &&& (!json_document_ok(doc) ==> (r matches Err(e) && e is JsonParse))
                    &&& (json_document_ok(doc) && jv is None ==> (r matches Err(e) && e matches
                        Error::AddrParseFailed { addr } && addr@ == body@))
                    &&& (json_document_ok(doc) ==> (jv matches Some(text) ==> ({
                        match spec_strip_addr_run(text) {
                            None => (r matches Err(e) && e matches Error::AddrParseFailed { addr }
                                && addr@ == text),
                            Some(run) => {
                                let parsed = spec_family_parse(self.info@.ptype, run);
                                &&& (r is Ok <==> parsed is Some)
                                &&& (r matches Ok(g) ==> spec_address_fields(
                                    g,
                                    self.info@.ptype,
                                    parsed->0,
                                ) && g.provider@ == self.info@.name && g.latency == latency)
                                &&& (r matches Err(e) ==> (e matches Error::AddrParseFailed {
                                    addr,
                                } && addr@ == run))
                            },
                        }
                    })))
                })
            }),
    {
        let chars = crate::text::str_to_chars(body);
        let effective: Vec<char> = match &self.info.padding {
            None => chars,
            Some(p) => {
                let pad = crate::text::str_to_chars(p.as_str());
                match crate::extract::strip_padding(&chars, &pad) {
                    Some(inner) => inner,
                    None => {
                        return Err(Error::AddrParseFailed { addr: String::from_str(body) });
                    },
                }
            },
        };
        let doc = crate::text::chars_to_string(&effective);
        let pointer_chars = crate::extract::build_pointer(&self.info.key);
        let pointer = crate::text::chars_to_string(&pointer_chars);
        let text = match crate::json::json_lookup(doc.as_str(), pointer.as_str()) {
            JsonOutcome::Invalid => {
                return Err(Error::JsonParse);
            },
            JsonOutcome::Missing => {
                return Err(Error::AddrParseFailed { addr: String::from_str(body) });
            },
            JsonOutcome::Text(t) => t,
        };
        let text_chars = crate::text::str_to_chars(text.as_str());
        let run = match crate::extract::strip_addr_run(&text_chars) {
            Some(run) => run,
            None => {
                return Err(Error::AddrParseFailed { addr: text });
            },
        };
        let raw = crate::text::chars_to_string(&run);
        parse_family_address(self.info.ptype, &run, self.info.name.as_str(), raw.as_str(), latency)
    }
}

// ------------------------------------------------------------------
// DNS
// ------------------------------------------------------------------

/// Checks the global address through a DNS provider.  The endpoint locator
/// has the shape `query@resolver`: the name to query, and the host whose
/// resolver answers it.
pub struct ProviderDns {
    /// Provider descriptor.
    pub info: ProviderInfo,
    /// Timeout in milliseconds.
    pub timeout: usize,
}

impl ProviderDns {
    /// An adapter over the empty descriptor, with the default timeout.
    pub fn new() -> (r: ProviderDns)
        ensures
            r.info@ == crate::info::default_info_model(),
            r.timeout == DEFAULT_TIMEOUT_MS,
    {
        ProviderDns { info: ProviderInfo::new(), timeout: DEFAULT_TIMEOUT_MS }
    }

    /// Splits the endpoint locator at its first `@` into the query name
    /// and the resolver host.  A locator without `@` gives
    /// `DnsParseFailed`; a well-formed DNS descriptor always splits.
    pub fn split_endpoint(&self) -> (r: Result<(String, String), Error>)
        ensures
            self.info@.protocol == crate::info::ProviderInfoProtocol::Dns
                && self.info@.well_formed() ==> r is Ok,
            ({
                let url = self.info@.url;
                let k = crate::text::find_char_from(url, '@', 0);
                &&& (r is Ok <==> k < url.len())
                &&& (r matches Ok(parts) ==> parts.0@ == url.subrange(0, k) && parts.1@
                    == url.subrange(k + 1, url.len() as int))
                &&& (r matches Err(e) ==> e matches Error::DnsParseFailed { url: u } && u@ == url)
            }),
    {
        let chars = crate::text::str_to_chars(self.info.url.as_str());
        let k = crate::text::find_char(&chars, '@', 0);
        if k == chars.len() {
            Err(Error::DnsParseFailed { url: self.info.url.clone() })
        } else {
            let query = crate::text::copy_range(&chars, 0, k);
            let host = crate::text::copy_range(&chars, k + 1, chars.len());
            Ok((crate::text::chars_to_string(&query), crate::text::chars_to_string(&host)))
        }
    }

    /// The answer for an IPv4 query: the first record, or `ConnectionFailed`
    /// when the answer set is empty.
    pub fn address_from_v4_records(&self, records: &Vec<u32>, latency: Option<u64>) -> (r: Result<
        GlobalAddress,
        Error,
    >)
        requires
            self.info@.ptype == ProviderInfoType::IPv4,
        ensures
            r is Ok <==> records@.len() > 0,
            r matches Ok(g) ==> g.v4addr matches Some(a) && a.bits == records@[0] && g.v6addr
                is None && g.provider@ == self.info@.name && g.latency == latency,
            r matches Err(e) ==> e matches Error::ConnectionFailed { url } && url@
                == self.info@.url,
    {
        if records.len() == 0 {
            Err(Error::ConnectionFailed { url: self.info.url.clone() })
        } else {
            let bits = records[0];
            Ok(GlobalAddress::from_v4(Ipv4Address { bits }, self.info.name.as_str(), latency))
        }
    }

    /// The answer for an IPv6 query: the first record, or `ConnectionFailed`
    /// when the answer set is empty.
    pub fn address_from_v6_records(&self, records: &Vec<u128>, latency: Option<u64>) -> (r: Result<
        GlobalAddress,
        Error,
    >)
        requires
            self.info@.ptype == ProviderInfoType::IPv6,
        ensures
            r is Ok <==> records@.len() > 0,
            r matches Ok(g) ==> g.v6addr matches Some(a) && a.bits == records@[0] && g.v4addr
                is None && g.provider@ == self.info@.name && g.latency == latency,
            r matches Err(e) ==> e matches Error::ConnectionFailed { url } && url@
                == self.info@.url,
    {
        if records.len() == 0 {
            Err(Error::ConnectionFailed { url: self.info.url.clone() })
        } else {
            let bits = records[0];
            Ok(GlobalAddress::from_v6(Ipv6Address { bits }, self.info.name.as_str(), latency))
        }
    }
}

} // verus!
