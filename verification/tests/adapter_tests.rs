//! Response extraction by the three protocol adapters.

use gip::Error;
use gip::Ipv4Address;
use gip::ProviderDns;
use gip::ProviderHttpJson;
use gip::ProviderHttpPlane;
use gip::ProviderInfo;
use gip::ProviderInfoProtocol;
use gip::ProviderInfoType;

fn plain_v4(name: &str) -> ProviderHttpPlane {
    let mut p = ProviderHttpPlane::new();
    p.info = ProviderInfo::new()
        .name(name)
        .ptype(ProviderInfoType::IPv4)
        .protocol(ProviderInfoProtocol::HttpPlane)
        .url("http://example.invalid/ip");
    p
}

#[test]
fn plain_trims_and_parses() {
    let p = plain_v4("plain");
    let g = p.extract_address("  203.0.113.7\n", Some(12)).unwrap();
    assert_eq!(g.v4addr, Some(Ipv4Address::from_octets(203, 0, 113, 7)));
    assert_eq!(g.v6addr, None);
    assert_eq!(g.provider, "plain");
    assert_eq!(g.latency, Some(12));
}

#[test]
fn plain_rejects_non_address() {
    let p = plain_v4("plain");
    let e = p.extract_address("not-an-ip", None).unwrap_err();
    assert_eq!(
        e,
        Error::AddrParseFailed {
            addr: String::from("not-an-ip")
        }
    );
}

#[test]
fn plain_v6_body() {
    let mut p = ProviderHttpPlane::new();
    p.info = ProviderInfo::new().name("p6").ptype(ProviderInfoType::IPv6);
    let g = p.extract_address("2001:db8::1\n", None).unwrap();
    assert_eq!(g.v6addr.unwrap().bits, (0x2001u128 << 112) | (0x0db8 << 96) | 1);
    assert_eq!(g.v4addr, None);
}

#[test]
fn plain_rejects_wrong_family() {
    // An IPv4 provider answering with an IPv6 literal is a parse failure.
    let p = plain_v4("plain");
    assert!(p.extract_address("2001:db8::1", None).is_err());
}

fn json_v4(keys: &[&str], padding: Option<&str>) -> ProviderHttpJson {
    let mut p = ProviderHttpJson::new();
    let key: Vec<String> = keys.iter().map(|k| k.to_string()).collect();
    let mut info = ProviderInfo::new()
        .name("json")
        .ptype(ProviderInfoType::IPv4)
        .protocol(ProviderInfoProtocol::HttpJson)
        .url("http://example.invalid/ip")
        .key(&key);
    if let Some(pad) = padding {
        info = info.padding(pad);
    }
    p.info = info;
    p
}

#[test]
fn json_plain_document() {
    let p = json_v4(&["origin"], None);
    let g = p.extract_address("{\"origin\":\"203.0.113.7\"}", None).unwrap();
    assert_eq!(g.v4addr, Some(Ipv4Address::from_octets(203, 0, 113, 7)));
    assert_eq!(g.provider, "json");
}

#[test]
fn json_padded_document() {
    let p = json_v4(&["ip"], Some("callback"));
    let g = p
        .extract_address("callback({\"ip\":\"203.0.113.8\"})", None)
        .unwrap();
    assert_eq!(g.v4addr, Some(Ipv4Address::from_octets(203, 0, 113, 8)));
}

#[test]
fn json_nested_key_path() {
    let p = json_v4(&["data", "ip"], None);
    let g = p
        .extract_address("{\"data\":{\"ip\":\"198.51.100.4\"}}", None)
        .unwrap();
    assert_eq!(g.v4addr, Some(Ipv4Address::from_octets(198, 51, 100, 4)));
}

#[test]
fn json_strips_stray_formatting() {
    // The defensive strip takes the first run of address characters.
    let p = json_v4(&["ip"], None);
    let g = p
        .extract_address("{\"ip\":\" 203.0.113.9<br>\"}", None)
        .unwrap();
    assert_eq!(g.v4addr, Some(Ipv4Address::from_octets(203, 0, 113, 9)));
}

#[test]
fn json_invalid_document() {
    let p = json_v4(&["ip"], None);
    let e = p.extract_address("{not json", None).unwrap_err();
    assert_eq!(e, Error::JsonParse);
}

#[test]
fn json_missing_key() {
    let p = json_v4(&["ip"], None);
    let body = "{\"origin\":\"203.0.113.7\"}";
    let e = p.extract_address(body, None).unwrap_err();
    assert_eq!(
        e,
        Error::AddrParseFailed {
            addr: String::from(body)
        }
    );
}

#[test]
fn json_non_string_leaf() {
    let p = json_v4(&["ip"], None);
    assert!(p.extract_address("{\"ip\":42}", None).is_err());
}

#[test]
fn json_missing_padding_is_fatal() {
    let p = json_v4(&["ip"], Some("callback"));
    let body = "{\"ip\":\"203.0.113.8\"}";
    let e = p.extract_address(body, None).unwrap_err();
    assert_eq!(
        e,
        Error::AddrParseFailed {
            addr: String::from(body)
        }
    );
}

fn dns_provider(url: &str, ptype: ProviderInfoType) -> ProviderDns {
    let mut p = ProviderDns::new();
    p.info = ProviderInfo::new()
        .name("dns")
        .ptype(ptype)
        .protocol(ProviderInfoProtocol::Dns)
        .url(url);
    p
}

#[test]
fn dns_endpoint_split() {
    let p = dns_provider(
        "myip.opendns.com@resolver1.opendns.com",
        ProviderInfoType::IPv4,
    );
    let (query, host) = p.split_endpoint().unwrap();
    assert_eq!(query, "myip.opendns.com");
    assert_eq!(host, "resolver1.opendns.com");
}

#[test]
fn dns_endpoint_without_separator() {
    let p = dns_provider("myip.opendns.com", ProviderInfoType::IPv4);
    let e = p.split_endpoint().unwrap_err();
    assert_eq!(
        e,
        Error::DnsParseFailed {
            url: String::from("myip.opendns.com")
        }
    );
}

#[test]
fn dns_first_record_wins() {
    let p = dns_provider("a@b", ProviderInfoType::IPv4);
    let records: Vec<u32> = vec![0xcb007107, 0x01020304];
    let g = p.address_from_v4_records(&records, Some(3)).unwrap();
    assert_eq!(g.v4addr.unwrap().bits, 0xcb007107);
    assert_eq!(g.provider, "dns");
    assert_eq!(g.latency, Some(3));
}

#[test]
fn dns_empty_answer_is_connection_failure() {
    let p = dns_provider("a@b", ProviderInfoType::IPv4);
    let e = p.address_from_v4_records(&Vec::new(), None).unwrap_err();
    assert_eq!(
        e,
        Error::ConnectionFailed {
            url: String::from("a@b")
        }
    );
}

#[test]
fn dns_v6_records() {
    let p = dns_provider("a@b", ProviderInfoType::IPv6);
    let records: Vec<u128> = vec![1, 2];
    let g = p.address_from_v6_records(&records, None).unwrap();
    assert_eq!(g.v6addr.unwrap().bits, 1);
    assert!(p.address_from_v6_records(&Vec::new(), None).is_err());
}
