//! The configuration-table parser.

use gip::DEFAULT_TOML;
use gip::Error;
use gip::ProviderInfoList;
use gip::ProviderInfoProtocol;
use gip::ProviderInfoType;

#[test]
fn toml_load() {
    let _ = ProviderInfoList::from_toml(&DEFAULT_TOML);
}

#[test]
fn default_table_contents() {
    let list = ProviderInfoList::from_toml(DEFAULT_TOML).unwrap();
    assert_eq!(list.providers.len(), 10);
    let first = &list.providers[0];
    assert_eq!(first.name, "ipv6-test");
    assert_eq!(first.ptype, ProviderInfoType::IPv4);
    assert_eq!(first.protocol, ProviderInfoProtocol::HttpPlane);
    assert_eq!(first.url, "http://v4.ipv6-test.com/api/myip.php");
    assert!(first.key.is_empty());
    assert_eq!(first.padding, None);
    let padded = &list.providers[4];
    assert_eq!(padded.name, "test-ipv6");
    assert_eq!(padded.protocol, ProviderInfoProtocol::HttpJson);
    assert_eq!(padded.key, vec![String::from("ip")]);
    assert_eq!(padded.padding, Some(String::from("callback")));
    let dns = &list.providers[9];
    assert_eq!(dns.protocol, ProviderInfoProtocol::Dns);
    assert_eq!(dns.ptype, ProviderInfoType::IPv6);
    assert_eq!(dns.url, "whoami.akamai.net@ns1-1.akamaitech.net");
}

#[test]
fn parse_is_deterministic() {
    // The same text twice gives identical descriptor contents.
    let a = ProviderInfoList::from_toml(DEFAULT_TOML).unwrap();
    let b = ProviderInfoList::from_toml(DEFAULT_TOML).unwrap();
    assert_eq!(a.providers, b.providers);
}

#[test]
fn minimal_entry() {
    let text = "[[providers]]\nname = \"x\"\nptype = \"IPv6\"\nprotocol = \"Dns\"\nurl = \"a@b\"\nkey = []\n";
    let list = ProviderInfoList::from_toml(text).unwrap();
    assert_eq!(list.providers.len(), 1);
    assert_eq!(list.providers[0].ptype, ProviderInfoType::IPv6);
    assert_eq!(list.providers[0].record, None);
}

#[test]
fn protocol_aliases() {
    let text = "[[providers]]\nname = \"x\"\nptype = \"IPv4\"\nprotocol = \"Plane\"\nurl = \"u\"\nkey = []\n\n[[providers]]\nname = \"y\"\nptype = \"IPv4\"\nprotocol = \"Json\"\nurl = \"u\"\nkey = [\"a\", \"b\"]\n";
    let list = ProviderInfoList::from_toml(text).unwrap();
    assert_eq!(list.providers[0].protocol, ProviderInfoProtocol::HttpPlane);
    assert_eq!(list.providers[1].protocol, ProviderInfoProtocol::HttpJson);
    assert_eq!(
        list.providers[1].key,
        vec![String::from("a"), String::from("b")]
    );
}

#[test]
fn unknown_keys_are_ignored() {
    let text = "[[providers]]\nname = \"x\"\nptype = \"IPv4\"\nprotocol = \"Dns\"\nurl = \"a@b\"\nkey = []\ntimeout = 1000\n";
    let list = ProviderInfoList::from_toml(text).unwrap();
    assert_eq!(list.providers.len(), 1);
}

#[test]
fn comments_and_blank_lines() {
    let text = "# built-in\n\n[[providers]]\n# fields\nname = \"x\"\nptype = \"IPv4\"\nprotocol = \"Dns\"\nurl = \"a@b\"\nkey = []\n";
    assert!(ProviderInfoList::from_toml(text).is_ok());
}

#[test]
fn empty_text_is_refused() {
    assert_eq!(
        ProviderInfoList::from_toml("").unwrap_err(),
        Error::ConfigParse { line: 1 }
    );
}

#[test]
fn missing_required_field() {
    // No url: the entry opened on line 1 cannot be finished.
    let text = "[[providers]]\nname = \"x\"\nptype = \"IPv4\"\nprotocol = \"Dns\"\nkey = []\n";
    assert_eq!(
        ProviderInfoList::from_toml(text).unwrap_err(),
        Error::ConfigParse { line: 1 }
    );
}

#[test]
fn field_before_first_entry() {
    let text = "name = \"x\"\n";
    assert_eq!(
        ProviderInfoList::from_toml(text).unwrap_err(),
        Error::ConfigParse { line: 1 }
    );
}

#[test]
fn unknown_header_is_refused() {
    let text = "[[providers]]\nname = \"x\"\nptype = \"IPv4\"\nprotocol = \"Dns\"\nurl = \"a@b\"\nkey = []\n[other]\n";
    assert_eq!(
        ProviderInfoList::from_toml(text).unwrap_err(),
        Error::ConfigParse { line: 7 }
    );
}

#[test]
fn repeated_key_is_refused() {
    let text = "[[providers]]\nname = \"x\"\nname = \"y\"\n";
    assert_eq!(
        ProviderInfoList::from_toml(text).unwrap_err(),
        Error::ConfigParse { line: 3 }
    );
}

#[test]
fn bad_family_is_refused() {
    let text = "[[providers]]\nname = \"x\"\nptype = \"IPv5\"\n";
    assert_eq!(
        ProviderInfoList::from_toml(text).unwrap_err(),
        Error::ConfigParse { line: 3 }
    );
}

#[test]
fn unquoted_value_is_refused() {
    let text = "[[providers]]\nname = x\n";
    assert_eq!(
        ProviderInfoList::from_toml(text).unwrap_err(),
        Error::ConfigParse { line: 2 }
    );
}
