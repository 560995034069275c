//! The provider-set resolver: selection, ordering, whole-set settings, and
//! error aggregation.

use gip::DEFAULT_TIMEOUT_MS;
use gip::DEFAULT_TOML;
use gip::Error;
use gip::GlobalAddress;
use gip::Ipv4Address;
use gip::ProviderAny;
use gip::ProviderDefaultV4;
use gip::ProviderDefaultV6;
use gip::ProviderEntry;
use gip::ProviderInfo;
use gip::ProviderInfoProtocol;
use gip::ProviderInfoType;
use gip::resolve_from_outcomes;

fn set_of(names_and_types: &[(&str, ProviderInfoType)]) -> ProviderAny {
    let mut set = ProviderAny::new();
    for (name, ptype) in names_and_types {
        let info = ProviderInfo::new()
            .name(name)
            .ptype(*ptype)
            .protocol(ProviderInfoProtocol::HttpPlane)
            .url("http://example.invalid/ip");
        set.providers.push(info.create());
    }
    set
}

#[test]
fn from_toml_builds_all_entries() {
    let set = ProviderAny::from_toml(DEFAULT_TOML).unwrap();
    assert_eq!(set.providers.len(), 10);
    assert_eq!(set.get_type(), ProviderInfoType::IPv4);
    assert_eq!(set.get_name(), "any");
    for p in &set.providers {
        assert_eq!(p.timeout(), DEFAULT_TIMEOUT_MS);
    }
}

#[test]
fn from_toml_rejects_bad_text() {
    assert!(matches!(
        ProviderAny::from_toml("nonsense"),
        Err(Error::ConfigParse { line: 1 })
    ));
}

#[test]
fn list_providers_names_every_member() {
    let set = ProviderAny::from_toml(DEFAULT_TOML).unwrap();
    let listed = set.list_providers();
    assert_eq!(listed.len(), 10);
    assert_eq!(listed[0], (String::from("ipv6-test"), ProviderInfoType::IPv4));
    assert_eq!(listed[9], (String::from("akamai.net"), ProviderInfoType::IPv6));
}

#[test]
fn candidates_filter_by_family() {
    let set = ProviderAny::from_toml(DEFAULT_TOML).unwrap();
    let order = set.start_resolve().order;
    assert_eq!(order.len(), 5);
    for i in &order {
        assert_eq!(set.providers[*i].get_type(), ProviderInfoType::IPv4);
    }
}

#[test]
fn order_is_a_permutation_of_the_candidates() {
    let set = set_of(&[
        ("a", ProviderInfoType::IPv4),
        ("b", ProviderInfoType::IPv6),
        ("c", ProviderInfoType::IPv4),
        ("d", ProviderInfoType::IPv4),
    ]);
    let mut order = set.start_resolve().order;
    order.sort();
    assert_eq!(order, vec![0, 2, 3]);
}

#[test]
fn order_is_not_fixed_across_calls() {
    // With ten candidates, hundreds of draws settle on one fixed first
    // member only with vanishing probability.
    let mut members: Vec<(&str, ProviderInfoType)> = Vec::new();
    for _ in 0..10 {
        members.push(("m", ProviderInfoType::IPv4));
    }
    let set = set_of(&members);
    let mut seen_first: Vec<usize> = Vec::new();
    for _ in 0..300 {
        let order = set.start_resolve().order;
        assert_eq!(order.len(), 10);
        if !seen_first.contains(&order[0]) {
            seen_first.push(order[0]);
        }
    }
    assert!(seen_first.len() > 1);
}

#[test]
fn set_timeout_reaches_every_member() {
    let mut set = ProviderAny::from_toml(DEFAULT_TOML).unwrap();
    set.set_timeout(2000);
    for p in &set.providers {
        assert_eq!(p.timeout(), 2000);
    }
}

#[test]
fn set_proxy() {
    let mut p = ProviderAny::from_toml(&DEFAULT_TOML).unwrap();
    p.set_proxy("example.com", 8080);
}

#[test]
fn set_proxy_reaches_http_members_and_skips_dns() {
    let mut set = ProviderAny::from_toml(DEFAULT_TOML).unwrap();
    set.set_proxy("example.com", 8080);
    for p in &set.providers {
        match p {
            ProviderEntry::HttpPlane(h) => {
                assert_eq!(h.proxy, Some((String::from("example.com"), 8080)));
            }
            ProviderEntry::HttpJson(h) => {
                assert_eq!(h.proxy, Some((String::from("example.com"), 8080)));
            }
            ProviderEntry::Dns(_) => {}
        }
    }
}

fn ok_outcome(name: &str, a: u8, b: u8, c: u8, d: u8) -> Result<GlobalAddress, Error> {
    Ok(GlobalAddress::from_v4(
        Ipv4Address::from_octets(a, b, c, d),
        name,
        None,
    ))
}

#[test]
fn first_success_wins() {
    let outcomes = vec![
        Err(Error::ConnectionFailed {
            url: String::from("u1"),
        }),
        ok_outcome("second", 203, 0, 113, 7),
        ok_outcome("third", 203, 0, 113, 8),
    ];
    let g = resolve_from_outcomes(outcomes).unwrap();
    assert_eq!(g.provider, "second");
    assert_eq!(g.v4addr, Some(Ipv4Address::from_octets(203, 0, 113, 7)));
    assert!(!g.v4addr.unwrap().is_unspecified());
}

#[test]
fn all_failures_aggregate_in_order() {
    let outcomes: Vec<Result<GlobalAddress, Error>> = vec![
        Err(Error::ConnectionFailed {
            url: String::from("u1"),
        }),
        Err(Error::Timeout {
            url: String::from("u2"),
            timeout: 1000,
        }),
        Err(Error::AddrParseFailed {
            addr: String::from("zzz"),
        }),
    ];
    match resolve_from_outcomes(outcomes).unwrap_err() {
        Error::AllProvidersFailed { errors } => {
            assert_eq!(errors.len(), 3);
            assert!(matches!(&errors[0], Error::ConnectionFailed { url } if url == "u1"));
            assert!(matches!(&errors[1], Error::Timeout { url, timeout: 1000 } if url == "u2"));
            assert!(matches!(&errors[2], Error::AddrParseFailed { addr } if addr == "zzz"));
        }
        other => panic!("expected the aggregate failure, got {:?}", other),
    }
}

#[test]
fn empty_candidate_set_fails_with_empty_error_list() {
    match resolve_from_outcomes(Vec::new()).unwrap_err() {
        Error::AllProvidersFailed { errors } => assert!(errors.is_empty()),
        other => panic!("expected the aggregate failure, got {:?}", other),
    }
}

#[test]
fn session_walks_candidates_and_aggregates() {
    let set = set_of(&[
        ("a", ProviderInfoType::IPv4),
        ("b", ProviderInfoType::IPv6),
        ("c", ProviderInfoType::IPv4),
    ]);
    let mut run = set.start_resolve();
    let mut attempts = 0;
    while let Some(i) = run.next_candidate() {
        assert_eq!(set.providers[i].get_type(), ProviderInfoType::IPv4);
        run.record_failure(Error::ConnectionFailed {
            url: String::from("u"),
        });
        attempts += 1;
    }
    assert_eq!(attempts, 2);
    match run.all_failed() {
        Error::AllProvidersFailed { errors } => assert_eq!(errors.len(), 2),
        other => panic!("expected the aggregate failure, got {:?}", other),
    }
}

#[test]
fn no_candidates_for_the_other_family() {
    let mut set = set_of(&[("a", ProviderInfoType::IPv4)]);
    set.ptype = ProviderInfoType::IPv6;
    let run = set.start_resolve();
    assert!(run.next_candidate().is_none());
    match run.all_failed() {
        Error::AllProvidersFailed { errors } => assert!(errors.is_empty()),
        other => panic!("expected the aggregate failure, got {:?}", other),
    }
}

#[test]
fn default_sets_cover_both_families() {
    let v4 = ProviderDefaultV4::new();
    assert_eq!(v4.get_type(), ProviderInfoType::IPv4);
    assert_eq!(v4.get_name(), "any");
    assert_eq!(v4.provider.providers.len(), 10);
    let mut v6 = ProviderDefaultV6::new();
    assert_eq!(v6.get_type(), ProviderInfoType::IPv6);
    assert_eq!(v6.start_resolve().order.len(), 5);
    v6.set_timeout(2500);
    for p in &v6.provider.providers {
        assert_eq!(p.timeout(), 2500);
    }
}

#[test]
fn default_set_matches_parsed_default_text() {
    // The built-in list built in code is exactly what the built-in text
    // parses to.
    let parsed = ProviderAny::from_toml(DEFAULT_TOML).unwrap();
    let built = ProviderDefaultV4::new();
    assert_eq!(parsed.providers.len(), built.provider.providers.len());
    for (a, b) in parsed
        .providers
        .iter()
        .zip(built.provider.providers.iter())
    {
        match (a, b) {
            (ProviderEntry::HttpPlane(x), ProviderEntry::HttpPlane(y)) => {
                assert_eq!(x.info, y.info)
            }
            (ProviderEntry::HttpJson(x), ProviderEntry::HttpJson(y)) => {
                assert_eq!(x.info, y.info)
            }
            (ProviderEntry::Dns(x), ProviderEntry::Dns(y)) => assert_eq!(x.info, y.info),
            _ => panic!("adapter kinds differ"),
        }
    }
}
