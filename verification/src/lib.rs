//! Discovery of the caller's public IP address through third-party providers.
//!
//! A provider is an external service that reports the address it saw the
//! request come from.  Providers answer over different wire protocols (a
//! plain-text HTTP body, a JSON HTTP body, or a DNS lookup); no single one is
//! assumed reliable, so a resolver tries several in random order, bounds each
//! attempt by a timeout, and returns the first usable answer.
//!
//! This crate holds the verified core: the address-literal parsers, the
//! configuration-table parser, the per-protocol response extraction, the
//! polling schedule of the bounded executor, and the failover resolver.
//! Network transport itself is left to the embedding program.

pub mod adapters;
pub mod addr;
pub mod address;
pub mod config;
pub mod defaults;
pub mod error;
pub mod executor;
pub mod extract;
pub mod info;
pub mod json;
pub mod resolver;
pub mod text;

pub use adapters::DEFAULT_TIMEOUT_MS;
pub use adapters::ProviderDns;
pub use adapters::ProviderHttpJson;
pub use adapters::ProviderHttpPlane;
pub use addr::Ipv4Address;
pub use addr::Ipv6Address;
pub use address::GlobalAddress;
pub use config::ProviderInfoList;
pub use defaults::DEFAULT_TOML;
pub use defaults::ProviderDefaultV4;
pub use defaults::ProviderDefaultV6;
pub use error::Error;
pub use executor::POLL_INTERVAL_MS;
pub use executor::PollSchedule;
pub use info::ProviderInfo;
pub use info::ProviderInfoModel;
pub use info::ProviderInfoProtocol;
pub use info::ProviderInfoType;
pub use resolver::ProviderAny;
pub use resolver::ProviderEntry;
pub use resolver::ResolveRun;
pub use resolver::resolve_from_outcomes;
