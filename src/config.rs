//! Site descriptors: what one synchronization task is configured with, and
//! the checks made on them before any task starts.

use vstd::prelude::*;
use crate::address::{AddressType, AddressVersion};
use crate::aliyun::Aliyun;
use crate::dynv6::Dynv6;
use crate::task::{Phase, RetryPolicy, SyncTask};

verus! {

/// Why a configuration was refused.
#[derive(Clone, Copy, Debug, PartialEq, Eq, Structural)]
pub enum ConfigError {
    /// Two sites share a name.
    DuplicateSiteName,
    /// A bearer token is empty or holds a control character or `:`.
    InvalidToken,
    /// A record type other than `A` or `AAAA`.
    InvalidRecordType,
}

/// Level of the log output.
#[derive(Clone, Copy, Debug, PartialEq, Eq, Structural)]
pub enum LogLevel {
    Info,
    Debug,
    Error,
    Warn,
    Trace,
}

impl LogLevel {
    /// The configuration spelling of the level.
    pub fn as_str(&self) -> (r: &'static str)
        ensures
            *self == LogLevel::Info ==> r@ == "info"@,
            *self == LogLevel::Debug ==> r@ == "debug"@,
            *self == LogLevel::Error ==> r@ == "error"@,
            *self == LogLevel::Warn ==> r@ == "warn"@,
            *self == LogLevel::Trace ==> r@ == "trace"@,
    {
        match self {
            LogLevel::Info => "info",
            LogLevel::Debug => "debug",
            LogLevel::Error => "error",
            LogLevel::Warn => "warn",
            LogLevel::Trace => "trace",
        }
    }
}

/// The provider of a site. `Custom` is reserved and not implemented: a task
/// whose site names it ends at once.
#[derive(Debug)]
pub enum DDNSProvider {
    Aliyun(Aliyun),
    Dynv6(Dynv6),
    Custom,
}

impl DDNSProvider {
    pub fn new() -> (r: DDNSProvider)
        ensures
            r is Custom,
    {
        DDNSProvider::Custom
    }

    /// Whether the provider can run.
    pub fn is_implemented(&self) -> (r: bool)
        ensures
            r == !(*self is Custom),
    {
        match self {
            DDNSProvider::Custom => false,
            _ => true,
        }
    }
}

/// One configured site.
#[derive(Debug)]
pub struct SiteConfig {
    /// Unique among the sites.
    pub name: String,
    pub provider: DDNSProvider,
    /// Name of the network interface whose address is published.
    pub interface: String,
    /// Position of the address among those that match.
    pub index: usize,
    pub address_version: AddressVersion,
    pub address_type: AddressType,
    /// Seconds between two cycles after a success.
    pub interval: u64,
    pub enabled: bool,
    /// Failures in a row that are retried; 0 retries without bound.
    pub retry_count: u32,
    pub retry_interval: u64,
    pub retry_on_failure: bool,
}

impl SiteConfig {
    /// A disabled site with default settings: the first public IPv4 address,
    /// retried without bound every 60 seconds.
    pub fn new() -> (r: SiteConfig)
        ensures
            r.name@ == Seq::<char>::empty(),
            r.provider is Custom,
            r.interface@ == Seq::<char>::empty(),
            r.index == 0,
            r.address_version == AddressVersion::V4,
            r.address_type == AddressType::Public,
            r.interval == 0,
            !r.enabled,
            r.retry_count == 0,
            r.retry_interval == 60,
            r.retry_on_failure,
    {
        SiteConfig {
            name: String::new(),
            provider: DDNSProvider::new(),
            interface: String::new(),
            index: 0,
            address_version: AddressVersion::V4,
            address_type: AddressType::Public,
            interval: 0,
            enabled: false,
            retry_count: 0,
            retry_interval: 60,
            retry_on_failure: true,
        }
    }

    /// The polling and retry settings of the site.
    pub fn retry_policy(&self) -> (r: RetryPolicy)
        ensures
            r == (RetryPolicy {
                interval: self.interval,
                retry_on_failure: self.retry_on_failure,
                retry_count: self.retry_count,
                retry_interval: self.retry_interval,
            }),
    {
        RetryPolicy {
            interval: self.interval,
            retry_on_failure: self.retry_on_failure,
            retry_count: self.retry_count,
            retry_interval: self.retry_interval,
        }
    }

    /// The synchronization task of the site, about to start its first cycle;
    /// it has ended already where the provider is not implemented.
    pub fn task(&self) -> (r: SyncTask)
        ensures
            r.policy == (RetryPolicy {
                interval: self.interval,
                retry_on_failure: self.retry_on_failure,
                retry_count: self.retry_count,
                retry_interval: self.retry_interval,
            }),
            r.interface@ == self.interface@,
            r.version == self.address_version,
            r.kind == self.address_type,
            r.index == self.index,
            r.failures == 0,
            r.delay == 0,
            r.phase == if self.provider is Custom {
                Phase::Terminated
            } else {
                Phase::Polling
            },
    {
        SyncTask::new(
            self.retry_policy(),
            self.interface.clone(),
            self.address_version,
            self.address_type,
            self.index,
            self.provider.is_implemented(),
        )
    }
}

/// The whole configuration.
#[derive(Debug)]
pub struct Config {
    pub log_level: LogLevel,
    pub sites_config: Vec<SiteConfig>,
}

/// No two sites share a name.
pub open spec fn names_unique(sites: Seq<SiteConfig>) -> bool {
    forall|i: int, j: int|
        0 <= i < j < sites.len() ==> #[trigger] sites[i].name@ != #[trigger] sites[j].name@
}

/// The positions of the enabled sites, in order.
pub open spec fn enabled_positions(sites: Seq<SiteConfig>) -> Seq<usize>
    decreases sites.len(),
{
    if sites.len() == 0 {
        Seq::empty()
    } else {
        enabled_positions(sites.drop_last()) + if sites.last().enabled {
            seq![(sites.len() - 1) as usize]
        } else {
            Seq::empty()
        }
    }
}

impl Config {
    /// An empty configuration that logs everything.
    pub fn new() -> (r: Config)
        ensures
            r.log_level == LogLevel::Trace,
            r.sites_config@.len() == 0,
    {
        Config { log_level: LogLevel::Trace, sites_config: Vec::new() }
    }

    /// Accepts the configuration only where site names are unique.
    pub fn check(&self) -> (r: Result<(), ConfigError>)
        ensures
            r is Ok <==> names_unique(self.sites_config@),
            r is Err ==> r == Err::<(), ConfigError>(ConfigError::DuplicateSiteName),
    {
        let sites = &self.sites_config;
        let mut i: usize = 0;
        while i < sites.len()
            invariant
                0 <= i <= sites@.len(),
                sites@ == self.sites_config@,
                forall|a: int, b: int|
                    0 <= a < b < sites@.len() && a < i ==> #[trigger] sites@[a].name@
                        != #[trigger] sites@[b].name@,
            decreases sites@.len() - i,
        {
            let mut j: usize = i + 1;
            while j < sites.len()
                invariant
                    i < sites@.len(),
                    sites@ == self.sites_config@,
                    i + 1 <= j <= sites@.len(),
                    forall|a: int, b: int|
                        0 <= a < b < sites@.len() && a < i ==> #[trigger] sites@[a].name@
                            != #[trigger] sites@[b].name@,
                    forall|b: int| i < b < j ==> sites@[i as int].name@ != #[trigger] sites@[b].name@,
                decreases sites@.len() - j,
            {
                let same = sites[i].name == sites[j].name;
                if same {
                    assert(sites@[i as int].name@ == sites@[j as int].name@);
                    assert(!names_unique(sites@));
                    assert(!names_unique(self.sites_config@));
                    return Err(ConfigError::DuplicateSiteName);
                }
                j = j + 1;
            }
            i = i + 1;
        }
        Ok(())
    }

    /// The positions of the sites to schedule: the enabled ones, in order.
    pub fn enabled_sites(&self) -> (r: Vec<usize>)
        ensures
            r@ == enabled_positions(self.sites_config@),
    {
        let sites = &self.sites_config;
        let mut out: Vec<usize> = Vec::new();
        let mut i: usize = 0;
        while i < sites.len()
            invariant
                0 <= i <= sites@.len(),
                sites@ == self.sites_config@,
                out@ == enabled_positions(sites@.take(i as int)),
            decreases sites@.len() - i,
        {
            proof {
                assert(sites@.take(i + 1).drop_last() =~= sites@.take(i as int));
            }
            if sites[i].enabled {
                out.push(i);
            } else {
                assert(out@ =~= out@ + Seq::<usize>::empty());
            }
            i = i + 1;
        }
        proof {
            assert(sites@.take(i as int) =~= sites@);
        }
        out
    }
}

} // verus!
