//! RDMA configuration.

use vstd::prelude::*;

verus! {

/// RDMA configuration of a worker node.
#[derive(Debug, Clone, Copy, PartialEq, Eq, Structural)]
pub struct RdmaWorkerConfig {
    /// Use RDMA for data transfers.
    pub enable_rdma: bool,
    /// Number of RDMA domains, typically one for each NIC.
    pub rdma_num_domains: usize,
    /// CPU core of the worker thread.
    pub rdma_pin_worker_cpu: usize,
    /// CPU core of the UVM thread.
    pub rdma_pin_uvm_cpu: usize,
    /// Size of the memory pool in MB.
    pub rdma_memory_pool_mb: usize,
    /// Maximum size of the page cache table in MB.
    pub rdma_page_cache_max_size_mb: usize,
    /// Smallest transfer, in bytes, that uses RDMA.
    pub rdma_inline_threshold: usize,
    /// Poll for completions instead of waiting for callbacks.
    pub rdma_direct_polling: bool,
    /// Polling interval in microseconds.
    pub rdma_poll_interval_us: u64,
}

/// RDMA configuration of a client node.
#[derive(Debug, Clone, Copy, PartialEq, Eq, Structural)]
pub struct RdmaClientConfig {
    /// Use RDMA for data transfers.
    pub enable_rdma: bool,
    /// Number of RDMA domains.
    pub rdma_num_domains: usize,
    /// Size of the memory pool in MB.
    pub rdma_memory_pool_mb: usize,
    /// CPU core of the worker thread.
    pub rdma_pin_worker_cpu: usize,
    /// CPU core of the UVM thread.
    pub rdma_pin_uvm_cpu: usize,
}

/// Direct polling is on unless the configuration turns it off.
pub fn default_direct_polling() -> (r: bool)
    ensures
        r,
{
    true
}

/// Polling interval, in microseconds, unless the configuration sets one.
pub fn default_poll_interval_us() -> (r: u64)
    ensures
        r == 10,
{
    10
}

impl Default for RdmaWorkerConfig {
    fn default() -> (r: Self)
        ensures
            r == (RdmaWorkerConfig {
                enable_rdma: false,
                rdma_num_domains: 1,
                rdma_pin_worker_cpu: 0,
                rdma_pin_uvm_cpu: 1,
                rdma_memory_pool_mb: 1024,
                rdma_page_cache_max_size_mb: 20480,
                rdma_inline_threshold: 65536,
                rdma_direct_polling: true,
                rdma_poll_interval_us: 10,
            }),
    {
        RdmaWorkerConfig {
            enable_rdma: false,
            rdma_num_domains: 1,
            rdma_pin_worker_cpu: 0,
            rdma_pin_uvm_cpu: 1,
            rdma_memory_pool_mb: 1024,
            rdma_page_cache_max_size_mb: 20480,
            rdma_inline_threshold: 65536,
            rdma_direct_polling: default_direct_polling(),
            rdma_poll_interval_us: default_poll_interval_us(),
        }
    }
}

impl Default for RdmaClientConfig {
    fn default() -> (r: Self)
        ensures
            r == (RdmaClientConfig {
                enable_rdma: false,
                rdma_num_domains: 1,
                rdma_memory_pool_mb: 64,
                rdma_pin_worker_cpu: 0,
                rdma_pin_uvm_cpu: 1,
            }),
    {
        RdmaClientConfig {
            enable_rdma: false,
            rdma_num_domains: 1,
            rdma_memory_pool_mb: 64,
            rdma_pin_worker_cpu: 0,
            rdma_pin_uvm_cpu: 1,
        }
    }
}

impl RdmaWorkerConfig {
    /// What is wrong with the configuration, if anything: the first of the values that must
    /// not be zero while RDMA is enabled, but is.
    pub open spec fn fault(self) -> Option<Seq<char>> {
        if !self.enable_rdma {
            None
        } else if self.rdma_num_domains == 0 {
            Some("rdma_num_domains must be > 0"@)
        } else if self.rdma_memory_pool_mb == 0 {
            Some("rdma_memory_pool_mb must be > 0"@)
        } else if self.rdma_page_cache_max_size_mb == 0 {
            Some("rdma_page_cache_max_size_mb must be > 0"@)
        } else if self.rdma_inline_threshold == 0 {
            Some("rdma_inline_threshold must be > 0"@)
        } else {
            None
        }
    }

    /// Checks the configuration.
    pub fn validate(&self) -> (r: Result<(), String>)
        ensures
            r is Ok <==> self.fault() is None,
            r matches Err(e) ==> self.fault() == Some(e@),
    {
        if self.enable_rdma {
            if self.rdma_num_domains == 0 {
                return Err("rdma_num_domains must be > 0".to_string());
            }
            if self.rdma_memory_pool_mb == 0 {
                return Err("rdma_memory_pool_mb must be > 0".to_string());
            }
            if self.rdma_page_cache_max_size_mb == 0 {
                return Err("rdma_page_cache_max_size_mb must be > 0".to_string());
            }
            if self.rdma_inline_threshold == 0 {
                return Err("rdma_inline_threshold must be > 0".to_string());
            }
        }
        Ok(())
    }
}

impl RdmaClientConfig {
    /// What is wrong with the configuration, if anything.
    pub open spec fn fault(self) -> Option<Seq<char>> {
        if !self.enable_rdma {
            None
        } else if self.rdma_num_domains == 0 {
            Some("rdma_num_domains must be > 0"@)
        } else if self.rdma_memory_pool_mb == 0 {
            Some("rdma_memory_pool_mb must be > 0"@)
        } else {
            None
        }
    }

    /// Checks the configuration.
    pub fn validate(&self) -> (r: Result<(), String>)
        ensures
            r is Ok <==> self.fault() is None,
            r matches Err(e) ==> self.fault() == Some(e@),
    {
        if self.enable_rdma {
            if self.rdma_num_domains == 0 {
                return Err("rdma_num_domains must be > 0".to_string());
            }
            if self.rdma_memory_pool_mb == 0 {
                return Err("rdma_memory_pool_mb must be > 0".to_string());
            }
        }
        Ok(())
    }
}

/// With RDMA disabled every worker configuration is valid, whatever else it says.
pub proof fn law_disabled_worker_config_is_valid(c: RdmaWorkerConfig)
    requires
        !c.enable_rdma,
    ensures
        c.fault() is None,
{
}

/// With RDMA disabled every client configuration is valid, whatever else it says.
pub proof fn law_disabled_client_config_is_valid(c: RdmaClientConfig)
    requires
        !c.enable_rdma,
    ensures
        c.fault() is None,
{
}

/// An enabled worker configuration is valid exactly when none of its required values is zero.
pub proof fn law_enabled_worker_config(c: RdmaWorkerConfig)
    requires
        c.enable_rdma,
    ensures
        c.fault() is None <==> c.rdma_num_domains > 0 && c.rdma_memory_pool_mb > 0
            && c.rdma_page_cache_max_size_mb > 0 && c.rdma_inline_threshold > 0,
{
}

/// A worker configuration passes exactly when RDMA is disabled or none of its required values is
/// zero. Where it does not pass, the first of them that is zero is named.
pub proof fn law_worker_config_is_checked(c: RdmaWorkerConfig, r: Result<(), String>)
    requires
        call_ensures(RdmaWorkerConfig::validate, (&c,), r),
    ensures
        r is Ok <==> !c.enable_rdma || (c.rdma_num_domains > 0 && c.rdma_memory_pool_mb > 0
            && c.rdma_page_cache_max_size_mb > 0 && c.rdma_inline_threshold > 0),
        r matches Err(e) ==> {
            &&& c.rdma_num_domains == 0 ==> e@ == "rdma_num_domains must be > 0"@
            &&& c.rdma_num_domains > 0 && c.rdma_memory_pool_mb == 0 ==> e@
                == "rdma_memory_pool_mb must be > 0"@
            &&& c.rdma_num_domains > 0 && c.rdma_memory_pool_mb > 0 && c.rdma_page_cache_max_size_mb
                == 0 ==> e@ == "rdma_page_cache_max_size_mb must be > 0"@
            &&& c.rdma_num_domains > 0 && c.rdma_memory_pool_mb > 0 && c.rdma_page_cache_max_size_mb
                > 0 ==> e@ == "rdma_inline_threshold must be > 0"@
        },
{
}

/// The same of a client configuration, which has fewer such values.
pub proof fn law_client_config_is_checked(c: RdmaClientConfig, r: Result<(), String>)
    requires
        call_ensures(RdmaClientConfig::validate, (&c,), r),
    ensures
        r is Ok <==> !c.enable_rdma || (c.rdma_num_domains > 0 && c.rdma_memory_pool_mb > 0),
        r matches Err(e) ==> {
            &&& c.rdma_num_domains == 0 ==> e@ == "rdma_num_domains must be > 0"@
            &&& c.rdma_num_domains > 0 ==> e@ == "rdma_memory_pool_mb must be > 0"@
        },
{
}

/// The configurations that a node starts from leave RDMA off, and pass; they pass as well once it
/// is turned on.
pub proof fn law_default_configs_pass(
    worker: RdmaWorkerConfig,
    client: RdmaClientConfig,
    r: Result<(), String>,
    q: Result<(), String>,
)
    requires
        call_ensures(<RdmaWorkerConfig as Default>::default, (), worker),
        call_ensures(<RdmaClientConfig as Default>::default, (), client),
        call_ensures(
            RdmaWorkerConfig::validate,
            (&(RdmaWorkerConfig { enable_rdma: true, ..worker }),),
            r,
        ),
        call_ensures(
            RdmaClientConfig::validate,
            (&(RdmaClientConfig { enable_rdma: true, ..client }),),
            q,
        ),
    ensures
        !worker.enable_rdma && !client.enable_rdma,
        r is Ok && q is Ok,
{
}

/// A configuration that sets neither polls directly, every ten microseconds.
pub proof fn law_polling_defaults(direct: bool, interval: u64, worker: RdmaWorkerConfig)
    requires
        call_ensures(default_direct_polling, (), direct),
        call_ensures(default_poll_interval_us, (), interval),
        call_ensures(<RdmaWorkerConfig as Default>::default, (), worker),
    ensures
        direct && worker.rdma_direct_polling == direct,
        interval == 10 && worker.rdma_poll_interval_us == interval,
{
}

} // verus!
