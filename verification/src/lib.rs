//! Verified RDMA data path of a distributed block cache.

pub mod access_order;
pub mod block_handler;
pub mod block_reader;
pub mod block_reader_rdma;
pub mod client_rdma_manager;
pub mod clock;
pub mod config;
pub mod conversions;
pub mod counter;
pub mod data_slice;
pub mod error;
pub mod free_list;
pub mod handler_pool;
pub mod handler_queue;
pub mod memory_pool;
pub mod page_cache;
pub mod page_cache_entry;
pub mod page_cache_laws;
pub mod page_cache_map;
pub mod page_cache_table;
pub mod pool_laws;
pub mod proto;
pub mod rdma_read_handler;
pub mod read_laws;
pub mod reader_laws;
pub mod shared_bytes;
pub mod shared_handle;
pub mod state;
pub mod text;
pub mod transfer_engine_manager;
pub mod types;
pub mod worker_handler;
