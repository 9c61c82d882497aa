# curvine_rdma

The RDMA data path of a distributed block cache, verified with Verus.

- `src/` is the library. Its functions are verified against their contracts, but for the few that
  call another crate, `Arc`, a vector's address or the clock: their contracts are trusted, and a
  comment above each says what is claimed.
  - `free_list`, `memory_pool`, `pool_laws`: the pool of registered memory.
  - `types`, `proto`, `conversions`, `state`, `config`: what nodes tell each other.
  - `transfer_engine_manager`, `client_rdma_manager`: memory on either side of a transfer.
  - `page_cache`, `page_cache_entry`, `page_cache_table`, `access_order`, `page_cache_laws`: registrations
    that are kept for reuse.
  - `block_handler`, `handler_pool`, `worker_handler`: handlers and dispatch on the worker.
  - `rdma_read_handler`, `data_slice`, `read_laws`: reads on the worker.
  - `block_reader`, `block_reader_rdma`, `reader_laws`: reads on the client.
  - `shared_bytes`, `page_cache_map`, `handler_queue`, `shared_handle`, `clock`: the `bytes`,
    `dashmap` and `crossbeam` crates, `Arc` and the system clock, with the contracts that are trusted of them.
- `tests/` runs the library on concrete values.
- `app/` is what surrounds the library: engines, disks, connections, configuration files.

Where a step depends on a disk, an engine or a peer, the library says what to do and takes the
outcome as an argument; `app/` does it.
