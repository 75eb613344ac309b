# rustiq

The core of a job queue, written in Verus.

- `src/types.rs`: `JobStatus`, `Timestamp`, `Job` (construction, status
  predicates, lease expiry), `QueueConfig` and its builder.
- `src/errors.rs`: `RustiqError`, its messages, recoverability, and the
  conversions from `serde_json` and `uuid` errors.
- `src/storage.rs`: `MockStorage`, an in-memory job store modelled as a map
  from job id to job, with the laws that relate its operations.
- `app/`: the binary: logging setup, serde forms of the types, the async
  `Storage` trait with a lock-protected store, and the `sled` back end.
