# bindy

The decision core of a Kubernetes operator that manages BIND9 DNS zones
(`DNSZone`) and DNS records (`ARecord`, `AAAARecord`, `TXTRecord`,
`CNAMERecord`, `MXRecord`, `NSRecord`, `SRVRecord`, `CAARecord`), written in
Verus and proved against its contracts.

## Layout

- `src/` — the verified library.
  - `crd.rs`: the resource and status types, with their views.
  - `reconcilers/generation.rs`: when a resource needs reconciling.
  - `reconcilers/status.rs`: status conditions and the zone status updater.
  - `reconcilers/retry.rs`: transient errors, per-object backoff, and the
    cooldown of rejected writes.
  - `reconcilers/finalizers.rs`: finalizer patches.
  - `reconcilers/pagination.rs`: paging through list responses.
  - `reconcilers/records.rs`: the record reconcilers' status writes,
    renames and deletions.
  - `reconcilers/dnszone/`: zone reconciliation — instance selection,
    duplicate zones, record discovery, pods and endpoints, cleanup, and the
    zone's final conditions.
  - `record_impls.rs`, `record_operator.rs`: what each record kind brings to
    the generic record controller, and how its errors requeue.
  - `clock.rs`: the only place the wall clock is read.
- `app/` — plain Rust around the library: Kubernetes API calls, conversion of
  API objects to the library's types, and the jittered exponential backoff.
- `tests/` — tests run against the compiled library.

Laws that span several functions are public proof functions named
`lemma_*`, next to the functions they speak of.
