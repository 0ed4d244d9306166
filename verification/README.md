# Kademlia exporter

Exposes [Prometheus](https://prometheus.io/) metrics on the nodes of a
[libp2p](https://github.com/libp2p/) Kademlia distributed hash table.

- `src/` is the library: what the exporter decides and computes, verified with
  [Verus](https://github.com/verus-lang/verus). Each function states in its contract what it does,
  and `src/laws.rs` states what holds of several of them together.
- `app/` is the program around it: sockets, files, the clock, and the loop that does what the
  library asks for.
- `tests/` runs the library with the real libp2p, maxminddb and prometheus_client.

## Running it

The program takes the path of a TOML file, and serves the metrics on port 8080 under `/metrics`:

```bash
kademlia-exporter --config-file config.toml
curl localhost:8080/metrics
```

```toml
bootnodes = ["/ip4/104.131.131.82/tcp/4001/p2p/QmaCpDMGvV2BGHeYERUEnRQAwe3N8SzbUtfsmvsqQLuvuJ"]
disjoint_query_paths = true
noise_legacy = false
# Optional:
protocol_name = "/ipfs/kad/1.0.0"
max_mind_db_path = "GeoLite2-City.mmdb"
tcp_listen_address = "0.0.0.0:4001"
quic_listen_address = "0.0.0.0:4001"
quic_v1_listen_address = "0.0.0.0:4002"
dial_concurrency_factor = 8
```

## What it shows

Every name starts with `kademlia_exporter_`.

| Metric | What it shows |
| --- | --- |
| `nodes_seen_within{country,cloud_provider,last_seen_within}` | nodes that were seen within 3, 6, 12, 24, 48 or 96 hours |
| `nodes_up_since{country,cloud_provider,up_since}` | nodes that have been up for longer than that |
| `meta_nodes_total` | nodes that are known |
| `meta_offline_nodes_removed` | nodes that were dropped after 48 hours without a sighting |
| `meta_random_node_lookup_triggered` | random look-ups, one per second |
| `random_node_lookup_duration` | how long random look-ups took, in seconds |
| `meta_node_still_online_check_triggered` | connections that were opened to probe a node |
| `meta_libp2p_network_info_*` | peers and connections |
| `meta_libp2p_bandwidth_*` | bytes received and sent |

## What the proofs rest on

The contracts of the calls into other crates are taken as they stand. They are few, and each says
in its doc comment which function it calls: `Multiaddr` in `src/address.rs`, `StreamProtocol` in
`src/client.rs`, the MaxMind reader in `src/ip_db.rs`, and the registry, its counters and its gauges
in `src/exporter_metrics.rs`.
