# numa

A DNS server for one machine or one household, with its logic proved in Verus.

The library, under `src/`, holds what the server decides and computes: messages
and their parts on the wire, the way of a query through overrides, zones,
policies, blocklists, the cache and upstreams, the filter of private addresses,
DNS over HTTPS and oblivious DNS, the PROXY protocol, the proxy and the control
interface, the configuration, what the host says of its DNS, and the steps that
install the server as a service. It also holds the small server for developers,
which maps domains to IPv4 addresses and does nothing else. Each function states
in its contract what it returns; laws that tie several functions together stand
beside them as proof functions.

The programs, under `app/`, do the rest: they read files, open sockets, run
system tools, and take the steps that the library decides on.

- `buffer`, `emit`, `name`, `question`, `record`, `header`, `packet`, `svcb`,
  `wire`: messages. `record_laws` and `packet_laws` show that what is written is
  read back.
- `zone`, `blocklist`, `client_policy`, `rebind`, `acl`, `special_use`,
  `domain_list`, `service_store`: what the server knows.
- `ctx`, `resolve`, `chase`, `inflight`, `shape`: the way of a query.
- `forward`, `serve`, `runtime`, `config`, `odoh_config`: upstreams, starting and
  running.
- `doh`, `tcp`, `relay`, `odoh`, `pp2`, `pp2_udp`, `proxy`, `api`, `health`: the
  protocols around DNS.
- `system_dns`, `resolv_conf`, `scutil`, `service_control`, `steps`,
  `linux_install`, `macos_install`, `windows_install`, `trust`, `service`,
  `paths`: the host.
- `dev_domains`, `dev_server`, `dev_laws`: the server for developers.
- `text`, `net`, `name_set`, `question_set`, `memory`, `stats`, `query_log`,
  `banner`: what the others share.
