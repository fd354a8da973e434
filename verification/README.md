# pdydns

`pdydns` watches the host's public IPv4 address and keeps PowerDNS `A`
records pointing at it.

- `src/` is the verified library (Verus): configuration merging and checks
  (`config`), DNS name normalisation, the PowerDNS update request and the
  judgement of its answer (`powerdns`), reading the public-ip service's reply
  (`public_ip`, `ipv4`), decimal numbers (`number`), string helpers (`text`),
  and the decision whether records must be rewritten (`sync`).
- `app/` is the service around it: command line, configuration file and
  environment, HTTP, logging and the polling loop.
- `tests/` exercises the library.

Configuration is read from `config.toml` (or the path given with `--config`);
the environment variables `PDYDNS_POWERDNS_API_URL`, `PDYDNS_POWERDNS_API_KEY`,
`PDYDNS_POWERDNS_SERVER_ID`, `PDYDNS_INTERVAL_SECONDS`, `PDYDNS_DEFAULT_TTL`,
`PDYDNS_PUBLIC_IP_URL` and `PDYDNS_RECORDS` (a JSON array of
`{ zone, name, ttl? }`) override it, and with all required values set there
the file may be omitted.
