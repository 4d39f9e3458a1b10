# landscape

The decisions of a home router, written in Verus and proved against their
contracts: IPv6 prefixes for LAN interfaces, address translation, PPPoE uplinks,
the DNS resolver, the registry of local host names, the HTTP and TLS gateway, and
the settings of the whole program.

## Layout

- `src/` is the library. All of its logic is verified.
  - `lan_ipv6/`: prefix arithmetic, prefix groups, and the checks that keep what
    interfaces take from a parent prefix apart.
  - `natting/`: static mappings, port ranges, the entries of the data path, and
    the steps that bring the data path up.
  - `ppp/`: options of a PPPoE session and the relay of its packets.
  - `config/`: command line, configuration file and defaults.
  - `hostname/`: names of hosts on the LAN.
  - `dns/`: rules, redirects, the cache, and what is decided for each request.
  - `gateway/`: routes, load balancing, headers, failures and server names.
  - `text.rs`, `net.rs`, `name_map.rs`, `entry_map.rs`, `viewed.rs`, `ids.rs`:
    what the rest is built from.
- `tests/` runs the library on concrete values.
- `app/` is what surrounds the library: files, sockets, tasks and the services of
  other crates. It asks the library what to do and does it.

Public proof functions whose names start with `law_` state what holds of several
functions together, or of all inputs.

What comes from other crates (`uuid`, `idna`, `dashmap`, `hickory-proto`, `http`,
`pingora-http`) is called through small functions whose contracts say what is
relied on, and is not proved; they stand in `ids.rs` and in the files named
`outside.rs`. Of std, `String::push` (in `text.rs`) and `String::from_utf8` are
relied on in the same way.
