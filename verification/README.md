# spacegate_kernel

The routing and filtering kernel of an API gateway, written in Verus: the
functions in `src/` carry contracts that Verus proves, except the few marked
`#[verifier::external_body]` that call `http`, `url`, `urlencoding`,
`regex`, `rand`, `chrono`, `ipnet`, `serde_json` or std; their contracts
state what those crates do and are taken as given, as are the two
`assume_specification` items (`Regex::clone`, `Extensions::new`).

- `src/config*`: gateway, listener, route and filter configuration; the
  reading of Kubernetes gateway API objects into it (the gateways of the
  `spacegate` class and the routes attached to them) and the decisions of
  the cluster watcher; the gateways that run
  as configuration events arrive.
- `src/functions/http_route*`: matching requests to routes, rules and
  backends, the decisions taken for one request, and the order in which the
  filters of a request run; `src/functions/server.rs`: the response to a
  request whose handling failed.
- `src/plugins/*`: the context filters share and the filters themselves
  (header modifier, redirect, rewrite, maintenance, retry, status, limit,
  inject, compression).
- `src/plugin/*`, `src/plugin_layers/*`, `src/helper_layers/*`, `src/layers/*`:
  route filters on header maps, content encodings, and the building blocks
  of the service layers.
- `src/text.rs`, `src/keyed.rs`, `src/urls.rs`, `src/pattern.rs`,
  `src/random.rs`: text, small keyed maps, and the calls into `url`,
  `urlencoding`, `http`, `regex` and `rand`, each with the contract the
  library relies on.

`app/` connects the library to the outside: configuration files and their
serde form, `http` requests and responses, IP address parsing, weighted
encodings and the loops that run filters and configuration events.
`tests/` exercises the library through its public interface.
