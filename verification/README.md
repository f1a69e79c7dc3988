# purpose_binding

A request-gating policy for MCP traffic: every governed JSON-RPC call (by default
`tools/call`) must declare a processing purpose, from a request header or from a
claim of the bearer JWT, that the target tool's allow-list permits. Calls with a
missing or unlisted purpose are denied (HTTP 403, JSON-RPC error `-32002`) unless
the fail mode is `open`.

- `src/` is the verified library (Verus):
  - `purpose.rs`: allow-list resolution and the outcome of a declared purpose;
  - `claim.rs`: reading a claim from the payload of a `Bearer` JWT;
  - `config.rs`: the configuration and the settings read from it;
  - `filter.rs`: the decisions of the request filter's headers and body phases;
  - `json.rs`: the JSON documents read, as serde_json parses them;
  - `text.rs`: character-level string helpers.
- `app/` is the gateway plumbing (PDK entrypoint, request phases, HTTP response).
- `tests/` exercises the library.
