# v_authx

The authentication, certification, origin and record core of Vector Network,
written in Verus: each public function states its result in its contract, and
Verus proves the code meets it.

- `src/vector.rs`, `src/entries.rs`: vector balances (components kept in
  ascending key order, read as a map), with addition, subtraction,
  magnitude and the checks on keys.
- `src/record.rs`: the stable 256-bit record hash, event hashes and
  signature payloads.
- `src/certification.rs`: the certification state and reason, and the
  identifier of a certification record.
- `src/origin.rs`: validation of creation requests, the origin hash, the
  created vector and the origin event identifier.
- `src/drain.rs`: the integer checks of a drain.
- `src/auth_ratio.rs`, `src/types.rs`: the integer and text parts of
  scoring (magnitude grades, risk classes) and the data model.
- `src/text.rs`: text helpers (key order, white space, decimal and
  hexadecimal rendering).
- `src/laws.rs`: properties relating several operations.

`app/` holds the scoring layer, which computes AuthRatio scores, thresholds,
weights and drain amounts in `f64`, and builds event records on top of the
core.
