# ocpi_kit

A verified toolkit for OCPI, the protocol between Charge Point Operators, e-Mobility Service
Providers and roaming hubs. The library in `src/` is written in Verus: every function carries a
`requires`/`ensures` contract that Verus proves, and the laws the library promises are public proof
functions.

## Layout

- `src/types` — the OCPI value types: `CiString`, `OcpiString`, `DateTime` (RFC 3339 in the six
  forms OCPI allows), `LocalTime`/`LocalDate`, `Url` with its SSRF policy, party and EVSE
  identifiers, `Number` (an exact decimal), RFC 6901 validation, open and closed enums.
- `src/transport` — status codes, the response envelope and error vocabulary, credentials tokens
  and the `Authorization` header, endpoint URLs, pagination and `Link` headers, routing headers and
  scenarios, peer quirks, and JSON Merge Patch.
- `src/tariffs` — the codes pricing reports with, the parts of a Tariff the lints read, the lints
  themselves, which Tariff Element prices a dimension at a given moment, the pricing policy
  (rounding and `step_size` quantisation), the session and restriction context a price is
  evaluated in (with the Location's IANA time zone), pricing a whole session, costing from priced dimensions to an
  auditable breakdown (tax split, tax lines, `min_price`/`max_price`), and checking a CDR's
  figures against such a breakdown.
- `src/testkit` — test parties and tokens, and in-memory stores whose pagination behaves as the
  protocol describes.
- `src/v2_1_1` — the OCPI 2.1.1 enums.
- `app/` — the edges Verus does not see: `http` header maps, `serde_json` values, `time` types and
  the JSON number boundary.
- `tests/` — the test suite, run against the compiled library with the real dependencies.

## Pricing a session

`PricingEngine::price` drives the whole computation and its contract states the result exactly:
the magnitudes are checked (`check_range`), each charging period gets the tariff its `tariff_id`
names or the one preferred at its start, its quantities are priced by the Price Component its
restriction context selects, the flat fee is charged once, `step_size` is applied once per
dimension (`quantise_and_cost`) and the result is finished into the breakdown (`finish`). The
spec functions `priced`, `quantised_costs` and `finished` say what each step gives.

Reported quantities are the computed ones, not rounded to a precision of their own.
