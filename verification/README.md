# miniextendr_api

The conversion core of an R extension framework, verified with Verus.

R objects are modelled by `sexp::Sexp`, an owned value holding what the
conversion logic reads from an R object: its type, its payload and its
attributes. Everything else is stated against that model and proved.

Layout of `src/`:

- `sexp` — the object model, attributes, structural equality and copies.
- `from_r`, `into_r`, `sets`, `roundtrip` — R-to-Rust and Rust-to-R
  conversions, batched element errors, and what reading back a converted
  value gives.
- `list` — R lists: construction, element and attribute access, conversion.
- `condition` — structured R conditions: reading tagged condition values
  back, error builders, and shaping serialized error payloads.
- `connection`, `expression`, `encoding`, `cached_class` — the decisions
  around connections, calls and environments, the locale check, and the
  class vectors the framework attaches.
- `externalptr` — type identifiers of stored values and the diagnostics for
  handles holding another type.
- `arrow`, `r_buffers` — logical vectors as Arrow boolean arrays, and the
  registry of R vectors borrowed by Arrow buffers.
- `arrow_frame`, `arrow_to_r` — R vectors and data frames as Arrow arrays and
  record batches (by class, then type), and back.
- `adapter_traits` — adapters exposing std traits to R.
- `text` — string building and integer rendering.

`app/` holds the process-wide state, the finalizer's abort guard, panics,
the adapters whose behaviour is that of user impls of std traits, and the
floating-point steps of the Arrow conversions (dates, times and widened
numbers).
