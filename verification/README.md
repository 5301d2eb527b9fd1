# hsr

Build HTTP servers and clients from an OpenAPI description.

The library reads a description from YAML text (paths, operations,
parameters, responses and component schemas), checks it, indexes every schema it meets under the
location that defines it, and turns the result into a plan for generated
code: a trait with one method per operation, one response enum per
operation, the server's dispatchers and the client's methods, plus the Rust
types of the schemas, ordered by location.

Everything in `src/` is verified with Verus. The contracts state the plan
exactly, over spec functions of the description; the laws (public proof
functions named `law_*`) state what holds across calls, such as that the
index never records one location twice, that the type definitions come out
in location order, and that a path template printed back reads as it was
written.

The YAML text is read by `serde_yaml` into `openapiv3`'s types, and moved
field for field into the library's model (`src/describe.rs`); that step is
trusted, everything after it is verified.

Collections:

- The maps of a description arrive from `openapiv3` as `IndexMap`s; the
  reader turns each into a list of named entries in document order, and
  states where it reads them that no list repeats a key.
- The set of parameter names already declared by an operation is an
  `indexmap::IndexSet`, behind trusted items whose contracts say what
  `insert` does to the names it holds.
- The type index, a `BTreeMap` keyed by location in the first design, is a
  list of entries in the order they were found; the generator visits it in
  location order (`src/order.rs`), and a later entry for a location wins,
  as an insert into the map would.
- The operation-id counter, a `HashMap` keyed by identifier, is two lists
  (the distinct ids in first-seen order and their counts).
- The routes grouped by path, the fields of a struct, and the path
  parameters still expected are lists whose order and uniqueness the
  contracts state; their keys are strings and identifiers of the library,
  and the lists let the contracts speak of their contents directly.

Layout:

- `src/model.rs`, `src/types.rs`, `src/names.rs`, `src/route_path.rs`:
  the description, the type model, identifiers and path templates.
- `src/describe.rs`, `src/document.rs`: reading a description from YAML.
- `src/walk.rs`, `src/typebuild.rs`, `src/routes.rs`: walking a
  description into the type index and the routes, and validating them.
- `src/gen_types.rs`, `src/gen_routes.rs`, `src/generate.rs`, `src/plan.rs`,
  `src/order.rs`: the plan for generated code.
- `src/serverfull.rs`: the simpler generator for a flat description of
  types and routes.
- `src/petstore.rs`, `src/test_service.rs`: the handlers of the example
  services.
- `app/`: the command line, file reading, rendering of the plan to Rust
  tokens, and the actix-web runtime pieces.
