# yorishiro-core

The core of a multi-tenant knowledge store whose data model is defined by each workspace:
meta-schemas declare entity types, their fields and the relation types between them;
entities are validated against the JSON Schema projected from their type; schema versions
are compared to tell breaking from non-breaking changes; API keys carry a scope that every
operation checks.

Layout:

- `src/` — the library, verified with Verus. Public functions state in their contracts
  what they return (the built-in template, for one, is pinned field by field); the
  properties that span functions (scope order, cap monotonicity, which schema changes are
  breaking and which are additions, what a shallow neighbor keeps, ...) are public proof
  functions.
  Calls into other crates (SHA-256, argon2, JSON Schema validation, random bytes, UUID
  text, reading and configuring a tokenizer and encoding texts with it) go through small
  trusted functions whose contracts say what the library relies on; where a result is
  only named rather than described, the contracts around it are stated over that name.
- `tests/` — tests of the library on concrete values.
- `app/` — the service layer: PostgreSQL access with sqlx, the HTTP embedding provider,
  ONNX inference and the floating-point pooling of its output, file reading, and serde
  representations of the library's types. It reads rows, calls the
  library for every decision, and writes rows.
