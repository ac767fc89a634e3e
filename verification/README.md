# matlas

`matlas` is the verified core of a lifetime-aware safety layer for MATLAB's
API-800 Matrix, MEX and MAT-file interfaces. Every rule the safe API applies
before it touches native memory is an executable function with a Verus
contract: array shapes and element layouts, compressed-column sparse data,
column-major indexing, UTF-16 text, MEX argument counts and output slots,
error identifiers and messages, MAT-file modes and native status codes, and
the per-thread runtime that defers destruction while MATLAB workspace memory
is borrowed and keeps generation-checked persistent arrays.

## Layout

- `src/` — the verified library.
  - `error.rs`: error categories, identifiers, message text and the quoting
    of names in error details.
  - `array.rs`: classes, element layouts, shape, sparse and index checks,
    header checks of borrowed arrays, and the values of new arrays.
  - `chars.rs`: UTF-16 encoding and decoding.
  - `mex.rs`: the invocation context, workspaces, MEX inputs and outputs,
    and the rules around MATLAB callbacks.
  - `runtime.rs`: invocation depth, workspace borrows, deferred destruction
    and the persistent-array registry, with its laws.
  - `matfile.rs`: MAT-file modes, names, status mapping, header snapshots and
    sequential readers.
  - `entry.rs`: the MEX entrypoint's argument checks and error reporting.
- `tests/` — tests of the library on concrete values.
- `app/` — the owning handles that make the native calls (arrays, MAT-files,
  workspace values, the thread-local runtime and the MEX entrypoint). It asks
  the library for every decision and holds what Verus cannot take: raw
  pointers, `Drop`, floating point and the C interface.

Proof functions named `law_*` state the properties the library keeps across
calls, such as that a persistent key resolves until it is removed, that
deferred arrays are released when the last borrow ends, that text copied
into MATLAB's buffers never splits a character, and that encoded text
decodes back to itself.
