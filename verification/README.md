# cadrum

Solid modeling on a native B-rep kernel, with the part that decides verified in Verus.

The kernel owns geometry behind opaque handles and computes in floating point. Everything
around it is decided in `src/`: validation of parameters, the meaning of native answers,
topology snapshots and histories, colours, archives, meshes and prepared sessions. Native
calls enter as functions; a contract says what an operation hands to such a function and what
it makes of every answer.

- `src/`: the verified library. Numbers are held by their bits, shapes by a handle of any
  type with its identity and its type.
- `app/`: the bridge to the C++ kernel, streams, and types in floating point.
- `tests/`: the library against small kernels written for the tests.

| module | what it holds |
| --- | --- |
| `error`, `text` | failures, their classification and their wording |
| `number` | double-precision numbers by their bits, and vectors |
| `kernel` | what the kernel hands over, as plain data |
| `order`, `topology` | operation histories in a canonical order, and their parts |
| `snapshot` | artifact-local topology with adjacency and facts |
| `color`, `trailer` | colours across operations, and behind the payload of an archive |
| `solid`, `builders`, `copies`, `queries` | solids and the operations on them |
| `sessions` | prepared operations for repeated updates |
| `compound`, `boolean` | several solids behind one handle, and their combinations |
| `mesh`, `io` | triangulations, polylines, STEP and B-rep |
