# torch

Verified shape, index and element-conversion logic for TH-backed tensors.

- `src/` (verified with Verus): extents and element counts (`shape`), storage
  positions of multi-indices and one-dimensional indices (`index`), the plans
  of select and squeeze calls (`select`), element conversion through `num`
  (`element`), and the plain data types: tensor snapshots, construction
  arguments, element-type tags, and the copy into storage (`data`).
- `app/`: the TH bindings and the tensor handles, which hand plain values to
  the library and perform the calls it plans.
- `tests/`: concrete cases for every function and law of the library.
