# pie_bakeoff

The logic of a small pie shop web service, verified with Verus.

- `src/` is the library: the catalogue indexes (pies by price, by id, and
  the bit vector of each label), the narrowing of pies for recommendations,
  the purchase rules as a state machine, the store keys, the request
  decisions and the replies. Bit vectors are those of the `bit_vec` crate,
  declared in `src/bits.rs` with the contracts Verus relies on.
- `app/` is the web server around it: `iron` routing, the Redis store,
  fetching and decoding the catalogue, templates, and the price checks that
  need floating point.
- `tests/` runs the library on concrete values.
