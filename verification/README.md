# rust_tools

Verified pieces of Rust tooling, written in Verus.

- `src/` is the library; every function in it is verified.
  - Interpreter memory: `undef_mask` (definedness bits), `pointer` (allocation
    ids, pointers and their arithmetic), `byte_order` (target integers in
    bytes), `lock` and `locking` (locks frames hold on bytes: acquiring,
    suspending, recovering, ending), `allocation`, `memory` (allocating,
    freeing, reading and writing bytes, integers and pointers, copying,
    locks, statics and the literal cache, dumps of allocations), `dump` (the
    text of a dump), `error`.
  - Lints: `consts` (constant folding of integer, boolean, string and
    structured expressions) and `constant_order` (equality and order of
    folded constants), `bit_mask`, `int_plus_one`, `mutex_atomic`,
    `unit_expr`, `serde_api`, `panic_params`; on the tree of `hir`:
    `author` (writes the `if_chain!` that matches a marked expression,
    statement or arm), `loops` (loops that never loop, empty loops, loops
    that could be `while let` or iterate differently, reversed ranges,
    indexing by the loop variable, map entries), `counter_loop` (explicit
    loop counters), `used_after` and `loop_nest` (what keeps a `while let`
    over an iterator from becoming a `for` loop); `map_unit_fn` (`map`
    with a function that returns `()`); and `reports` (the names and
    message texts the lints report under).
  - Tools: `cargo_clippy` (argument handling), `scripter` (the installer
    script), `text` (replacing, shell quoting, decimal numbers, trimming code
    blocks), `messages` (scripted language-server requests and checks of the
    responses), `altivec` (vector addition, saturating multiply-adds and
    multiply-sums, and byte permutation), `fixtures`.
- `tests/` exercises the library on concrete values.
- `app/` holds what is not verified: the `cargo clippy` entry point, writing
  the installer script, waiting for responses, wakers, and everything that
  computes with floating point.

The contracts of the library speak of mathematical models: sequences for
bytes, masks and text, maps for allocations and locks. Laws that relate
several operations are public proof functions whose names begin with `law_`.
