# theseus

The verified core of a set of operating-system components, written in Verus.

- `src/` is the library. Every function in it is verified against its
  `requires`/`ensures` contract; the properties that relate several calls
  (what a read gives back of a write, what `next` undoes of `previous`, that
  each missing symbol gets exactly one shim, ...) are public proof functions
  named `lemma_*`. Calls into outside crates (`xmas-elf`, `rand_chacha`,
  `rdrand`, `rustc-demangle`, `smoltcp`, `hashbrown`) go through small trusted wrappers
  whose doc comments say what is claimed of them.
- `tests/` runs the library on concrete values.
- `app/` is the ordinary Rust around it: global state behind locks, the
  serial console's escape-sequence parser, the shell's event loop and the
  command line of the C executable loader.
