# cart

The Op build tool and package manager, with its decisions verified by Verus.

`cart` manages Op projects the way `cargo` manages Rust projects: it reads
and writes `Cart.toml`, resolves dependencies from `~/.carts/`, runs the
`opc` compiler, launches emulators, and installs libs from git.

## Layout

- `src/` is the verified library. Every subcommand is a function from the
  manifest, the config and the flags to what the command does: the `opc`
  runs of `cart build` and `cart check`, the emulator command of `cart run`,
  the test plan and verdicts of `cart test`, the git steps of `cart install`
  and `cart update`, the Markdown of `cart doc`, and so on. The dependency
  resolver is a state machine that asks its caller to load each lib. Its
  contracts say how each step walks the loaded manifests' dependencies,
  that a dependency back to a lib being walked is a cycle error, and that a
  finished walk yields a duplicate-free graph that meets every dependency
  entry of the project and of every resolved lib.
- `app/` is the `cart` program: command-line parsing, TOML files, the file
  system, git, `opc` and emulators. It asks the library what to do and does
  it.
- `tests/` exercises the library on concrete values.

The outside crates the library calls (`semver` for version requirements,
`sha2` for the checksum of a lib's source tree) are reached through a few
trusted functions whose contracts say what is assumed of them.
