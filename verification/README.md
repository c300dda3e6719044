# csalt

The verified core of C-Salt, a Cargo-inspired build driver for C projects.
`Salt.toml` describes a package and its compilation units (`bin`, `lib`,
`dyn`, `extlib`, `extdyn`, `pkg`); C-Salt either calls a C compiler directly
or generates a `CMakeLists.txt` and drives CMake.

- `src/` is the library, checked by Verus: manifest validation
  (`config`), the build plan and dependency resolution (`plan`), compiler,
  archiver and linker command lines (`toolchain`, `linker`), `pkg-config`
  output parsing (`flags`), CMake generation (`cmake`), build-system versions
  (`version`), lock reconciliation (`lock`), new-project contents (`project`),
  project walks (`workspace`), file hashes (`hash`) and path helpers (`paths`).
- `app/` is the `csalt` command-line tool: argument parsing, file-system and
  process work, and the serde forms of `Salt.toml` and `Salt.lock`.
- `tests/` exercises the library on concrete values.
