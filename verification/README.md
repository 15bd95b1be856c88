# momo

A command-line toolkit for JavaScript and TypeScript projects: a test runner
that finds test files and checks that they parse, and a content-addressable
package cache.

- `src/` is the verified library.
  - `text` and `style` render numbers, hexadecimal and ANSI-styled text.
  - `cli` holds the commands and decides what running each one does.
  - `test` decides which files are tests, checks a loaded file with the oxc
    parser, and renders the console summary.
  - `manager` names the cache's files (package keys are BLAKE3 digests),
    checks package identifiers and symlink targets, and holds the install,
    resolve and link-strategy decisions as state machines whose laws are
    proved (installs and resolves end, leave no staging or trash behind,
    offline resolves never fetch, and a failure names the step whose error
    is returned).
- `app/` is the program around it: argument parsing, the directory walk,
  parallel file reading, locks, and the file-system work that the state
  machines ask for.
- `tests/` runs the library on concrete values.
