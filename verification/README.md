# cargo-chronoscope

Records Cargo builds, lists them, and reports what changed between two of them.

`src/` is the library, verified with Verus. It decides what a command does next
(`session`) and makes the human-readable texts: the listing of builds
(`listing`), the report on two of them (`report`, `path`) and the closing line
of a build. The contract of each function says exactly which text that is. JSON
and completion scripts are made outside it. What
holds of the library as a whole is stated in public proof functions beside the
functions it is about.

`app/` is the program around it. It parses the command line with clap, performs
what a session asks for, and hands back what came of it. A database, a
supervisor of cargo and a dashboard are plugged in through the traits of
`app/backend.rs`; without them only `completions` works.

The library holds no floating-point numbers. A span of time is shown by
`Elapsed::seconds`; the figures of a `DurationChange` that come of a division
arrive as text, the delta once to each precision, and the report picks.

`tests/` runs the library on concrete values.
