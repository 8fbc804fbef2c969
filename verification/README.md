# jarvis

A terminal interface that finds the runnable scripts, tasks and targets of a
project (bash functions, npm and Devbox scripts, Task, Make, Just, Cargo,
Nx, Terraform, Gradle, Bazel, GitHub Actions workflows) and runs them in an
embedded terminal.

- `src/` is the library, verified with Verus: discovery of script files,
  the parsers of each runner's files and output, the state of the browser
  and what each key does, the commands that run an item, the usage counts,
  and the texts the screen shows. Each public function states its result in
  its contract; the laws of the library are public proof functions.
- `app/` is the program around it: the command line, the file system, the
  runners' processes, the pseudo-terminal and the drawing of the screen.
- `tests/` runs the library on concrete inputs.
