# bsh

A small Unix shell: builtin and external commands, history and variable
expansion, `|`, `;`, `||`, `&&`, redirections and job control.

- `src/` is the library, verified with Verus: the lexer and grammar of
  command lines, the interpreter that turns a syntax tree into commands to
  run, variable and history expansion, the job table, the builtins'
  decisions, number parsing and the shell's policy (prompt, exit code, what
  a line does). Each public function states its result in its contract;
  the laws that span several functions are public proof functions.
- `app/` is the program around it: argument handling, logging, reading
  lines from the terminal, starting processes, pipes, signals and the
  terminal's process group.
- `tests/` runs the library on concrete values.
