# gcm

Generates conventional commit messages for staged git changes with a chat model.

- `src/` is the verified library (Verus): the settings (`config`), what the
  repository reports and the decisions on it (`git`), the prompt and the handling
  of the model's answers (`llm`), text operations on character sequences (`text`),
  the command line's options (`cli`) and the course of a run (`flow`).
- `app/` is the command-line program: argument parsing, configuration files and
  environment, the git repository, the HTTP exchange and the terminal output.
- `tests/` runs the library on concrete values.
