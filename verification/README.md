# llama_setup

A command-line helper that checks whether the CUDA toolkit and llama.cpp are
installed (offering to install them), reads version numbers out of
`--version` output, starts llama.cpp's client, completion and server
programs, and lists cached Hugging Face models with the installed ones first.

- `src/` holds the decision logic, verified with Verus: version parsing
  (`version`, `check_cuda_toolkit`), the check-and-install dialogues as state
  machines (`setup`, `llama_cpp`), list navigation (`list_picker`), model
  ordering and cache paths (`model_picker`), and character-level helpers
  (`text`).
- `app/` runs processes, reads the terminal, the environment and the file
  system, and feeds the results to the library.
- `tests/` exercises the library on concrete inputs.
