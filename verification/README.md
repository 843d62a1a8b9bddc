# mig

A command-line package installer, verified with Verus.

`mig -p <manager> -a <package> -i` installs one package; `mig -i` installs
everything listed in the configuration file (package manager packages and
custom packages built by shell commands); `-c <command>` runs a command;
`-a` with `-p` adds a package to the configuration; `-u` updates the
installer from its sources; `-h` prints the help table.

Layout:

- `src/` — the verified library.
  - `lexer` — command-line arguments to tokens.
  - `parser` — tokens to the settings of a run, and the plan of the run.
  - `installer` — plans for installing a configuration and for updating the
    installer.
  - `plan` — actions, their notices, and how an outcome decides which action
    comes next.
  - `utils` — the configuration model, the operating system identifier read
    from `os-release` text, and the help table.
- `app/` — the program: reads the command line and the JSON configuration,
  carries out plans (processes, directories, files, printing).
- `tests/` — tests of the library.
