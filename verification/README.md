# apple-mail-cli

`apple-mail` is a macOS-only JSON command-line tool for reading and organizing
the accounts configured in Apple Mail. It talks to Mail through Apple's
`osascript` and a fixed JXA program; user input reaches that program only as one
JSON process argument.

## Layout

- `src/` is the verified library:
  - `cli` parses the command line (commands, options, bounds) and states its
    grammar as a specification;
  - `request` builds the JSON request for Mail and the preview of a mutation;
  - `json` holds JSON documents, their model, and compact rendering;
  - `application` runs a command: previews, the bridge call, the checks on
    Mail's response envelope, exit codes and error messages;
  - `output` builds the error envelope;
  - `osascript` decides the bridge's arguments, polling, timeout and the
    meaning of the process output;
  - `laws` proves properties of the library as a whole (bodies only on
    request, mutations only with `--execute`, bounded inputs, previews that
    show what executing sends).
- `tests/` runs the library on concrete command lines and responses.
- `app/` is the program: argument handling, clap's help and diagnostics, the
  `osascript` process and its output threads, printing.

`app/` embeds the JXA program from `extras/mail_bridge.js` at build time; the
program has to be in place there before `app/` builds.
