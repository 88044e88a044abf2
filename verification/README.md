# simple_lector_dni

Reads the DG13 data of a Spanish DNIe through a PC/SC reader and hands every read
to the configured outputs (standard output, JSON, JSON Lines, CSV, webhook).

- `src/` is the verified library: the card lifecycle and its retries,
  reader selection and snapshot events, the watch controller and how a session ends,
  the worker's answers, the read record, the outputs to build and the tally of their
  answers, the CSV row, the webhook rules, the operator wording and the desktop
  settings with the meaning of the keychain's answers.
- `app/` is the `simple-lector-dni` program around it: PC/SC access, the worker
  process, files, HTTP, the command line and the JSON forms of the records.
- `tests/` runs the library on concrete values.
