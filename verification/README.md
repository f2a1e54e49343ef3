# quick_repertoire

`quickrep` shows the repertoire of a cinema venue (Cinema City, Helios, Multikino) as a
table in the terminal, with TMDB ratings and summaries.

- `src/` is the library, verified with Verus: the chains' page and API readers, the venue
  and repertoire models, the settings file format, the table rendering, the retry policy,
  the browser wait and the TMDB matching, each with its contract. Calls into `regex`,
  `scraper`, `comfy-table` and `chrono` stand behind small trusted wrappers whose contracts
  name their results.
- `tests/` runs the library on concrete inputs.
- `app/` is the program around it: command line, settings and database files, HTTP,
  headless Chromium, prompts and progress bars.
