# Creator Program Crawler

A crawler that starts from the handles of TikTok creators, reads their profiles
and posts, finds out whether they promote an app, and goes on to the accounts
that they follow if they do. What it decides and what it remembers is a library
that is verified with Verus; the program around it does the input and output.

- `src/` is the library. `db/` holds the tables of the database with their
  invariant, and every operation on them as a function from tables to tables;
  `services/` holds what is asked of other services and how their replies are
  read; `crawler/` and `web/` hold the order in which things are done, runs, and
  the pages of the dashboard.
- `app/` is the program: the command line, the SQLite file, the requests to the
  scraper, the speech service and the model, and the dashboard's server. The
  dashboard's pages are read from `static/` beside the program.
- `tests/` holds the tests of the library.

The laws that hold of the library are the proof functions whose names start with
`law_`. A job waits, is worked on, is done or fails after its third try; an app
on the white list comes first, and one on the black list is left out unless a
creator is asked for by name; a frontier run goes one step beyond its seeds.

What other crates compute is stated in `json_text`, `moment`,
`services::patterns` and `services::responses`, each beside the call.

## Settings

`OPENAI_API_KEY`, `ELEVENLABS_API_KEY` and `TIKTOK_SCRAPER_BASE_URL` have to be
set. `TIKTOK_SCRAPER_FIXTURE_PATH` names a JSON file, or a directory of files
`<handle>.json`, to be read in place of the scraper.

## Commands

    init
    apps add "Example App"
    seed @initialcreator
    run --concurrency 10 --limit 100
    queue --status pending --limit 25
    crawl @onecreator --force
    serve --port 3000
