# hb_schema

A terminal viewer for the KronoX timetables of Högskolan i Borås (schema.hb.se),
with its schedule model verified in Verus.

## Layout

- `src/` — the verified library.
  - `text.rs`: text operations (trimming, searching, splitting, joining,
    numbers) specified over `Seq<char>`, and the few calls into `std` that
    vstd does not specify.
  - `html.rs`: what the schedule page holds, as read by `scraper`, and URL
    resolution by `url` (trusted wrappers with named results).
  - `parser.rs`: events, weeks and the schedule read from a page; activity
    kinds, course codes, groups, links, dates, buildings, durations, search
    and group matching.
  - `groups.rs`: the sorted set of selected groups and group filter strings.
  - `config.rs`: profiles, the configuration and where it is read from.
  - `app.rs`: the viewer's state and what every key does (`key_step`).
  - `fetcher.rs`: what a fetch yields and how it falls back on the cache.
  - `report.rs`: the listings printed by `--today` and `--week`.
  - `cli.rs`: what the command line asks for.
  - `laws.rs`: properties of the model as a whole, proved.
- `app/` — the program around the library: terminal drawing (ratatui), key
  input (crossterm), network and disk access (reqwest, directories, toml).
- `tests/` — tests of the library on concrete pages and states.
