# cosmic_store

The decisions behind the pages of an application store, verified with Verus:
which page shows, how application cards fill a grid, which buttons an
application offers, how its details page is assembled (sources, developer,
downloads, screenshots, addons, latest release, licenses, links), and how
download counts are shortened.

- `src/` — the verified library.
  - `downloads`: decimal and short forms of download counts, and what a
    short form stands for.
  - `grid`: the card grid (columns, card width, each card's cell).
  - `model`: applications, sources, packages, pages.
  - `store`: the store's state, its invariant and the lookups the pages make.
  - `order`: keys that a `BTreeMap` lists in increasing order.
  - `buttons`: the controls of an application.
  - `addons`: gathering and ordering an application's addons.
  - `license`: license lines from an SPDX expression (through `spdx`).
  - `release`: the release date line (through `chrono`), and the calendar
    date it spells.
  - `details`: card tags, theme list, screenshot navigation, links.
  - `pages`: what each page shows, and which page the window shows.
- `tests/` — scenarios run against the compiled library.
- `app/` — drawing the pages with libcosmic from what the library decides.
