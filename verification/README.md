# yizu_pages

The logic behind the park workspace pages (HR, finance, maintenance,
devices, data map and sign-in), written in Verus: dates and times in China
time, money and quantities, form checks, ledger filters and tallies, and
how records of one table link to another. Every function in `src/` carries
a contract that Verus proves; the public `lemma_*` proof functions state
properties that hold across functions, such as dates and times reading back
as what was written.

- `src/` — the verified library. `calendar`, `text`, `daytime` and `tally`
  are the shared ground; `hr`, `finance`, `maintenance`, `device`,
  `data_map`, `login` and `workspace` follow the pages.
- `tests/` — tests on concrete values.
- `app/` — what stays outside the verified library: decimal numbers typed
  into forms (floating point), the clock and what the browser reports, and
  the glue that hands their outcomes to the library's checks. The library
  takes clock readings as arguments: the browser has no system clock.
