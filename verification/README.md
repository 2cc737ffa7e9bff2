# rust_stocks

A stock screening and market-data toolkit whose decisions are proved with Verus.

- `src/` is the verified library. Its public functions carry `requires`/`ensures` contracts
  over mathematical models (`Seq`, `Set`, `Map`, `int`), and the laws of the library are
  public proof functions:
  - `text`: the string operations the rest builds on (trimming, searching, splitting,
    replacing, padding, decimal text, query placeholders);
  - `schema`, `query`, `piotroski`, `oshaughnessy`, `extraction`, `filings`: SQL text that
    is built or cleaned, with the law that every bound value fills one placeholder;
  - `edgar`, `cik`, `ttm`: reading SEC EDGAR company facts, CIK lookups and mappings, and
    trailing-twelve-month windows;
  - `fetcher`, `fetching`, `download`, `refresh`, `initialization`, `analysis`, `stocks`:
    progress, retries, resumable downloads, refresh planning, catalogue loading and input
    checks;
  - `graham`: the categories and recommendation of a Graham value screening;
  - `api`, `dates`: request building, token handling and the few calls into `base64`,
    `csv` and `chrono`, each behind a trusted wrapper whose contract is documented.
- `tests/` runs the library on concrete values.
- `app/` is a command-line front end: database, files and network, with every decision left
  to the library (`cargo run -- <command>`; run without arguments for the list).
