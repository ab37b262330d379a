# r2nova

The core of r2nova, a desktop client for Cloudflare R2, written in Verus.
Its functions carry contracts that Verus proves, except a handful of small
wrappers around `std`, `uuid` and `chrono` whose contracts are trusted.

- `src/` — the verified library: the transfer engine and its queue rules
  (`engine`, `transfer`, `multipart`), the transfer loops as step functions
  (`runs`), the object browser's listing rules
  (`listing`), download destinations and dropped paths (`paths`), profiles,
  accounts and their secrets (`creds`, `config`), the legacy transfer list
  (`tasks`), command shapes (`commands`) and errors (`error`). Those wrappers'
  doc comments say what is assumed of each.
- `tests/` — ordinary Rust tests that run the library.
- `app/` — the desktop shell around it: disk, OS keychain, S3 calls, the
  event channel and the async loops that carry out what the library decides.
