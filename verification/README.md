# twitter_cli

A command-line client for searching and scraping Twitter/X through the Apify API
(actor `apidojo~tweet-scraper`), with accounts whose API tokens live in the OS keystore.

The decisions of the program are a Verus-verified library; the program around it does the
input and output.

## Layout

- `src/` — the verified library.
  - `text.rs`: trimming, ASCII case folding, decimal formatting, string order.
  - `json.rs`: JSON documents as plain values, and the shapes the reports must have.
  - `error.rs`: the error every command can end in; its code is the exit status.
  - `client.rs`: requests to the Apify API, path-segment encoding, and how a response
    (status and body) reads as a document or an error.
  - `config.rs`: the account records, case-insensitive lookup, the stable listing order, UTC
    timestamps, and the errors of loading and locking the config file.
  - `secrets.rs`: choosing the keystore backend, the keystore commands to run, and the store
    file of the file backends.
  - `account.rs`, `account/identity.rs`: which account and token a command runs with, and
    what `users/me` says about a token.
  - `commands/`: what each command decides and reports; `adding.rs` and `removing.rs` step
    through adding and removing an account, one event at a time.
  - `output.rs`, `readme.rs`: the rendered output, the error envelope, and the agent manual as
    text or data.
- `app/` — the `twitter` program: argument parsing, files, keystore commands, HTTP, prompts,
  and printing, each handing plain values to the library and taking plain values back.
- `tests/` — tests of the library on concrete values, including the command scenarios.
