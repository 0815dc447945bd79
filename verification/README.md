# rbw

The decisions of a Bitwarden client and of the agent behind it, written in Verus: each function
states in its contract what it returns, and Verus proves it. What the library does not do is I/O.

- `src/` is the verified library.
  - `pinentry`, `prompt`: the dialogue with pinentry, and the secrets that are asked for in it.
  - `client`, `api`, `vault`: the requests to the server, which answers are failures, and what is
    kept of the others.
  - `sso`: single sign-on through the browser.
  - `retry`, `login`: registering, logging in and unlocking, step by step.
  - `agent`: locking, syncing, decrypting, encrypting and notifications.
  - `ssh_keys`, `ssh_agent`, `crypto`: the SSH keys of the vault, and signing with them.
  - `dirs`: where files are.
  - `base64`, `percent`, `pairs`, `text`, `error`: what the others are written with.
- `app/` is ordinary Rust around it: HTTP, processes, sockets and files.
- `tests/` runs the library with the crates that it calls.

A flow such as a login is a value that says what is to be done next. The program does it, and
hands back how it went; the library answers with the next value, or with the failure that the
user is told of. Statements about whole flows are the public proof functions whose names begin
with `law_`.

What is believed of other crates stands in the contracts of the functions marked
`external_body`, and in the `assume_specification` items.
