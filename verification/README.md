# qdrust

The verified core of qdrust, a server that replays HTTP request templates
(HAR) on a schedule and reports the outcome through notification channels.

The library in `src/` holds the server's rules, each with a contract that
Verus proves:

| module | what it decides |
|---|---|
| `config`, `environment` | the configuration from the environment and the optional JSON file, and the startup checks |
| `api`, `accounts`, `auth` | runtime settings, the error contract, cookies and CSRF, login throttling and decisions, password rules, account mails |
| `oidc`, `header_auth`, `session_cache` | OIDC state and PKCE derivations, callback checks and username choice; trusted-proxy header identities; session cache keys |
| `scheduler` | when a task is due, run policy, retries, retention, notification texts |
| `delivery`, `push_channels`, `email`, `outbound` | the request or mail each notification channel sends, and the outbound posture |
| `library` | template library sources: URLs, manifests, file trees, listings, imports and the catalogue cache |
| `ga` | the analytics snippet injected into HTML pages |
| `text`, `json`, `clock`, `crypto` | character strings and JSON documents as sequences, and the calls into time, hashing, encoding and password crates |

Laws that relate several functions are stated as public proof functions
named `law_*` next to the functions they speak of.

`tests/` exercises the library on concrete values. `app/` is the command
that loads the configuration and performs the I/O the library plans:
HTTP requests, SMTP mail, the template library's GitHub reads, the Redis
session cache and the configuration file watcher.
