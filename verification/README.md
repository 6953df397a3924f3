# warden-secret-operator

A Kubernetes operator that provisions `Secret` resources from items of a
Bitwarden or Vaultwarden vault, with its decisions verified by Verus.

- `src/` is the library. Whatever touches the outside is a state machine here:
  `bw::session` (the vault, worked with through the Bitwarden command line and
  jq) and `reconcile` (the cluster). Each step returns the next request
  together with a stage; the reply to the request and the stage give the step
  after it. `bw::laws` and `reconcile::laws` hold what is proved of whole runs.
  `conversion` is the webhook between the API versions `tomjo.net/v1` and
  `tomjo.net/v2`, `settings` reads the configuration.
- `app/` performs the requests: shell commands, temporary files, calls of the
  Kubernetes API, the webserver.
- `tests/` runs the library on concrete values.

What is taken on trust is marked `external_body` or `assume_specification`, with
a comment that names the outside function: reading a setting, sealing and
unsealing a secret, the base64 text of a `ByteString`, the UTF-8 decoding of the
standard library, the equality of `str`, and the clock.

## Configuration

A file `config/config.*` (the path can be set by `BW_OPERATOR_CONFIG`), or
environment variables with the prefix `BW_OPERATOR_`:

| key | default |
| --- | --- |
| `bw_path` | `/usr/bin/bw` |
| `url` | `https://vault.bitwarden.com` |
| `organization` | none |
| `user`, `pass` | required |
| `webserver_ip` | `0.0.0.0` |
| `webserver_port` | `8080` |
| `webserver_tls` | `false` |
| `tls_cert_path` | `/certs/tls.crt` |
| `tls_key_path` | `/certs/tls.key` |

`BW_OPERATOR_NOOP_REQUEUE_DELAY` sets how many seconds to wait when there is
nothing to do (300 by default).
