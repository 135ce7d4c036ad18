# h3proxy

An HTTP/3 proxy with a verified core.

- A CONNECT request opens a tunnel to the TCP address that it names. The proxy also
  offers tunnels to UDP addresses, by the protocol `connect-udp` or by a path such as
  `/.well-known/masque/udp/192.168.1.1/53/`.
- Every other request is forwarded to its upstream server over HTTP/1.1, and the answer
  is handed back.
- A client asks the proxy for a tunnel to a target and prints what comes back.

`src/` is the library. It decides what is done: where a request goes, what is answered,
what is relayed, and in which order. It performs no input or output: each part of it is a
state machine that asks for an action and is told what came of it. Every function has a
contract that Verus proves, and the `law_` functions state what holds of whole runs.

| Module | What it holds |
|---|---|
| `text` | searching, splitting and comparing texts |
| `uri` | the parts of a URI |
| `headers` | header fields in an `http::HeaderMap` |
| `chunk` | chunks of data in `bytes::Bytes` |
| `request` | a request, and where it is to go |
| `handler` | the exchange of one request |
| `laws` | what holds of every exchange |
| `relay` | one direction of a tunnel |
| `tunnel` | both directions together |
| `server` | accepting connections and requests |
| `client` | the client |
| `tls` | certificates and keys |
| `cronet_client`, `cronet_dist` | the client through Cronet, and its library |
| `config`, `error` | set-ups and errors |

What the library says of other crates (`http`, `bytes`, `rustls`, `rustls-pemfile`) stands
beside each `assume_specification` and `#[verifier::external_body]` and is not proved.

`app/` performs the input and output, with quinn, h3, hyper and tokio. It holds several
programs in one, told apart by the name that it is started under:

- `h3proxy-cli server` and `h3proxy-cli client`, with `--help` for their options;
- `h3proxy`, a proxy on port 4433 with `cert.pem` and `key.pem`, for TCP tunnels and plain
  requests;
- `h3client`, a client of that proxy on the same machine;
- `fetch-cronet`, which prepares a build with Cronet. Such a build needs bindings that the
  `cronet-rs` of the registry does not hold, and `--cfg 'feature="cronet-backend"'`.

For a test, make a self-signed certificate:

    openssl req -x509 -newkey rsa:4096 -nodes -subj "/CN=localhost" \
        -addext "subjectAltName=DNS:localhost" \
        -addext "basicConstraints=critical,CA:FALSE" \
        -keyout key.pem -out cert.pem -days 365
