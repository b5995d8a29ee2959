# localhost

An HTTP/1.1 server with virtual hosts, static files with directory
listings, CGI scripts, sessions, a file upload API and custom error pages,
together with `localhost-cli`, a small tool that manages the local sites.

The logic is a Verus library (`src/`), verified against its contracts:

- `http/`: status codes, header names and values, cookies, bodies
  (text, JSON, URL-encoded and multipart forms), requests and responses;
- `server/`: the request reader (a state machine fed with the bytes read),
  connections, routes and their matching, hosts and the decision taken for
  a request, static files, uploads, CGI, sessions and their middleware,
  errors and their responses, the server's tables and its timeout;
- `config.rs`: the checks made on the configuration, and which hosts are
  kept;
- `sites.rs`: the site registry of the command-line tool and the texts the
  programs show;
- `text.rs`, `bytes.rs`, `map.rs`: characters, byte strings and an ordered
  string map, with their specifications;
- `deps.rs`, `sys.rs`: the trusted wrappers around `httparse`,
  `serde_json`, `uuid`, `mime_guess` and the parts of `std` that vstd does
  not specify; each says in its doc comment what is assumed of it.

`app/` is the program around it: reading the configuration file, sockets
and epoll, the disk, running scripts, printing, and the command-line tool.
It hands the library what it read and acts on what the library decides.

Run `localhost` to serve (`--warn` also reports configuration warnings),
and `localhost cli <command>` for the site tool (`create`, `list`,
`config`, `clean`).
