# hubtain

Simple local file transfers. A server announces itself on the local network; a client finds it by a
broadcast, connects and downloads one file, encrypted unless told otherwise.

* `src/` is the verified library: the wire formats (`wire`, `codec`, `models`), the Noise streams of
  the program (`encrypted_stream`), streams of sealed packets (`sealed_stream`),
  discovery and downloads (`client`, `file_download`, `broadcast_addr_picker`, `igd`), the server's set-up and its
  reactions to events (`server`), and the state of the terminal interface (`server::tui`). Verus
  proves each function against its contract. The laws that relate several functions are the public
  proof functions whose names begin with `law_`.
* What the library believes of other crates, without proof, stands in `codec` (bincode), `crypto` (ring and
  x25519-dalek), `encrypted_stream::noise` (snow), `models` (mnemonic and std's hasher) and `mnemonic`
  (rand), next to the contracts that say what is believed.
* `tests/` runs the library against those crates.
* `app/` is the program: sockets, files, processes, the terminal.

The server takes its name from `dat/nounlist.txt`, one word to a line, in the directory in which it
is started.
