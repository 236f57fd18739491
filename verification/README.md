# remi_client_sdk

The local half of the Remi client, verified with Verus: the store of conversations, triggers,
notifications and documents, the documents of collections and things, the virtual file tree over
them, the search, and the rules by which triggers fire.

- `src/` is the library. Its functions have contracts, stated over character sequences, JSON
  trees and sequences of rows; only the two that convert JSON values from and to those of
  serde_json promise nothing by themselves. No table of the store holds a key twice:
  `Storage::well_formed` says so, and every statement keeps it. Laws that relate several
  functions are public proof functions whose names begin with `law_`. Calls into other crates
  stand behind small trusted functions, each with a comment that says what is believed of it.
- `tests/` runs the library on concrete values.
- `app/` is what surrounds the library: the SQLite file, the index on disk with the thread that
  writes to it, crash reports, and the drivers for the servers and for writes to documents.

Where the clock, a random id or a server decides, a function comes twice: one that takes the
outcome as an argument and states its result exactly, and one that asks for it.
