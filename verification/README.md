# symbol_indexer

Indexes source files: finds the symbols that a file defines, keeps them file by file, and adds a
definition for each to a stack graph. What was indexed is written as JSON or as a DOT graph.

- `src/` is the library. It is verified with Verus: every function states in its contract what it
  returns or changes.
  - `text`, `comments`, `syntax`: rules on text, on the comments above a declaration, and on the
    syntax around a name.
  - `symbols`, `graph`: the symbols of each file, and the stack graph.
  - `languages`, `parsing`: what is looked for in each language, and the search of a syntax tree.
  - `indexer`, `walk`, `output`: indexing a file, walking a directory, and writing the result.
- `tests/` runs the library together with the parsers, the stack graph and the JSON writer.
- `app/` reads files and directories, writes the output and logs.

Outside crates are called through small functions marked `external_body`. Their contracts are not
proved; each says in its comment which function of the crate it calls.
