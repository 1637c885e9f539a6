# knowledge_os

A knowledge import library: it reads documents of many formats (office
documents, spreadsheets, presentations, PDF, e-mail, calendars, contacts,
note exports, web pages, structured data, images) into entities with
components and cross-references, and keeps the registry of importer
plugins, the import history and ignore rules; it also builds what the
store answers and writes from the rows it reads (conversations with their
citations, traversal edges, the statements that undo a merge).

The library in `src/` is written in Verus: every function states what it
returns in its contract and is proved against it. Where a result comes from
another crate (XML, ZIP, PDF, workbook, HTML, CSV, JSON and YAML readers,
hashing, UUIDs, the clock), a small trusted wrapper makes the call and
states what the library relies on, and the logic around it is verified.

`app/` holds what cannot be verified: reading files, walking and watching
directories, fetching URLs, loading plugin libraries, timeouts, and the
floating-point similarity scores of entity resolution.

`tests/` runs the library on concrete inputs.
