# projectpad

The logic of Projectpad, a store of projects, servers, notes and their
passwords, as a library whose functions carry contracts proved by Verus.

- `src/` — the verified library: notes (Markdown rendered to text and
  formatting spans, passwords hidden), the note editor's toggles, searches
  (parsing, bubbling results up to servers and projects, laying them out,
  keyboard and mouse handling), the export format of projects and its
  YAML post-processing, the rows that importing a project creates, the items of a project (grouping, header fields,
  moves, deletion checks) and the decisions of the dialogs.
- `tests/` — tests of the library on concrete values.
- `app/` — a small command line around the library: the configuration file,
  note previews, searches and the YAML form of exported servers. The
  graphical interface and the database are not part of it.
