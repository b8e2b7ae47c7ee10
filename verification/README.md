# impact-map-cli

Impact maps as code: goals, metrics, actors, impacts and deliverables are
written in KDL, read into a data model, and rendered as Graphviz DOT graphs
with colour-coded HTML-like labels.

- `src/` is the library, verified with Verus:
  - `models.rs`: the impact-map data model and its mathematical views;
  - `kdl_doc.rs`: a KDL document as a plain node tree, read by the `kdl` crate;
  - `parser.rs`: reading goals from that tree, and when a document can be read;
  - `graphviz.rs`: the DOT rendering of a goal, with HTML escaping of labels;
  - `text.rs`: replacement, decimal rendering and comparison of text;
  - `cli.rs`: goal selection and output file names of the command-line tool.
- `app/main.rs` is the `ipmc` command: argument parsing, file I/O, running
  Graphviz's `dot` and opening the result.
- `tests/` holds the tests of the library.
