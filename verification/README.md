# crux_cli

The verified core of the code generator's type graph, and the commands that
a Crux core sends to its shell.

- `src/model.rs`: the parts of rustdoc's JSON that the graph reads, with a
  mathematical view of each type.
- `src/item.rs`: the fields, variants, impls and associated items of one item.
- `src/node.rs`: graph nodes (`ItemNode`, `SummaryNode`, `CrateNode`, `Node`),
  their identifiers and edges, and the questions the generator asks of them.
- `src/pattern.rs`: regular-expression matching on attributes, done by
  `lazy_regex`.
- `src/request.rs`, `src/builder.rs`, `src/command.rs`: requests to the shell,
  builders that chain them, and commands that turn answers into events.
- `src/laws.rs`: properties that span several functions, proved for all
  inputs.
- `app/`: reading `rustdoc_types` values into the model, and serde forms of
  the graph.
