# java_class

Reading, writing and naming the parts of Java class files, with the behaviour of each
operation stated as a contract and proved with Verus.

## Layout

- `src/` — the verified library.
  - `reader.rs`, `bytes.rs`: a cursor over the bytes of a class file and big-endian numbers.
  - `cp_info.rs`, `cp.rs`, `cp_parse.rs`: constant pool entries, the pool, and its parser.
  - `attributes.rs`, `attr_spec.rs`, `attr_parse.rs`, `attr_lemmas.rs`, `grammar.rs`:
    attributes, the grammar of their bytes, and their parser.
  - `opcodes.rs`, `switch_layout.rs`, `bytecode_tools.rs`: instructions, and reading and
    writing them.
  - `class.rs`, `methods.rs`, `fields.rs`, `mutf8.rs`, `error.rs`: the class file as a whole,
    modified UTF-8 text, and the ways a file can be malformed.
  - `builders/`: a constant pool builder that hands out the index of an equal entry.
  - `names.rs`: class, field and method names and descriptors.
  - `runtime.rs`: what a virtual machine reads of classes while loading them (names through
    the pool, method descriptors, code, the queue of classes to load).
  - `class_graph.rs`: loaded classes as a graph, subtyping and method resolution.
  - `truncation.rs`: a class file cut short is refused.
  - `interp.rs`: one step of the interpreter on a method's frame (integers, longs, the
    operand stack, local variables, branches and returns); the rest is left to the host.
  - `heap.rs`: arrays on a heap of plain values and the instructions on them.
  - `code_layout.rs`: the byte offset of each instruction and where a branch lands.
  - `run.rs`: running a method's code step after step until it returns, throws or needs
    the host.
- `tests/` — tests on concrete values.
- `app/` — a command line program that loads a class and the classes it names from a class
  path of folders and jar files, prints their methods, links them and resolves `main`.

## Tables keyed by text

The constant pool builder's tables, the methods of a loaded class and the loader's lists
are kept as vectors of (key, value) pairs with a `Map` view, where a std `HashMap` keyed by
`String` could stand. With a `String` key, Verus accepts the `HashMap` calls but proves
nothing of them: after one `insert` into an empty map it cannot show that the map has one
entry, which it does show for an integer key. The vectors let every lookup be proved.
