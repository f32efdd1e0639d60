# my_vm_compiler

A compiler for the CVM language, a small C-like language with structs, arrays,
pointers, inline assembly and interrupt handlers, targeting the CVM virtual
machine. A program goes from its parse tree to an intermediate representation
(IR), through the optimizer, and on to assembly. The library is written in
Verus: every function carries a contract, and Verus proves the code meets it.

## Layout

- `src/tree.rs`: the parse tree the generator walks.
- `src/context.rs`: symbol tables, register and label counters.
- `src/generator/`: the IR generator. `semantics.rs` states, as specification
  functions, what generating each kind of node does; the other files hold the
  executable visitors, each proved equal to its specification.
- `src/ir.rs`: the IR and its text dump.
- `src/optimizer.rs`: the optimizer (currently the identity).
- `src/codegen.rs`: assembly generation with stack-slot allocation for virtual
  registers.
- `src/preprocess.rs`: finding and splicing `import "file";` statements.
- `src/text.rs`, `src/name_map.rs`: string helpers and a small map keyed by name.
- `src/lib.rs`: `compile_source`, the whole pipeline from tree to IR dump and
  assembly, and `compile_with_warnings`, which also returns the warnings given
  for undeclared names and for functions used as values.
- `app/`: the command-line program: reading files, the pest grammar, turning
  its parse into the library's tree, and writing the outputs.
- `tests/`: tests of the library on concrete inputs.

## Usage

```
my_vm_compiler <input.cvm> <output.asm>
```

writes the assembly to `output.asm` and the IR dump next to the input, with
the extension `.ir`.
