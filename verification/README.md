# dbcc

Generates Rust code that decodes CAN frames, from the description of a CAN database (DBC).

`src/` is the generator, written in Verus: each function states the tokens that it writes, and on
which databases it can write them. `src/laws.rs` states what holds of the generated code as a whole,
such as that the fields a message declares are those that its decoder fills in. `src/checked.rs` has
the same functions for any input; they give `None` where no code can be written, for instance because
a name does not convert to an identifier.

`app/` takes a database as `can_dbc` parses it, and logs a warning for each signal that is skipped and
each text that a type name does not keep as it is.

Numbers of the database (factors, offsets, described values) reach the generator as the bits of a
double; a factor and an offset come with their text as a Rust literal.
