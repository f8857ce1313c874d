# ex_open_directory

Elixir bindings to macOS OpenDirectory (local accounts, LDAP, Active
Directory), as a Rustler NIF.

- `src/` is the verified library: the decisions the bindings make (which
  node and which queries, how options and replies are read).
  - `node`: which directory node a node-type argument names.
  - `connect`: the steps of a connection (check the node type, open the
    node, read the options, set the credentials), one event at a time.
  - `credentials`: reading the `username`/`password` options of a
    connection, and which credentials it sets.
  - `query`: the queries sent to the directory (user lookup, user search
    with its `match`/`limit` options, group listing).
  - `records`: reading the directory's replies (the user record, record
    names, group membership through the directory's membership check,
    attribute values, the password policy).
  - `expiry`: the days until a password expires, from its computed expiry
    time in Active Directory and the current time, or from the seconds left
    under the record's and node's password policies.
  - `outcome`: error texts and the reading of success flags.
- `app/lib.rs` is the NIF module: it decodes terms, makes the
  OpenDirectory calls the library plans, and encodes the answers.
- `tests/` exercises the library on concrete values.
