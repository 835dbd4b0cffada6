# houston

The logic behind the Houston Discord bot and its UnityFS reader, verified with Verus.

## Layout

- `src/calc/`: the calculator. `token` and `stream` split an expression into tokens,
  `grammar` states the expression grammar as spec functions, `parse` reads tokens into
  a postfix program (`read_expr`, `parse_text`), `program` proves that every parsed
  program leaves exactly one value, `precedence` proves that operators group by
  priority and to the left, `errors` proves that every parse error points into the
  text, and `message` builds the replies (`calc`, `describe_error`).
- `src/dice.rs`: dice notation (`2d6`, `1d20 2d4`), rolling and the roll report.
- `src/who.rs`, `src/discord.rs`: the texts of the user-info, quote and settings
  commands (flags, permissions, unique user names, quoted lines, message links).
- `src/buttons/`: the sentinel button.
- `src/azur/`: the Azur Lane search pages (`paging`) and the id and hull indexes of
  the loaded game data (`index`).
- `src/text/`: character and string helpers shared by the modules above.
- `src/unity/`: reading UnityFS archives (`unity_fs`, `compress`), the serialized
  files inside them (`serialized`, `type_tree`, `object`), typed objects read under
  their type trees (`class`, `classes`), and textures and meshes (`texture2d`, `mesh`,
  `resolve`, `streaming_info`).
- `tests/`: the tests.
- `app/main.rs`: a command-line front end: reads files, evaluates calculator programs
  in floating point, flips coins, and prints results.
