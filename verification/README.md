# Bad North save modifier

A save editor for the game *Bad North*: it reads a save decoded into JSON, shows
the recruited heroes and the inventory, and edits them (hero coins, helmet hue,
crown, class, item, trait and skill upgrades, the coin bank, the grail and the
other inventory items), with a settings file, two languages and a mod plugin scan.

## Layout

- `src/` is the library, written in Verus and verified: the JSON document model
  (`json`), reading records and heroes (`save_model`, `save_read`, `hero`),
  editing heroes and their upgrades (`hero_edit`, `upgrade_edit`, `hero_grail`),
  the inventory and its counts (`inventory`, `inventory_edit`, `item_counts`,
  `item_shortcuts`, `inventory_replace`, `bank`), settings and plugins
  (`settings`), texts (`i18n`), theme detection (`theme`) and the upgrade
  dictionaries (`upgrade_dictionary`).
- The laws of the library are proof functions: `laws` (round trips of the hero
  and coin bank edits, the inventory capacity), `inventory_laws` and
  `count_laws` (what adding, removing and setting counts does to the counts),
  `upgrade_laws` (a changed or cleared upgrade and a class's skill read back),
  with the facts they rest on in `inventory_doc` and `search`.
- `app/` is the program around it: the window, file dialogs, reading and writing
  save files and the settings file, and the conversion between `serde_json`
  values and the library's `Json`.
- `tests/` runs the library on small saves.
