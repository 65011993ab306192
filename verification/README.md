# katazome

Generates color theme files for terminals, editors and other tools from a
theme directory (`theme.toml` plus one file per variant) or from the
Night/Dawn palette pair.

The library under `src/` is verified with Verus. It holds the theme model
and its rules:

- `color`: `#RRGGBB` parsing and printing;
- `expr`: color expressions (`colors.lantern.mid`, `lighten(base.background, 0.1)`,
  `mix(a, b, 0.5)`) and their parser;
- `resolve`: how references resolve, in stages (normal ANSI slots, bright
  slots, then roles or palette sections), for theme variants and palettes;
- `theme`, `palette`, `ansi`: ids, metadata, role structs, `[colors]` flattening;
- `generator`, `tools`, `terminal`, `names`: which route renders a tool, the
  adapter-key check, template and output names, Terminal profile keys.

The program under `app/` reads TOML files, evaluates the floating-point color
functions on the resolved expressions, renders templates with tera, writes
property lists, and writes the generated files.
