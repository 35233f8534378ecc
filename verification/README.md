# gpux (verified core)

gpux brings a React-like way of writing GPUI views: JSX-style markup with
Tailwind utility classes, and hooks (`use_state`, `use_effect`, `use_memo`)
kept in a per-component arena.

`src/` is the verified library:

- `hooks` — the positional hooks arena (state, effect and memo slots) and the
  form helper;
- `components` — the text-input editing model, icons (SVG documents and their
  virtual paths), images, selectable text;
- `system` — the global text selection (drag, reading-order range, copied
  text, highlights) and the asset registry behind virtual asset paths;
- `tailwind`, `markup` — the class compiler and the lowering of `view!`
  markup elements (id, classes, attributes, children, animations) into
  builder-chain steps;
- `router` — the current route;
- `text`, `numbers` — character and number helpers.

`app/` connects the library to GPUI: elements, input handlers, globals,
file dialogs and image loading.
