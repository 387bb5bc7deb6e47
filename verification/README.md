# violet

The decision logic of a retained-mode GUI library, verified with Verus.

`src/` is the verified library:

- `unit`, `layout`, `style`, `widget`, `container`, `basic`, `controls`: the widget descriptions
  and their builders (units, stack and flow layouts, named style colors and spacings, stacks,
  lists, texts, buttons, checkboxes, radios, collapsibles, tooltips, scroll areas).
- `interactive`: the state machines of interactive widgets — click and double click, hover and
  tooltips, dragging, checkbox and radio presses, slider presses, collapsible headers.
- `input`, `text`: the keyboard and mouse handling of text inputs, the rows that an edit touches,
  the selection on laid out glyphs, the layout of glyph runs, and joining lines.
- `overlay`: the ids and mounted entities of overlays, kept in slot maps.
- `utils`: the poll decisions of the `ZipLatest` and `Throttle` stream combinators.
- `tweens`: the list of running tweens.
- `render`: draw command batching and chunking, object buffer sizing, glyph quad indices, the
  breadth first drawing order, computed visibility, glyph mask blitting and color images.
- `color`, `export`, `editor`: hex colors, and the palette export formats.
- `palettes`: adding palettes to the editor and sorting them by a key.
- `indicators`, `dirty`: the fading layout indicators and the set of widgets to redraw.

`app/` holds what runs around the library: stream polling, clocks, overlay command handling,
floating point geometry, color shading and serialization of the exports.
