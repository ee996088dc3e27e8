# snowlv

The decision logic of the SnowLV log viewer's user interface, written in Verus
and proved against its contracts.

- `src/` is the verified library:
  - `axis` — histogram axis sort order and pending axis-label edits;
  - `histogram` — the histogram configuration and the changes its controls
    make to it in one frame;
  - `session` — tabs, the chart's channel selection (at most ten channels,
    none twice), computed channels, analysis results, playback decisions and
    scatter-plot titles;
  - `analysis` — analyzer parameter tables, channel availability, channel
    parameter resolution and formula checks;
  - `formula` — the formula editor's state;
  - `text` — name-list parsing, label truncation, search filters;
  - `layout` — placement of peak labels in exported charts;
  - `raster`, `glyph` — drawing into exported RGBA images with the bitmap
    font;
  - `toast` — notification colors.
- `app/` holds what the library leaves to its caller: the floating-point
  computations of the chart, histogram and export views, and the glue that
  feeds the library's decisions from them.
- `tests/` exercises the library on concrete values.
