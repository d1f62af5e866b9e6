# wallust

wallust generates a terminal colour scheme from an image.

## Layout

- `src/` is the verified library (Verus). It holds the parts of the program
  that decide and compute on plain values:
  - `cache`: the FNV-1a hash and base-36 names of the cache files, what is
    cached, and the JSON text of the cached backend bytes (through
    `serde_json`);
  - `backends`: the image backends that decode and resize an image (through
    `image` and `fast_image_resize`), with the arithmetic of their sizes;
  - `wal`: the ImageMagick arguments and the parser of its `txt:` output;
  - `colorspaces`: colour space settings, the histogram of colours (gathering
    and blending, sorting by integer keys and merging runs of alike colours, ordering by count, clipping,
    completing with generated colours), where the salience space keeps its
    background entry, and the dynamic threshold search;
  - `config`, `args`: where the configuration lives, its defaults, how the
    command line overrides it, and how it is shown;
  - `migrate`, `toml_doc`: `wallust migrate`, which edits the TOML document
    through `toml_edit`;
  - `terminal_seq`: which escape sequences make up each part of a scheme and
    how the parts are put together;
  - `lib.rs`: the plan that fills a scheme from what is cached, and what
    follows each of its steps.
- `app/` is the program around it: the command line (`clap`), files and
  processes, the terminal, and the floating point colour work (`palette`,
  `kmeans_colors`), which calls into the library.
- `tests/` exercises the library on concrete values.
