# lenna_cli

The command line around the Lenna image processing library.

- `src/` is the verified library: how an output path and extension decide
  the name, path and format an image is written with (`output`, `cli`),
  packing encoded images into a zip archive (`archive`, through the `zip`
  crate), which entries of a directory are images (`discovery`), and which
  plugin libraries are loaded and accepted (`plugins`).
- `app/` is the program: argument parsing, reading and writing files,
  running the pipeline, and loading plugin libraries.
