# rapidraw-cli

A headless renderer for raw photos: it applies a preset to a picture and saves the
result, once per call or as a server that takes one JSON job per line.

- `src/` is the verified library. It decides everything that can be decided without
  touching a file, a stream or the graphics processor: what the command line asks for,
  which step of a rendering comes next and what a failure does to it, what format a
  path asks for and how the picture is encoded, what the report says, and how the
  server answers. Its contracts and laws are checked by Verus.
- `app/` is the program around it: it reads and writes, drives the graphics processor
  through `rapidraw_lib`, and hands the library what came of each step.
- `tests/` runs the library, with the crates it calls, on concrete values.

The quality governs JPEG. PNG, TIFF and WebP are written without loss: the encoder at
hand knows lossless WebP only, whatever the usage text says of its quality.

| module | what it holds |
| --- | --- |
| `args`, `args_laws` | the flags and the usage text |
| `course` | what the program does with its command line, and its exit code |
| `pipeline`, `pipeline_laws` | the steps of one rendering |
| `masks`, `preset` | what a rendering reads of a preset |
| `picture`, `output` | bringing a picture down to size and encoding it |
| `timing` | elapsed times and the report |
| `server`, `server_laws`, `json` | the job server and its answers |
| `numbers`, `text` | decimal numbers and aligned columns |
