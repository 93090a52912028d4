# Aperture

The decision logic of an image viewer for Windows, written in Rust and verified with
Verus, and the program around it.

- `src/` is the library. It holds what the viewer decides: which files of a folder are
  images and in what order, where navigation goes, which decodes are started and which
  image is shown, what is cached and for how long, how keys, clicks and menus are
  answered, how the window is laid out, and what is remembered between runs. Listings,
  clock readings and decoded sizes come in as arguments; what is to be done next goes
  out as data. Every function has a contract, and the laws that span functions stand
  beside them as public proof functions.
- `tests/` runs the library on concrete values.
- `app/` is the program: files, the database of thumbnails, decoding threads, drawing
  with egui and wgpu, and the window. Zoom, pan and animations are floating-point
  arithmetic and live there too. The window itself, the system's codecs and its menus
  are reached through the crates `winit`, `windows` and `rfd`. That part is compiled on
  Windows only, and a build there adds the three crates to `Cargo.toml`.

The one outside crate that the library calls is `lru`, which holds the thumbnails kept
in memory; `src/cache.rs` states what is trusted of it.
