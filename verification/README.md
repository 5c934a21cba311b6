# scrollshot

A scrolling screenshot tool for Wayland (wlroots-based compositors), with its logic verified by
Verus. Select a region, and it scrolls and captures the content into a single tall PNG.

- `src/` is the library: everything that is decided or computed, with contracts and proofs.
  - `frame`: frames, stored by the `image` crate
  - `stitch`, `stitch_laws`: scroll detection by voting, seams, and stitching
  - `screencopy`: conversion and comparison of captured frames
  - `capture_loop`: which frames are kept, and when a capture ends
  - `capture_state`: the state of a screen copy, and the requests that scroll
  - `overlay`, `overlay_laws`: the pixels of the selection overlay
  - `selector`: the region selection
  - `cli`: options and file names
  - `loader`: loading frames from a directory
  - `extremum`: first minima and maxima
- `app/` is the program around it: the command line, files, and the Wayland connection.
- `tests/` runs the library.

The proof functions whose names begin with `law_` state what holds of the library as a whole, such
as that windows of one page are stitched to that page again, that a capture always ends, and that
repainting the overlay leaves nothing behind.
