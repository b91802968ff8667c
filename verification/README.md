# voidsnap

A screenshot tool for Wayland: an overlay on which a region is dragged out or
nudged with the keyboard, a PNG file, and the clipboard.

`src/` is a library in which everything is verified with Verus. It holds what the
tool decides and computes:

| Module | Content |
|---|---|
| `color` | packed colours and blending |
| `text`, `raster` | decimal and hexadecimal text; rows and columns of a buffer |
| `font`, `hud` | the bitmap font and the size label |
| `selection` | the dragged rectangle |
| `overlay` | the overlay's state, its picture, what of it to show anew |
| `wayland` | the application's state and what each event does to it |
| `capture` | the steps of a screen capture |
| `pixels` | captured pixel formats, and cutting a region out of a frame |
| `config` | defaults, paths, colours and opacities |
| `snapshot` | what is saved, PNG encoding, file names |

Besides the contract of each function, proof functions whose names start with
`law_` state what holds across functions: that what is seen is what is saved, that
a capture ends, that an arrow key is undone by the opposite one.

Two things are taken on trust, each behind one small function in `snapshot`: the
PNG encoder of the `image` crate and the date formatting of `chrono`.

`app/` is the program around the library: the connection to the compositor, shared
memory, the configuration file, the clock, the clipboard, and the two animations,
which are floating point.

Pointer positions are kept in 1/256 of a pixel, the unit of the Wayland protocol,
opacities as the bits of a double, and paths as the bytes of a Unix path.
