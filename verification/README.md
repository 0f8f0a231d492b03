# monos

The logic of monOS, a hobby operating system, as a library verified with Verus: the
graphics and UI library, the kernel's file system, ACPI tables, interrupt controllers
and device decoders, and the monodoc parser.

## Layout

- `src/monos_gfx`: types, framebuffer drawing (pixels, rectangles, lines, boxes,
  images, other framebuffers, text), the Glean font, text layout and wrapping, the
  NetPBM image loaders, input state, the layout placer and the widgets (with their
  fixed-cell text layout), paint splashes.
- `src/monos_kernel`: the FAT16 file system on a ramdisk, paths and the file system
  tree, ACPI tables (RSDP, table headers, MADT, HPET), the GDT, the IDT and the APICs'
  register values, the PS/2 mouse decoder, keyboard decoding with its modifiers, the
  screen's pixel layout and the HPET.
- `src/monodoc`: the monodoc document grammar: sections, headings, tables, fenced code
  and script blocks, embeds and lines, each read by a function whose contract is the
  grammar written as spec functions on the text's characters.
- `app/`: what the library leaves out: port and memory-mapped I/O, interrupt handlers,
  boot-time setup, the UI state map (hashed, serialized) and the scrollbar's geometry,
  which is computed in floating point.
- `tests/`: the library's tests.

Each public function states in its contract what it returns or changes; the proof
functions state the library's laws (for example, that a selector's fields come back
out of its bits, that a read of the ramdisk gives back what a write wrote, that the
parts a path is split into rejoin to it, and that a line never reaches its end point).
