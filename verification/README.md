# cheese

An external toolkit for a game process: it finds game structures by byte signatures, reads and
writes their fields, installs inline hooks, and drives a small in-game cheat menu.

The library (`src/`) is verified with Verus; the program around it (`app/`) does the Windows
calls and hands the library plain values.

- `mem::signatures` — parsing of human-written signatures (`"48 8B 05 ?? ?? ?? ??"`) and the
  wildcard search in a memory region.
- `mem::scan`, `mem::offsets` — the region-by-region signature scan and the walk through a
  signature's offsets, as step functions: each step says which query or read the caller makes
  next, and the caller hands back the answer.
- `mem::hook` — the length of the code a hook overwrites (through capstone), the bytes of the
  absolute jump and of the trampoline.
- `classes` — field offsets of the game's classes, address arithmetic, the control flags, the
  wanted-level table and the ammunition repository walks.
- `features` — wanted-level steps and the version strings.
- `gui` — the menus and the menu state machine (selection, switches, redirects, the END key).

`app/` holds the process access (`ReadProcessMemory`, `VirtualQueryEx`, ...), the hooks'
memory protection, the main loop and the library entry points of the injected build.
