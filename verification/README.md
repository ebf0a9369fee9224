# kmrp

A keyboard and mouse macro recorder and player for Linux input devices, with a
terminal dashboard.

- `src/` is the verified library: the recorded-event model and its filters
  (`event`), stable ordering by time (`order`), key code tables (`keys`),
  playback preparation and pacing (`playback`), macro storage paths and
  listings (`storage`), macro statistics (`analysis`), the dashboard's state
  machine (`tui`), terminal text layout (`ui`) and integer text conversion
  (`text`).
- `app/` is the program around it: command-line arguments, JSON files,
  input devices, the terminal and the dashboard loop.
- `tests/` exercises the library on concrete inputs.
