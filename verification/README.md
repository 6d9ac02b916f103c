# rekordcrate

Rekordbox export data in memory, verified with Verus: analysis files are read from and
written to bytes; DeviceSQL databases are modelled at the level of pages and tables.

- `src/anlz`: analysis files (`ANLZ*.DAT`, `.EXT`, `.2EX`): sections, their byte layout, and
  building new files. Reading the bytes of a well-formed file gives it back.
- `src/pdb`: the page structure of DeviceSQL databases (`export.pdb`) held in memory:
  creating a database, adding rows (kept as encoded bytes), walking table chains, and the
  structural checks. A created database passes the checks, and adding rows keeps it passing
  them. The byte format of database pages is not covered: nothing here reads or writes a
  `.pdb` file.
- `src/waveform`: the waveform plots of analysis files, their colors and their placement in a
  document.
- `src/device_library_plus`: the records and codes of the Device Library Plus database.
- `src/codec.rs`, `src/wide.rs`, `src/util.rs`: big-endian encodings, UTF-16 strings, shared
  codes.
- `app/`: reading and writing analysis files, drawing waveforms as SVG, the Device Library
  Plus tables mapped with diesel, error messages.
