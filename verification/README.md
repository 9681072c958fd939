# ps2-filetypes

Verified reading and writing of PlayStation 2 save-data files, and the
decisions of the `psu-packer` command-line tool that packs a directory of
files into a PSU archive.

- `src/icon_sys.rs`: the `icon.sys` descriptor (layout table in the module
  documentation), its parser and serializer, and the title helpers.
- `src/psu.rs`: the PSU archive model (entries, default directory entries,
  file entries) and its textual listing.
- `src/packer.rs`: output file names and configuration time stamps.
- `src/bytes.rs`, `src/text.rs`: little-endian integers, zero padding,
  NUL-terminated and Shift-JIS text, padded columns.
- `src/laws.rs`: proofs that reading gives back what writing wrote.
- `app/`: the command-line tool (argument parsing, file system, clock).

Calls into `byteorder`, `encoding_rs`, `chrono` and std that Verus cannot
see are wrapped in small trusted functions whose contracts say what the
documentation of those functions promises.
