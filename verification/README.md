# sysdemo

Small systems-programming pieces with proved contracts:

- `text`: character-level splitting, lines, trimming and `u32` parsing with
  the semantics of the standard library's `str` methods.
- `penguins`: reading a comma-separated table of names and lengths.
- `hexdump`: sixteen-bytes-per-line hex dumps.
- `grep`: keeping the lines in which a regular expression matches.
- `http`: URL handling, the GET request, ephemeral ports and the socket
  state machine of a minimal HTTP/1.0 client.
- `ntp`: NTP messages, timestamp fields, offset and delay.
- `clock`: output formats, operating-system time fields, clock adjustment.
- `channels`, `greeting`, `needles`, `satellites`, `file_*`,
  `not_quite_file`: the smaller programs' logic.

`app/` holds the programs themselves: command lines, files, sockets,
system calls and floating-point work.
