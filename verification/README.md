# hicom

A serial-port terminal (HiCOM): a window that opens a serial port, shows
what arrives as text and in hexadecimal, and sends text or hexadecimal
bytes with a chosen line ending, once or periodically.

- `src/` is the library, verified with Verus: the receive buffer shared
  with the port thread (`rx`), the text and hex renderings of received data
  (`rxlog`), the bytes a send puts on the wire (`payload`), the port list
  and its labels (`ports`), the settings (`config`), time stamps (`clock`),
  byte counts (`size`), the port thread's steps (`link`), and the terminal state with its decisions on open,
  close, send and save (`terminal`).
- `app/` is the program around it: the egui window, the port thread, the
  port enumeration and the log file.
- `tests/` runs the library against the behaviour it keeps.
