# ddagrab_proxy

A proxy that keeps FFmpeg's `ddagrab` filter (Windows Desktop Duplication) capturing across UAC
prompts and other secure desktops, with the tools for trying it out.

- `src/` is the library. Everything in it is verified with Verus: the stand-in for a duplication
  instance and its recovery, the chain of hooks, the forwarding of a library's exports, BGRA to
  I420 conversion, cursor drawing, command lines, and the rules of the tools' loops. What holds of
  the library as a whole is stated in the public proof functions whose names begin with `law_`.
- `app/` is the ordinary Rust around it: COM objects, memory protection, files, sockets and
  command lines. Most of it needs Windows.
- `tests/` runs the library on concrete values.

What is trusted rather than proved stands behind functions marked `external_body`, and behind
`assume_specification`: the parallel walk over the rows of a frame (`rayon`), the reading of export
tables (`pelite`), the writing of PNG files (`png`), and three functions of the standard library.
