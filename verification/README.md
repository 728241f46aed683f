# macprot2fans

A fan control daemon for the Mac Pro 2019 and similar T2-based Macs under Linux. It follows the
temperatures of the machine's sensors, drives each fan along a curve, keeps the fans at a safe
speed while expected sensor drivers are missing, and helps to write its configuration.

## Layout

- `src/` is the library. Its behaviour is stated in contracts, and Verus proves them.
  - `config`: the configuration, the command line, the template of the configuration file, and
    what each fan gets of the configuration.
  - `sensor`: finding and reading sensors, and degraded mode.
  - `fan`: finding fans, and the commands to a fan.
  - `daemon`: the temperature that a fan follows, the loop, how the daemon starts and ends, and
    the listings.
  - `wizard`: the questions, the answers, and the configuration as TOML and for NixOS.
  - `path`, `order`, `text`, `error`: what the others are built on.
- `app/` is the program around it: files, signals, the terminal, and floating point.
- `tests/` runs the library on concrete values.

Functions named `law_..` are proofs of what holds of several functions together, such as that a
daemon that ends has given back every fan that it took over.

The library does no input or output. Files are handed to it by their contents, an open file by a
type parameter `H`, and the time in nanoseconds. A rate is held as its decimal notation. What
alternates with the outside world (`daemon::cycle`, `daemon::lifecycle`, `wizard`) says what to do
next and takes what came of it.

The one thing taken on trust is `std::str::from_utf8`, in `path`.
