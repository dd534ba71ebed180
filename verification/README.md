# luatools

The verified core of a LuatOS firmware flashing tool for Beken (BK7258 /
Air8101) and EC618 / EC718 (Air780E / Air780EP) modules.

- `src/` — the library, verified with Verus:
  - `text` — splitting, trimming, substring search, decimal and hex text,
    number parsing as `str::parse` does it.
  - `serial` — serial-port metadata and `SerialBuffer`, a bounded byte buffer
    that keeps the newest bytes; `serial::log` reassembles log lines from
    chunked serial input and decides what a log session reports.
  - `boot` — boot-log capture and the boot-keyword verdict.
  - `cli` — the command line of the `bk-cli` tool.
  - `flash` — the flasher backends, the firmware package (`.soc`) and the
    flashing job that drives extraction, the download tool and the capture.
  - `luadb` — the LuaDB image packer.
- `app/` — the `bk-cli` program: serial ports, files, archives, processes and
  the console, driven by the library's decisions.
- `tests/` — tests of the library.
