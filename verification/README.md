# crmonitor

A tray monitor for processor, memory, disk and network, with an overlay window and a serial output.

- `src/` is the library: the rules of the monitor, verified with Verus.
- `app/` is the program: it reads the system, computes with floating point, and drives the tray,
  the overlay window and the serial port.
- `tests/` runs the library on concrete values.

| module     | what it holds                                                        |
|------------|----------------------------------------------------------------------|
| `reading`  | double-precision numbers by their bits, and their order              |
| `text`     | trimming, splitting, reading and writing of numbers                  |
| `counters` | traffic counters of interfaces and disks                             |
| `rolling`  | the fading maximum that a throughput is measured against             |
| `monitor`  | the rounds of measurement                                            |
| `metrics`  | what a round found, and the tooltips                                 |
| `ramp`     | the colours of the bars                                              |
| `canvas`   | the pixel buffer, which an `image::ImageBuffer` holds                |
| `icon`     | the tray icon                                                        |
| `update`   | what the tray is told after a round                                  |
| `speed`    | units and decimals of a throughput                                   |
| `overlay`  | the overlay window                                                   |
| `panel`    | the tray menu                                                        |
| `serial`   | the serial line                                                      |
| `profile`  | the connected network                                                |

The environment variable `CRTM_ICON_SIZE` sets the side of the icon, `CRTM_SERIAL_PORT` the serial
port to start with.
