# ddpm

Monitor control over DDC/CI: brightness, contrast and input source of every attached monitor,
in one window.

`src/` is the verified library. It decides; it touches neither a display nor the window.

| module | what it holds |
| --- | --- |
| `text` | numbers as text, and reading a decimal number back |
| `device` | device numbers of i2c adapters and the paths of their nodes |
| `vcp` | VCP features and the bytes of a monitor's reply |
| `inputs` | input sources and their names |
| `transfer` | single transactions: outcomes, retries, advertised inputs |
| `monitor_read` | reading the three values of a monitor |
| `control` | one slider: what it shows and when it sends |
| `monitor`, `monitor_laws` | what is known of a monitor, and what always holds of it |
| `message` | commands and messages, and collapsing a burst of commands |
| `worker`, `worker_laws` | the thread that owns the displays, as a state machine |
| `session` | the state of the user interface |

`app/` is the program around it: the window (egui), the worker thread, and the DDC/CI calls
(ddc-hi). It performs the actions that the worker machine asks for and feeds back what came of
them.

Of ddc-hi only the parts without a system library are switched on in `Cargo.toml`. To reach
monitors on Linux, build with its `ddc-i2c` feature, which needs libudev.
