# Digital crossover

A three-way stereo crossover for active loudspeakers. It reads stereo samples
and track metadata from two pipes, splits each channel into a low, a mid and a
high band, and plays the six bands on a six-channel device. A web interface and
a control panel in the terminal change gains, cuts and switches while it plays.

`src/` is the verified library: what the program decides, parses and moves.

| module      | what it holds                                                      |
|-------------|--------------------------------------------------------------------|
| `config`    | constants, the settings, the published state                       |
| `crossover` | filter sections and their history, the band split, the six outputs |
| `device`    | choice of the output device, its rate and its sample format        |
| `dsp`       | chunks, channels, spectrum windows, the steps of the audio thread  |
| `history`   | what holds of the crossover over many frames and settings          |
| `metadata`  | cutting and reading metadata items, the steps of the reader        |
| `ring`      | the ring buffer between the audio thread and the output            |
| `server`    | the spectrum stream to a client                                    |
| `text`      | search, trimming and replacement on strings                        |
| `tui`       | keys and commands of the control panel, server addresses           |
| `view`      | colours, texts, rows and the spectrum of the control panel         |

The library is generic in the type of samples and settings. Floating-point
arithmetic is handed in as functions, and contracts speak of what those
functions return.

`app/` is the program around the library: devices, pipes, network, terminal,
and the floating-point functions. `tests/` runs the library on concrete values.
