# pcp_rust

A Linux controller for the PCPanel Pro USB audio mixer. Knobs and sliders set
the volume of the system, the microphone and single applications; buttons mute
them or drive OBS Studio; the LEDs show what OBS and the microphone are doing.

The decisions are in a library that is verified with Verus. The program around
it does the input and output.

## Layout

- `src/` is the verified library.
  - `config`, `settings`, `mappings`: the configuration file.
  - `device`, `led`, `single`, `paint`: the reports of the panel and its LEDs.
  - `obs`, `session`, `runtime`: the session with OBS and the state that the
    LEDs follow.
  - `audio`, `persist`, `wait`, `poller`, `backoff`: streams, volumes and the
    connection to PulseAudio.
  - `panel`, `icons`, `osd`, `display`: what an event of the panel leads to.
  - `controller`, `rounds`: the main loop and what holds of it.
  - `service`, `startup`: installation and the command line.
  - `text`, `search`, `table`, `clock`: what the others share.
- `app/` is the program: HID, PulseAudio, D-Bus, OBS and files.
- `tests/` runs the library.

## How the library and the program fit together

Where work alternates with decisions, the library holds a state machine. It
says what it wants next (`Controller::demand`, `Session::request`,
`IconSearch::question`), the program does it and hands back what happened, and
the machine moves on. Contracts describe every move over mathematical models of
the state. Public proof functions named `law_...` state what holds of several
moves, of every state, or of every input.
