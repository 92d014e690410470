# rgbpc

A terminal front end for OpenRGB that keeps PC lighting in step with the Omarchy
theme, remembers the lighting of each device, and restores it at login.

The library in `src/` holds the decisions, each proved against its contract with
Verus:

- `text`, `theme`: character-level text handling and reading the theme colour out
  of `colors.toml`.
- `collections`, `config`: the settings, with sets and maps of text keys.
- `openrgb`, `apply`, `listing`: device keys, the order of colour strategies, the
  `openrgb` command lines each strategy runs, and reading `openrgb --list-devices`.
- `flow`, `devices`, `sync`, `restore`: colouring groups of devices, theme sync and
  startup restore, written as functions from the replies received so far to the next
  request or the result.
- `summary`: what came of an action on a group of devices.
- `hook`: the theme hook script and the login autostart entry, as lists of file
  changes.
- `ui`: the device manager screen as a state machine from keys, clicks and finished
  background work to the next state and the effect to perform.
- `picker`: the colour picker's palette, its cells and hit testing, the box that
  ratatui's layout places, and reading hexadecimal colours.

`app/` is the program around it: the command line, running `openrgb`, reading and
writing files, the settings file, threads, and drawing the screen with ratatui.

Rainbow mode is set with `openrgb -d <id> -m rainbow` (`apply::rainbow_command`);
a device on which that command fails is reported as `<name>: openrgb could not set
rainbow mode` (`apply::rainbow_result`).
