# aldis

`aldis` updates the firmware of Klipper MCUs. It reads each MCU's embedded
configuration from Moonraker, builds firmware from the local Klipper checkout,
and flashes it through the bootloader that the board itself shows: Katapult
over USB serial or CAN, STM32 ROM DFU, or PicoBoot. The Linux host MCU is
installed instead of flashed.

The rules of the tool live in a library that is verified with
[Verus](https://github.com/verus-lang/verus): what may be updated, when Klipper
may be stopped, which bytes go to a bootloader, and what counts as success.

## Layout

- `src/` is the verified library. Every public function has a contract; the
  functions named `law_...` state what holds across several of them.
- `tests/` runs the library on concrete values.
- `app/` is the program around it: arguments, files, processes, HTTP, serial
  ports, CAN sockets and USB.

## How the library talks to the host

The library performs no input or output. Work that alternates with the host is
a run: a value with a stage that says which operation it waits for, and a
`step` that takes the operation's outcome and gives the next value. An outcome
that does not answer the pending operation changes nothing. Commands, serial
ports, CAN buses and Moonraker are traits whose contracts record every use, so
that a contract can say what was sent and in which order.

Errors of the host arrive as an `IoFailure`, which holds their wording.

## Modules

| Module | What it decides |
| --- | --- |
| `eligibility` | which MCUs may be updated, and whether their firmware is current |
| `moonraker`, `discovery` | the MCU inventory, and how long to wait for it |
| `checkout` | the revision of the Klipper checkout and its fast-forward |
| `prepare`, `workspace`, `plan` | what is built for a target, and where it goes |
| `builder` | the steps of one firmware build |
| `service`, `coordinator` | stopping, starting and restoring Klipper around builds and flashes |
| `flash` | the bootloaders: Katapult, STM32 DFU, PicoBoot, BOSSA, the Linux host MCU |
| `update`, `flash_command`, `reboot`, `setup`, `self_update`, `status` | the commands |
| `ui`, `logging`, `run_log`, `progress` | what is shown and recorded |
| `text`, `bytes`, `by_name`, `paths`, `kconfig`, `retry`, `failure` | shared primitives |

## What is trusted

A few functions of the standard library and the SHA-1 digest are called through
wrappers whose contracts are not proved: `String::push`, quoting with `{:?}`,
`String::from_utf8_lossy`, `str::from_utf8`, `Path::parent` and
`sha1::Sha1::digest`. Each wrapper says what it claims. One more renders a
transport's own error with `{:?}` and claims nothing of the text.

`setup` reads the udev rules that it installs from `templates/80-aldis.rules`
beside the executable.
