# mchose

Battery and controls of the MCHOSE V9 PRO headset on Linux, as a library
whose behaviour is stated in Verus contracts and proved, plus the binary
that does the I/O around it.

## Layout

- `src/` — the verified library (crate `mchose`):
  - `request`, `battery`, `firmware`, `device`: the HID protocol — the two
    closed queries, the decoders of the battery and firmware answers, and
    the identification rule (VID/PID plus name, `V9 PRO 2` excluded).
  - `discovery`: reading sysfs `uevent` and `dev` texts and choosing the
    device among the hidraw entries.
  - `machine`: the device events and the decisions of a session, from its
    opening (the two firmware queries, `Connected`, one battery query) to its
    end, with a law over the whole trace of a session.
  - `hotplug`: the decisions of a search for the device (warnings once,
    `rdev` check).
  - `transport`: the hidraw feature ioctl numbers and a scripted transport.
  - `state`: what the applet shows for each event.
  - `config`, `install`, `pipewire`: the equalizer's checks, the file-ownership
    rule, the search for the headset's sink in the `pw-dump` text and for the
    equalizer's node (and which of its controls are gains), and the `pw-cli`
    argv.
  - `texto`: parsing and rendering helpers (trim, hexadecimal and decimal
    numbers, byte search, lexicographic order).
- `tests/` — tests on bytes captured from the hardware and on scripted
  sessions.
- `app/` — the COSMIC applet: hidraw and udev I/O, the async loops that feed
  the library's state machines, PipeWire processes and the floating-point
  equalizer text.
