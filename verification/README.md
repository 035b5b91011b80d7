# rofi_bluetooth

A bluetooth menu for rofi, driven by `bluetoothctl`, with its logic verified by Verus.

- `src/` is the library. Each operation (a toggle, a query, a menu, the device list) is
  a plan: a `Step` names the next shell command and the stage that reads its output.
  The contracts state which commands run for every output, what is read back, and which
  menu entries are shown and how each is handled.
  - `text`: splitting and joining text, and the lossy decoding of command output.
  - `bluetooth`: commands, stages and the plans shared by the operations.
  - `bluetooth::controller`, `bluetooth::device`: the controller and device operations.
  - `ui::rofi`: what the menus' answers lead to.
  - the crate root: the earlier form of the controller and device operations.
- `app/` runs the commands through `sh -c`, shows the menus with the `rofi` crate and
  loops until the menu is dismissed. It takes an optional rofi theme as its argument.
