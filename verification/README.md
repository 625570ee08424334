# omarchy_updater

Inspects pending system updates on an Omarchy machine and presents them in a
GTK4/Libadwaita window.

- `src/` is the verified library: reading the output of `checkupdates`,
  `yay -Qua`, `omarchy update available`, `fwupdmgr get-updates --json` and
  `mise outdated` into an `UpdateReport` (`checker`, `json`, `text`), the theme's
  style sheet and file location (`theme`), what the update runner reports at each
  step (`runner`), and what the window shows for a report (`ui`).
- `app/` is the program around it: it runs the tools, reads the theme file,
  spawns the update script and drives the GTK widgets.
- `tests/` runs the library on concrete inputs.
