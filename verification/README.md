# archvnde

The logic of the ArchVNDE desktop shell (panel, dynamic island, launcher,
window switcher, system tray watcher, control center), written in Verus and
proved against its contracts.

## Layout

- `src/` — the verified library, one module per part of the shell:
  - `text`, `order`: character sequences, parsing of numbers, joining,
    replacing, lexicographic order and sorting.
  - `i18n`: the English and Vietnamese phrase tables and the active locale.
  - `tray`: the StatusNotifierWatcher registry and its liveness pruning.
  - `island`, `notch`: the dynamic island's player and notification views,
    and the panel notch's alerts, track and album art.
  - `editor`: the screenshot editor's tools, crop selection, drags and keys.
  - `switcher`, `taskbar`, `launcher`: running windows, taskbar groups and
    signature, application search, file search, keyboard navigation.
  - `storage`, `sysmon`, `wifi`, `audio`, `controls`: what the system tools
    print, read into values, and the commands that change settings.
  - `icons`, `paths`, `panel`, `models`, `desktop`: icon lookup, the shell's
    files and folders, the panel's pop-ups and focus tracking, shared records.
- `tests/` — tests of the library on concrete values.
- `app/` — a command-line front end that runs the system tools and hands
  their output to the library; it also keeps the few parts that work with
  fractions (load and memory percentages, volume and brightness readings).

Each public function states its result in `ensures`; the properties that
relate several functions are the `law_*` proof functions.
