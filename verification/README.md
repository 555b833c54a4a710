# paramo

A distraction blocker for macOS: it keeps a managed section in `/etc/hosts` that
sends the listed sites to `127.0.0.1`/`::1` during the configured hours, and puts
friction (countdowns, a mandatory reason, a wall of shame) in front of unblocking.

## Layout

- `src/` is the library, verified with Verus. Each module states what its
  functions compute over mathematical models (`Seq`, `Map`, `int`), and the
  properties that span several functions are public proof functions named `law_*`:
  - `hosts`: building, finding, appending and removing the managed section of a
    hosts file; blocking then unblocking gives the file back.
  - `blocker`, `scheduler`, `calendar`: what a sync does for a schedule; when the
    schedule blocks and when it next changes.
  - `config`, `preferences`, `paths`, `i18n`: configuration, languages and texts.
  - `launchd`, `install`, `doctor`: the launchd plist and `launchctl` output, the
    installation messages, the diagnostics.
  - `ipc`: the socket protocol between the command line and the daemon.
  - `journal`, `report`, `streak`, `attempts`, `habits`, `witness`: the wall of
    shame, the weekly report, the clean-day streak, the unblock attempts, habits,
    and the log of attempts to reach blocked sites.
  - `dashboard`: what the dashboard shows and how its keys and friction flows move.
  - `clock`, `text`, `num`: calls into `chrono`, and text and number helpers.
- `app/` is the `paramo` program: the command line, the daemon loop, the socket
  and the dashboard's drawing; it reads and writes the files and calls the library.
- `tests/` runs the library on concrete values.
