# backsnap

Btrfs snapshot management and disk-to-disk backup for Linux, with a small
voice/chat assistant ("Jarvis") that controls the lights, fans and backups.

The decision logic is a Verus-verified library; the program around it runs
commands, talks HTTP and touches files.

## Layout

- `src/` — the verified library. Each public function states its result in
  `ensures` over spec functions; `law_*` proof functions state properties that
  span several calls.
  - `config`, `helpers`, `sync`, `snapper`, `timer`, `disks`, `health` — the
    backup side: configuration checks, rsync plans and results, sync status,
    rollback clean-up, snapper and systemd output, the disk overview.
  - `sync_run` — the course of a sync run and of a rollback, one step at a
    time: from the stage and the outcome of the last action to the next
    action, its log lines and the error a run ends with.
  - `boot`, `boot_patch`, `boot_guard`, `loader`, `fstab`, `efi` — boot entries
    copied to the backup disk with swapped UUIDs, cross-boot entries, health
    checks of the backup boot setup.
  - `intent`, `fastparse`, `assistant`, `tools`, `voice_state` — understanding
    commands, reading the model's reply, wording tool results, and the voice
    listener's state machine.
  - `lighting`, `openrgb`, `corsair`, `protocol`, `hid`, `nexus`, `pixels` —
    device protocols: HID frames, colour and LED reports, fan and temperature
    readings, LCD pages and the pixel renderer; `rgb_status` lists the
    connected RGB devices.
  - `privileged` — what the root helper accepts.
  - `cleanup`, `desktop_launcher`, `install` — disk clean-up rules, desktop
    entries, system integration status.
- `app/` — the command-line program: the privileged helpers, the assistant's
  model and lamp requests, the floating-point fan curves and size display,
  and the commands that drive the disk overview, the sync, the rollback and
  the deletion of clean-up candidates.
- `tests/` — tests run against the compiled library.
