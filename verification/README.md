# ModemDeck

ModemDeck manages cellular modems on Linux through ModemManager and
NetworkManager. This crate is its logic, written in Verus and proved against
its contracts; the program around it (D-Bus, serial ports, files, `nmcli`,
`pkexec`, the update check) lives in `app/`.

## Layout

- `src/text.rs` — character-level string functions over `Seq<char>`: trimming,
  splitting, searching, number parsing and formatting, path joining.
- `src/model.rs` — modems, serving cells, carrier aggregation and the labels
  shown for them; LTE bands from EARFCNs and ModemManager band values.
- `src/drivers/` — vendor AT profiles: which commands each driver reads, how
  their answers are parsed, and LTE cell-lock previews.
- `src/profiles.rs` — band profiles, three of them built in.
- `src/safety.rs` — the pending band-change record and the bounded backups.
- `src/monitor.rs` — notifications, profile restore and the rollback guard.
- `src/history.rs` — per-modem signal history, at most 180 samples each.
- `src/traffic.rs` — daily and monthly data usage, at most 120 days and 24
  months, and byte counts for display.
- `src/apn.rs` — the `nmcli` calls behind the APN manager and the parsing of
  its listings.
- `src/communications.rs` — SMS, voice and USSD checks, and the inbox order.
- `src/helper.rs` — the privileged helper: its command line, `GetCellInfo`
  answers and direct AT reads.
- `src/diagnostics.rs` — the privacy-safe diagnostics report.
- `src/i18n.rs`, `src/settings.rs`, `src/updates.rs`, `src/runtime_status.rs`
  — languages, preferences, version comparison and the published status.

Public proof functions named `law_*` state the properties that hold across
calls: what a profile store gives back after an update, that histories and
usage tables stay bounded, that pruning leaves exactly the newest backups,
that the version order is a strict order, that the report never depends on
equipment identifiers, and others.
