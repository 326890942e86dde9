# tauri_file_server

A LAN file portal for a Windows office machine: other machines upload files
into three shared folders, download them again, read the activity history, and
open a master report built from the device inventory files they sent.

`src/` is the library, verified with Verus:

- `text` — the string operations the server relies on (`trim`, `split`,
  `replace`, `lines`, `join`, ...), each proved against a model over `Seq<char>`.
- `activity_log` — the line written for each upload or download, and the
  history view read back from the log file (newest fifty lines, newest first).
- `log_laws` — proofs that a line the server appends is read back by the
  history view as exactly the row it records, when its fields hold no ` | `
  separator and no line break (and the log read so far ends in a line break);
  the proved laws state these conditions.
- `transfers` — which folders and file types are accepted (a file's type is
  read from its name the way Windows paths are read, drive and share prefixes
  included), how upload headers are decoded and resolved, and the decisions on
  upload and download requests.
- `report` — reading a device inventory report and writing the master report.
- `selection` — which files of the report folder make up the master report,
  in which order, with the proof that the order is sorted and complete.
- `layout` — the directories, file paths and server address.

`app/` is the program: the axum server, disk and network work, and the start-up
chores of the Windows host.
