# BucketMount

The rules by which S3 buckets are mounted as macOS volumes, watched, restarted
and kept in sync, written in Verus: what every function returns or changes is
stated in its contract and proved. What is believed rather than proved are the
contracts of the calls into serde_json, time, sha1_smol, dirs and the standard
library; each is marked "Trusted" in its doc comment.

- `src/` is the library.
  - `config` settings and what makes them valid; `app` what the window's
    commands do to them and what it shows.
  - `rclone` the places, arguments and output of rclone; `mac` the mount table,
    unmounting, notifications and the login item.
  - `supervisor` states, notifications and log tails; `session` one run of
    `rclone nfsmount`; `keeper` restarting with backoff; `manager` which
    supervisors run.
  - `sync` and `syncer` folders kept in two-way sync by `rclone bisync`.
  - `sso` and `login` AWS IAM Identity Center: profiles, cached tokens and the
    device authorization flow.
  - `tray` and `updater` the menu bar item and self-update.
  - `text`, `split`, `number`, `path`, `ini`, `json`, `clock`, `applog` what the
    others are written with.
- `tests/` runs the library.
- `app/` is the program around it: processes, files, the network, the window
  and the menu bar. It asks the library what to do next and reports what came
  of it.

What runs over time (a session, a supervisor, a synced folder, a sign-in) is a
state with one function `next`, from an event to what is to be done. Its
contract is the specification function `step` of the state's model, and the
laws of the module are stated over sequences of such steps.

Functions that need the home directory look it up; each has a counterpart with
the suffix `_in` that takes it as an argument and whose contract is exact.
