# glauncher

The rules of GLauncher, a Minecraft Java Edition launcher for Linux, as a library
whose behaviour is stated in contracts and proved with Verus.

- `src/` holds the library. Each function states what it returns or changes. Where a
  result depends on the disk, the clock or chance, the contract states only what holds
  of every outcome (a file's presence is not stated at all), and a function beside it,
  such as `Account::is_expired_at`, `sign_in_at`, `launcher_path` or
  `Instance::dir_under`, takes that outcome as an argument
  and states the exact result. The `law_*` proof functions state properties that span
  several calls (what adding, removing and toggling keep, what reading back a written
  value gives).
  - `auth/` — accounts and their selection, offline UUIDs, the Microsoft sign-in
    address and the values read from Xbox and Minecraft replies.
  - `minecraft/` — instances and their JVM flags, version metadata, which libraries,
    natives and assets a launch needs, the JVM and game command lines, and loader
    version listings.
  - `java/` — reading `java -version`, picking a runtime, Adoptium requests.
  - `mods/` — installed mods, Modrinth and CurseForge request parameters.
  - `utils/` — paths under the launcher directory, settings, download progress.
  - `text.rs`, `seqs.rs`, `json.rs` — text operations, sequence searches and JSON
    values with their specifications.
- `tests/` runs the library on concrete values.
- `app/` is the GTK program: windows and dialogs, files on disk, HTTP requests and
  the game process, calling the library for every decision.
