# liquidlauncher

The logic of LiquidLauncher, the launcher of the LiquidBounce client for Minecraft, as a library
whose behaviour is stated in contracts and proved with Verus.

## Layout

- `src/minecraft/`: launching the game. Version profiles and how a profile merges its parent's,
  the rules that admit arguments and libraries, template expansion of the command line, which
  libraries go on the class path, Java runtimes and where each vendor serves them, the progress
  bar, and offline accounts.
- `src/app/`: the launcher around the game. The LiquidBounce API (hosts, builds, mods), the
  settings and their older format, the marketplace of add-ons, themes and scripts (subscriptions
  shared with the client, installed revisions, staging add-ons for a build, what the library and
  the listings show), mods from Modrinth, the web views, and the launcher's own update.
- `src/auth.rs`: the LiquidBounce client account session.
- `src/utils/`: text, ordering and sorting, checksums, Maven paths, the hosts file, regular
  expressions, archive entry names, and JSON values as `serde_json` reads and writes them.
- `app/`: the program around the library: directories, reading and writing files (the
  marketplace file's text goes to the library and its new bytes come back), the settings on
  disk, the system's memory and time.
- `tests/`: tests of the library on concrete values.

Calls into outside crates (regex, md5, sha1, base16ct, serde_json, sanitize-filename, and a few
functions of std) go through small trusted wrappers whose contracts say what the crates
document; everything else in `src/` is verified.
