# ogulniega_manager

The core of a desktop manager for Minecraft mods and Java runtimes, written in
Verus. The library in `src/` holds the rules of the manager, each function with
a contract that Verus proves:

- `java_name`: Java build names such as `jdk-21.0.5+11-jre` and their parts.
- `mods`: mod identifiers read from `fabric.mod.json` / `quilt.mod.json`, the
  placeholder identifiers (`disabledmodN`) that disable a mod, the mod list and
  duplicate detection.
- `platform`, `releases`, `release_info`: platform tokens, where each Java
  distribution (Temurin, Liberica, Zulu, Corretto, Microsoft) publishes its
  builds, and how its answer becomes a release description.
- `profiles`: the Java builds that the launcher's published game versions use.
- `installs`, `layout`: installed builds, offered distributions, folder layout
  and the decisions taken while installing.
- `install_steps`: the course of an install as a step function from stage and
  outcome to next stage and actions (progress reports, clean-up, result).
- `text`, `json`, `sort`: exact string utilities, a plain JSON value, and a
  verified stable sort.

`app/` is the unverified shell around it: environment, file system, network,
archives, JSON parsing and the commands the user interface calls.
