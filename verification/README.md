# depac

Declarative package management for pacman. A configuration lists the packages
that are to be installed, the package bases that are to be built from source,
and the packages to leave alone; a run brings the system in line with it.

## Usage

depac takes one argument, the path of a JSON configuration:

```json
{
  "packages": ["kitty", "firefox"],
  "pkgbuilds": [
    { "base": "depac-git", "rpc": false },
    { "base": "nvidia-utils-beta", "artifacts": ["nvidia-utils-beta", "opencl-nvidia-beta"] },
    "glsl_analyzer-bin"
  ],
  "ignore": ["rose-pine-hyprcursor"],
  "settings": { "elevation": "sudo" }
}
```

- A base that is given as a string is its own only artifact.
- `git` gives the repository of a base that is not on the AUR.
- `rpc` says whether the AUR is asked for the version of a base. It is on by
  default, and off by default where `git` is set.
- `ignore` gives the packages to leave alone. They are neither removed, nor
  installed, nor marked, even if `packages` names them too. The artifacts of a
  base are built and installed with it all the same.
- `settings.elevation` is the command that runs another one as the superuser.
- `settings.package_removal_confirmation_count` is the number of packages that
  may be removed without a question, and `settings.default_true_confirmation`
  is what a blank answer means.

## Layout

- `src/` is the library, verified with Verus. It holds every decision of a run.
  A `Session` says what it waits for (`pending`) and goes on with a reply to it
  (`step`).
  - `text`, `names`: the pieces that command output is cut into.
  - `config`: the configuration, and what it asks for.
  - `removal`: which packages can be removed, and what needs a question.
  - `output`, `action`, `reply`, `failure`: what is run, and what comes of it.
  - `packages`, `cache`, `builds`, `session`: the steps of a run.
  - `laws`: what holds of every run.
- `tests/` runs the library on examples.
- `app/` is the program: it performs what a `Session` asks for.
