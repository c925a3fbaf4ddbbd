# runaserver

An interactive tool that prepares an Ubuntu server: system updates, base
packages, Apache sites and PHP-FPM, PHP versions and modules, MySQL
hardening, phpMyAdmin, CMS installs and a launcher in `/usr/local/bin`.

- `src/` is the library, verified with Verus. It holds every decision the
  tool makes: parsing command output and answers, the text of the files and
  statements it writes, and (in `pasos`) the order of the steps of each
  task, given the outcome of the step before.
- `app/` is the program around it: menus, prompts, running commands and
  touching files. It performs the step that the library names and hands the
  outcome back.
- `tests/` runs the library on concrete values.
