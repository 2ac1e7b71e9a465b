# rom_pipeline

A resumable pipeline that converts console game sources (Wii U, GameCube, Nintendo 3DS,
PSP, PS2) into verified library formats in bounded batches, and deploys PlayStation Vita
titles to an SD2Vita card, with a small local status screen. The decisions of the
pipeline are written in Verus and proved against their contracts; the program around them
does the file, process and network work.

## Layout

- `src/` — the verified library. Each module states its behaviour over spec functions
  and views:
  - `config`, `preflight`, `adapters`: configuration defaults and validation, and the
    adapters that are built only from a valid profile of their system;
  - `manifest`, `wiiu`, `psp_inventory`, `vita`: inventories of jobs from manifests,
    folders and archive listings;
  - `state`, `counts`, `status`: completion markers, state paths, progress counts and the
    status report;
  - `service`, `library`, `migration`: the decisions of a run (including resuming a PS2
    job), of publish/prune batches (the publication of one output as a step machine, and
    the prune guard over every job) and of the 3DS library migration, with their batch
    limits;
  - `cci`, `disc`, `sfo`, `psp`: header parsing and checks of 3DS cartridges, PS2 disc
    images and PSP images;
  - `vita_manifest`: the deployment record of a Vita title, with its round-trip law;
  - `vita_deploy`: the check of deployed Vita files (size and CRC-32, through
    `crc32fast`) and the deployment of a title as a step machine, with its laws that
    folders are placed only after the staged files were checked and that folders already
    on the card are adopted only after their files were checked;
  - `cli`, `web`, `page`: the command line, the status screen's form handling and HTML;
  - `conversion`, `cia_conversion`, `chd_output`: the GameCube conversion, the 3DS CIA
    conversion and the making of a PS2 output as step machines, with their laws that an
    output is published, and its source moved to `done`, only after the checks it owes;
  - `digest`: SHA-256 of whole byte strings and of files fed block by block;
  - `text`, `numbers`, `order`, `error`, `domain`: shared building blocks.
- `tests/` — tests of the library on concrete values.
- `app/` — the executable: argument handling, file and process I/O, the worker loop,
  signals, locking and the HTTP server, all calling into the library. The Vita adapter
  lives there too; the configuration names no Vita system, so a caller builds it with
  its tools.

The laws of the library are its public `lemma_*` proof functions.
