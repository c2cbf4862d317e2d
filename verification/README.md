# freemkv-fw

Authoring of optical-drive firmware for the MediaTek MT1959 and MT1939 families, as a
verified library: given a firmware image, it finds the routines that it needs in the
image's own code, injects a vendor-command handler and the trampolines of its features,
and reports what it did. Everything that is found or written has a contract that Verus
proves.

- `src/abi.rs`: the vendor-command wire frames.
- `src/engine/`: the finders, the injected programs, the detours, whole-image creation and
  modification, and the structural audit.
- `src/engine/changes.rs`, `marks.rs`, `agreement.rs`: laws on whole images. Only the
  reported places change; a patched image is recognised and left alone; creation and
  modification agree on the bytes.
- `src/engine/landing.rs`, `lasting.rs`, `classic_lasting.rs`, `rooted.rs`, `kept.rs`: what a
  passed audit says, and that what a lever is reported to have applied, the boot hook, the
  handler and the dispatch record are in the image that is handed out. `spots.rs` shows that
  no two detours share a place, `facts.rs` what the reports name.
- `src/engine/audited.rs`, `classic_audited.rs`: when a modified image passes its own audit.
- `src/machine.rs`, `src/engine/behaviour.rs`, `placement.rs`, `protocol.rs`: a model of the
  processor, and what every trampoline, the boot hook and every verb of the handler do when
  they run.
- `src/engine/reach.rs`: the handler assembles, whatever facts it is built from.
- `src/thumb.rs`, `src/program.rs`: the `thumb_asm` assembler and image access, with what is
  taken on trust of them.
- `src/api.rs`: verifying, signing, building and probing, over the results of the integrity
  scheme.
- `app/`: device access, chip identification and the integrity scheme behind traits, and the
  survey over a directory of images.
