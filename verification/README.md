# alight

A library for burning audio CDs in one session (disc at once) with the SCSI
multimedia commands, with its behaviour stated in Verus contracts and proved,
and a small command-line tool around it.

## Layout

- `src/` — the verified library.
  - `addresses.rs`: logical block addresses and minute/second/frame
    positions, their conversions and sums, with the round-trip and
    associativity laws.
  - `cue_sheet.rs`: cue sheet descriptors and their byte layout.
  - `scsi.rs`: opcodes, errors, sense data, the `ScsiDriver` transport
    trait and the commands every driver gets (INQUIRY, TEST UNIT READY,
    REZERO UNIT), and how an SG_IO transfer's status becomes a result.
  - `driver.rs`, `driver/mmc.rs`: the MMC commands a CD recorder takes, how
    the drive's answers are read (status, mode pages, buffer capacity, next
    writable address), the `MmcDriver`, and the buffered `Writer`.
  - `burn_dao_audio_cd_job.rs`: the burn job, its cue sheet, its progress,
    and the step-by-step writing of lead-in and tracks, with the laws that
    tie the addresses written to the cue sheet sent.
  - `burn_dao_audio_cd_job/run.rs`: a whole burn as a sequence of stages;
    each call does the drive work of one stage and tells the caller whether
    to report progress, pause, go on, or stop.
  - `cli.rs`: what the command-line tool decides from its arguments, and the
    text of its progress display.
  - `text.rs`: decimal and hexadecimal text of numbers and bytes.
- `tests/` — tests of the library against a scripted SCSI device.
- `app/` — the command-line tool: argument handling, the Linux SG_IO
  transport, audio decoding and resampling, progress bars, and the loops
  that run a burn or a blanking in the background.

Contracts about what the drive answers are stated over the trait method
`ScsiDriver::may_answer`, which ties every outcome to the command that was
sent and the data that moved with it. In the same way, the frames of a
track are stated over `FrameProducer::may_produce`: each frame written for
a track is one that the track's own producer filled.
