# engine_lab

The timing and event flow of a music engine, verified with Verus: tempo,
transport, clips and their placements, lookahead scheduling, probability
gating, playback event mapping, and the realtime queue that executes events
block by block.

```text
Tempo + Transport -> Clips (ArrangementView / ClipRouter) -> Scheduler
    -> ProbabilityGate -> PlaybackEvent -> TimedPlaybackEvent -> PlaybackQueue
```

## Time

Musical time is fixed point. A beat position or a beat length is an `i64`
count of ticks, `tempo::TICKS_PER_BEAT` (960 000) ticks to the beat; tempo is
held in thousandths of a beat per minute. Sample positions are `u64`.

## Layout

- `src/` is the library. Every function has a contract, and all but the
  three trusted functions that call outside crates (below) are proved:
  - `tempo`, `transport`: conversions between ticks and samples, playback
    state.
  - `clips`: clips, placements, the router between notes, clips and
    placements, and the arrangement view that resolves routed notes.
  - `scheduler`: notes, occurrence keys, and the lookahead window that
    materializes note edges. Consecutive windows emit every edge once
    (`law_consecutive_windows_partition`).
  - `playback`: probabilities and probability gating, event mapping, active notes,
    the pipeline with its committed horizon and edit guards, the deadline
    queue, the executor and the runtime.
  - `ids`, `sorting`: random identities, and a stable sort by key.
- `tests/` exercises the library on concrete values.
- `app/` is the demo program, with the timing views in seconds and
  milliseconds, which compute in floating point.

Randomness comes from outside crates: `uuid` for identities and `rand` for
probability rolls, each behind one trusted function whose contract states
only what holds of every outcome; every decision taken on a random draw is
also available as a verified function that takes the draw as an argument.
`uuid` also writes an identity as text, behind a third trusted function
whose contract states the hyphenated form.
