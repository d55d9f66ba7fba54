# videocaptionerr

Turns the sound of media files into subtitles: jobs with stages, batches of
jobs, transcripts with revisions, and language-model stages that split, correct
and translate cues.

- `src/` is the library. It is written in Verus: every function states what it
  does in `requires` and `ensures`, and Verus proves it.
  - `subtitle/`: transcripts, cues, joined text, revisions and edits.
  - `workflow/`: stages, jobs, work units and batches as state machines.
  - `llm/`: prompts, token estimates, the chat protocol, capability probing and
    the circuit breaker.
  - `use_cases/`: what the application does, as decisions on plain values:
    running a job, running a batch, cancelling, retrying, resuming, recovering,
    editing, and the language-model pipeline.
  - `vad.rs`: silence in recordings.
  - `text.rs`, `json.rs`, `hash.rs`, `paths.rs`: text, JSON, content hashes and
    file names.
- `tests/` runs the library on concrete values.
- `app/` is ordinary Rust around it: ports, files, HTTP and the asynchronous
  loops that carry out what the library decides.

Functions whose name starts with `law_` are proofs. Each states a property of
several functions together, such as that a stage that is complete is used again
or that nothing is left running after a recovery.

Numbers with a fraction are kept as bit patterns (samples of sound), in
thousandths (characters per token) or as numerals (temperature). The confidence
of a word is kept as bits, by which it is compared, and as a numeral, by which
it is shown.

What Verus takes on trust are the functions marked `external_body` and the one
`assume_specification`, of `String::push`, in `text.rs`. A function marked
`external_body` calls into another crate, or formats a value with the standard
library; some chain two calls, such as parsing a document and looking something
up in it. Each says above it what it relies on.
