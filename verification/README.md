# novel

A writing assistant for long-form web novels, as a verified library.

`src/` is the library, proved with Verus: the cliché scan and de-AI
penalties, the consistency checks against the fact store, the fact
extractor, the genre templates and rules, the synopsis store, the RAG index
with its tokenizer, term counts and highlights, the agent pipeline, the
shell reducer of the terminal frontend, and what each writing tool decides.

`app/` holds what stays outside the proofs: the tools' JSON interface and
file handling, the engine's async channels, the model-backed generators,
and the two scores that scale by chapter length in floating point.

`tests/` runs the library on concrete inputs.

Not included: the thread runtime that answers forwarded engine operations,
and the adapter that turns `codewhale_protocol` event frames into engine
events. Both are built on the `codewhale_protocol` and runtime crates, which
this build does not have. The engine task's loop is `run_op_loop` in
`app/engine.rs`: it acts on the library's decision for each operation
(`engine::ops::dispose_op`: stop, cancel, report an approval, or forward)
and hands forwarded operations to a channel for such a runtime. The agents'
system prompts are read at run time from `prompts/<agent id>.md`; those
prompt files are not shipped, and a missing one reads as empty text.
