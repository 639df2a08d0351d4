# aci_boundary

A checkpoint between an AI agent's proposed tool calls and the workspace they
would touch. A proposal is parsed, validated against a scope manifest, passed
through a policy gate (production mutations need a signed human approval),
written to the audit trail, and only then carried out.

The library in `src/` is verified with Verus: each public function states what
it returns in its contract, and the properties that span several calls are
stated and proved as `lemma_*` proof functions next to the code they are about.

## Layout

- `src/boundary/identifiers.rs`, `types.rs`: validated identifiers, workspace
  paths, file contents, test-suite names.
- `src/boundary/manifest.rs`: capabilities, path scopes, the scope manifest and
  its canonical JSON digest.
- `src/boundary/llm.rs`, `tool.rs`: raw proposals and their validation into
  invocations, each with the digest of its canonical identity.
- `src/boundary/approval.rs`: human approvals, their claims and Ed25519
  signatures.
- `src/boundary/audit.rs`, `mod.rs`: audit records, the services a step runs
  under, the policy gate, emission of audit records.
- `src/boundary/pipeline.rs`: one pipeline step. Its state machine is run by
  the library with the step's services up to execution; the caller runs the
  executor and hands its answer back.
- `src/boundary/workspace.rs`, `executor.rs`, `execution.rs`: resolution of
  workspace paths that cannot escape the root through symbolic links, the
  runtime tools, and the run of one invocation as a state machine that orders
  the file and process operations (a write goes through a synced scratch file
  beside its target and a rename).
- `src/boundary/crypto.rs`, `text.rs`: SHA-256, Ed25519, hex decoding (from
  outside crates, behind stated contracts) and text rendering.
- `app/`: the host side that Verus does not see: JSON decoding, the file
  system and processes, and the async driver of a pipeline step.
- `tests/`: tests of the library on concrete values.
