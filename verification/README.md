# foldpot

Folding of lookup-based step circuits over the BN254 / Grumpkin cycle, verified with Verus.

Incremental computations with one or several step circuits are folded step by step. The
folds of commitments are delegated to CycleFold circuits over the other curve, and pairings
to CyclePair circuits. A decider closes a computation, and a batch proof ties it to the
words that it was run on.

Layout:

- `src/`: the library. Fields and curves (`field*`, `curve`, `limbs`, `sponge`), systems
  and commitments (`r1cs`, `commitment`, `nova`, `instance*`, `nifs`), the computations
  (`circuits`, `cyclefold`, `cyclepair`, `foldpot`, `foldpot_super`, `super_setup`), the
  deciders (`decider*`, `two_phase`), batch claims (`batch_proc`), planning and driving
  (`capacity_planner`, `driver`, `statements`, `passes`, `jobs`, `job_phases`), and the
  containers of gadgets (`container_config`, `paths`). Laws that span several of these are
  public proof functions whose names begin with `law_`; some have modules of their own
  (`super_laws`, `run_laws`, `batch_laws`, `container_laws`, `layout_laws`).
- `tests/`: tests that run the library with the outside crates.
- `app/`: files, randomness, threads and circuit synthesis.

Circuits are functions on plain values that tell whether their constraints hold. What an
outside crate computes (curve operations, pairings, Poseidon, SHA-2, SHA-3, Groth16) is
called behind wrappers whose contracts name the result.
