//! Folding of lookup-based step circuits over the BN254 / Grumpkin cycle.
pub mod bigint;
pub mod field;
pub mod field_fr;
pub mod field_fq;
pub mod vecs;
pub mod curve;
pub mod sponge;
pub mod limbs;
pub mod error;
pub mod error_text;
pub mod r1cs;
pub mod commitment;
pub mod nova;
pub mod instance;
pub mod nifs;
pub mod circuits;
pub mod part_two;
pub mod cyclefold;
pub mod foldpot;
pub mod cyclepair;
pub mod statement;
pub mod sigma_cyclepair;
pub mod instance_super;
pub mod foldpot_super;
pub mod super_setup;
pub mod super_laws;
pub mod system_laws;
pub mod fold_laws;
pub mod step_laws;
pub mod poly;
pub mod decider_circuits;
pub mod two_phase;
pub mod decider_circuit;
pub mod decider;
pub mod calldata_laws;
pub mod decider_laws;
pub mod circuit_laws;
pub mod batch_proc;
pub mod batch_laws;
pub mod capacity_planner;
pub mod driver;
pub mod commit_laws;
pub mod pair_laws;
pub mod plan_laws;
pub mod statement_laws;
pub mod sigma_laws;
pub mod job_laws;
pub mod setup_laws;
pub mod pass_laws;
pub mod tree_laws;
pub mod value_laws;
pub mod statements;
pub mod passes;
pub mod jobs;
pub mod job_phases;
pub mod run_laws;
pub mod paths;
pub mod container_config;
pub mod container_laws;
pub mod layout_laws;
pub mod transcript_laws;
