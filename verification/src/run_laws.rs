//! What holds of whole runs.
use vstd::prelude::*;
use crate::batch_proc::BatchProcessorProverParams;
use crate::batch_proc::BatchProcessorVerifierParams;
use crate::batch_proc::ClaimRands;
use crate::batch_proc::QaNizkProver;
use crate::capacity_planner::WordInfo;
use crate::commitment::commits_zeros;
use crate::commitment::BatchOpeningProver;
use crate::commitment::CommitmentScheme;
use crate::commitment::KZGProof;
use crate::commitment::OpeningProver;
use crate::commitment::OpeningVerifier;
use crate::commitment::PedersenGrumpkin;
use crate::curve::Grumpkin;
use crate::curve::G1;
use crate::decider_circuit::law_accepted_end_satisfies_decider;
use crate::decider_circuit::DeciderEthCircuitSuper;
use crate::decider_circuits::law_accepted_end_satisfies_circuit;
use crate::decider_circuits::Phase1Circuit;
use crate::driver::cm_f_chain;
use crate::driver::cm_f_chain_from;
use crate::driver::run;
use crate::driver::step_at;
use crate::driver::with_pc;
use crate::driver::Driver;
use crate::driver::RunResult;
use crate::driver::RunSetup;
use crate::error::ErrorView;
use crate::field::f_one;
use crate::field::f_zero;
use crate::field::lemma_op_values;
use crate::field::lemma_units;
use crate::field::FieldModel;
use crate::field_fq::Fq;
use crate::field_fr::fr_modulus;
use crate::field_fr::Fr;
use crate::foldpot_super::FoldPotSuper;
use crate::foldpot_super::SuperInput;
use crate::foldpot_super::SuperInputView;
use crate::foldpot_super::SuperStateView;
use crate::foldpot_super::VerifierParamsFoldPotSuper;
use crate::instance_super::InstanceSuperView;
use crate::limbs::g1_absorbed;
use crate::passes::memories_match;
use crate::passes::PassOne;
use crate::passes::PassTwo;
use crate::part_two::PartTwoView;
use crate::statements::StatementMapper;
use crate::super_laws::law_dummies_fold_to_dummies;
use crate::super_laws::law_first_state_is_sound;
use crate::super_laws::law_first_step_is_accepted;
use crate::super_laws::law_state_continues_chain;
use crate::super_laws::law_step_is_accepted;
use crate::super_laws::law_step_keeps_soundness;

verus! {

/// After a run of `n` steps the counter is `n`.
pub proof fn law_run_counts_steps<CS1: CommitmentScheme<Fr, G1>, CS2: CommitmentScheme<Fq, Grumpkin>>(
    f: FoldPotSuper<CS1, CS2>,
    st: SuperStateView,
    pcs: Seq<usize>,
    inputs: Seq<SuperInput>,
    n: nat,
)
    requires
        st.i == f_zero::<Fr>(),
        n < fr_modulus(),
        run(f, st, pcs, inputs, n).1 is Ok,
    ensures
        run(f, st, pcs, inputs, n).0.i == Fr::of(n),
    decreases n,
{
    lemma_units::<Fr>();
    Fr::lemma_val_of(0);
    if n > 0 {
        law_run_counts_steps(f, st, pcs, inputs, (n - 1) as nat);
        reveal(step_at);
        let k = (n - 1) as nat;
        Fr::lemma_val_of(k);
        Fr::lemma_val_of(n);
        lemma_op_values(Fr::of(k), f_one::<Fr>());
        vstd::arithmetic::div_mod::lemma_small_mod(n, fr_modulus());
        crate::field::f_add(Fr::of(k), f_one::<Fr>()).lemma_of_val();
    } else {
        f_zero::<Fr>().lemma_of_val();
    }
}

/// The states of a run chain the fixed memory commitments of its steps: the first entry
/// of the last state is the last link of the chain that begins with that of the first.
pub proof fn law_run_chains_cm_f<CS1: CommitmentScheme<Fr, G1>, CS2: CommitmentScheme<Fq, Grumpkin>>(
    f: FoldPotSuper<CS1, CS2>,
    st: SuperStateView,
    pcs: Seq<usize>,
    inputs: Seq<SuperInput>,
    cm_fs: Seq<G1>,
    n: nat,
)
    requires
        n <= cm_fs.len(),
        n <= inputs.len(),
        memories_match(cm_fs, inputs),
        run(f, st, pcs, inputs, n).1 is Ok,
    ensures
        run(f, st, pcs, inputs, n).0.z_i[0] == cm_f_chain_from(
            f.poseidon_config@,
            st.z_i[0],
            cm_fs.take(n as int),
        ),
    decreases n,
{
    if n > 0 {
        let k = n - 1;
        law_run_chains_cm_f(f, st, pcs, inputs, cm_fs, k as nat);
        reveal(step_at);
        assert(inputs[k]@.cm_f == g1_absorbed(cm_fs[k]));
        law_state_continues_chain(
            with_pc(f, Fr::of(pcs[k] as nat)),
            run(f, st, pcs, inputs, k as nat).0,
            inputs[k]@,
            cm_fs[k],
        );
        assert(cm_fs.take(n as int).drop_last() =~= cm_fs.take(k));
    } else {
        assert(cm_fs.take(0) =~= Seq::empty());
    }
}

/// The passes prove the steps with the fixed memories that they chained: the first state
/// holds the last link of the chain from zero, and the last state that of the chain which
/// goes on from there.
pub proof fn law_passes_chain_cm_f<
    A,
    I,
    P,
    M: StatementMapper<A, I>,
    K: CommitmentScheme<Fr, G1> + BatchOpeningProver<KZGProof> + OpeningProver<KZGProof>,
    V: CommitmentScheme<Fr, G1> + OpeningProver<P>,
    Q: QaNizkProver,
    KV: OpeningVerifier<KZGProof>,
    VV,
    CS1: CommitmentScheme<Fr, G1>,
    CS2: CommitmentScheme<Fq, Grumpkin>,
>(
    d: Driver<M>,
    setup: RunSetup<CS1, CS2>,
    pkey: Option<&BatchProcessorProverParams<K, V, Q>>,
    vkey: Option<&BatchProcessorVerifierParams<KV, VV>>,
    words: Seq<Vec<Fr>>,
    infos: Seq<WordInfo<I>>,
    rands: ClaimRands,
    idx: int,
    inputs: Seq<SuperInput>,
    one: PassOne,
    two: PassTwo,
    res: RunResult<CS1, CS2, P>,
)
    requires
        d.pass_all_gives::<A, I, P, K, V, Q, KV, VV, CS1, CS2>(
            setup,
            pkey,
            vkey,
            words,
            infos,
            rands,
            idx,
            inputs,
            one,
            two,
            res,
        ),
    ensures
        ({
            let first = cm_f_chain(d.poseidon_config@, two.cm_fs@);
            &&& res.nova.z_0@[0] == first
            &&& res.nova.state@.z_i[0] == cm_f_chain_from(d.poseidon_config@, first, two.cm_fs@)
        }),
{
    let hash = cm_f_chain(d.poseidon_config@, two.cm_fs@);
    let (ch, rc) = if d.b_full_mode {
        (f_zero::<Fr>(), f_zero::<Fr>())
    } else {
        ((res.proofs->0).0.ch, (res.proofs->0).0.rc)
    };
    let st = d.first_state(setup, hash, ch, rc, words.len());
    law_run_chains_cm_f(res.nova, st, one.pcs@, inputs, two.cm_fs@, one.pcs@.len());
    assert(two.cm_fs@.take(one.pcs@.len() as int) =~= two.cm_fs@);
}

impl<M> Driver<M> {
    /// The second part of the state before the first step of a run.
    pub open spec fn first_part2<CS1: CommitmentScheme<Fr, G1>, CS2: CommitmentScheme<Fq, Grumpkin>, P>(
        &self,
        res: RunResult<CS1, CS2, P>,
        n_words: nat,
    ) -> PartTwoView {
        if self.b_full_mode {
            PartTwoView::new(f_zero::<Fr>(), f_zero::<Fr>(), true, n_words)
        } else {
            PartTwoView::new((res.proofs->0).0.ch, (res.proofs->0).0.rc, false, n_words)
        }
    }
}

/// Whether the inputs of the first `n` steps have the sizes for the steps' circuits, and
/// their assignments satisfy the circuits' systems.
pub open spec fn honest_run<CS1: CommitmentScheme<Fr, G1>, CS2: CommitmentScheme<Fq, Grumpkin>>(
    f: FoldPotSuper<CS1, CS2>,
    st: SuperStateView,
    pcs: Seq<usize>,
    inputs: Seq<SuperInput>,
    n: nat,
) -> bool {
    forall|k: int|
        0 <= k < n ==> {
            let g = with_pc(f, Fr::of(#[trigger] pcs[k] as nat));
            &&& pcs[k] < f.circuits@.len()
            &&& g.input_wf(inputs[k]@)
            &&& g.honest(run(f, st, pcs, inputs, k as nat).0, inputs[k]@)
        }
}

/// Which circuit comes next has no part in whether a state is sound.
proof fn lemma_sound_ignores_pc<CS1: CommitmentScheme<Fr, G1>, CS2: CommitmentScheme<Fq, Grumpkin>>(
    f: FoldPotSuper<CS1, CS2>,
    pc: Fr,
    st: SuperStateView,
)
    ensures
        f.sound(st) == with_pc(f, pc).sound(st),
{
    let g = with_pc(f, pc);
    assert(g.last(st) == f.last(st));
    assert(g.x_len() == f.x_len());
    assert(g.sponge() == f.sponge());
    assert(g.cf_state(st) == f.cf_state(st));
    assert(g.state_wf(st) == f.state_wf(st));
}

/// Each state of a run on satisfying assignments is sound: the witnesses satisfy their
/// systems.
pub proof fn law_run_keeps_soundness<CS1: CommitmentScheme<Fr, G1>, CS2: CommitmentScheme<Fq, Grumpkin>>(
    f: FoldPotSuper<CS1, CS2>,
    st: SuperStateView,
    pcs: Seq<usize>,
    inputs: Seq<SuperInput>,
    n: nat,
)
    requires
        f.setup_wf(),
        f.sound(st),
        honest_run(f, st, pcs, inputs, n),
        run(f, st, pcs, inputs, n).1 is Ok,
    ensures
        f.sound(run(f, st, pcs, inputs, n).0),
    decreases n,
{
    if n > 0 {
        let k = n - 1;
        let g = with_pc(f, Fr::of(pcs[k] as nat));
        let before = run(f, st, pcs, inputs, k as nat).0;
        law_run_keeps_soundness(f, st, pcs, inputs, k as nat);
        Fr::lemma_val_of(pcs[k] as nat);
        reveal(step_at);
        lemma_sound_ignores_pc(f, Fr::of(pcs[k] as nat), before);
        law_step_keeps_soundness(g, before, inputs[k]@);
        lemma_sound_ignores_pc(f, Fr::of(pcs[k] as nat), g.step_spec(before, inputs[k]@).0);
    }
}

/// A run on satisfying assignments, of one step or more from the state before the first
/// step, is accepted by the verifier.
pub proof fn law_run_is_accepted<CS1: CommitmentScheme<Fr, G1>, CS2: CommitmentScheme<Fq, Grumpkin>>(
    f: FoldPotSuper<CS1, CS2>,
    vp: VerifierParamsFoldPotSuper,
    part2: PartTwoView,
    pc_0: nat,
    pcs: Seq<usize>,
    inputs: Seq<SuperInput>,
    n: nat,
)
    requires
        f.setup_wf(),
        f.z_0@.len() == 2,
        pc_0 < f.circuits@.len(),
        commits_zeros(f.circuits@[pc_0 as int].cs_pp, f.circuits@[pc_0 as int].r1cs.a.n_rows as nat),
        f.known_to(vp),
        1 <= n < fr_modulus(),
        honest_run(f, f.first(part2, pc_0), pcs, inputs, n),
        run(f, f.first(part2, pc_0), pcs, inputs, n).1 is Ok,
    ensures
        ({
            let end = run(f, f.first(part2, pc_0), pcs, inputs, n).0;
            &&& vp.fits(f.shown(end))
            &&& vp.verify_spec(f.z_0@, end.z_i, Fr::of(n), f.shown(end)) is Ok
        }),
{
    let st = f.first(part2, pc_0);
    let k = n - 1;
    let g = with_pc(f, Fr::of(pcs[k] as nat));
    let before = run(f, st, pcs, inputs, k as nat).0;
    law_first_state_is_sound(f, part2, pc_0);
    law_run_keeps_soundness(f, st, pcs, inputs, k as nat);
    law_run_counts_steps(f, st, pcs, inputs, k as nat);
    law_run_counts_steps(f, st, pcs, inputs, n);
    Fr::lemma_val_of(k as nat);
    Fr::lemma_val_of(pcs[k] as nat);
    lemma_units::<Fr>();
    reveal(step_at);
    lemma_sound_ignores_pc(f, Fr::of(pcs[k] as nat), before);
    if n == 1 {
        assert(g.first(part2, pc_0) == st);
        law_first_step_is_accepted(g, vp, part2, pc_0, inputs[k]@);
    } else {
        law_step_is_accepted(g, vp, before, inputs[k]@);
    }
    let end = run(f, st, pcs, inputs, n).0;
    assert(g.shown(end) == f.shown(end));
}

/// What the state after a step tells of the step.
proof fn lemma_step_end<CS1: CommitmentScheme<Fr, G1>, CS2: CommitmentScheme<Fq, Grumpkin>>(
    f: FoldPotSuper<CS1, CS2>,
    st: SuperStateView,
    inp: SuperInputView,
)
    requires
        f.step_spec(st, inp).1 is Ok,
    ensures
        ({
            let next = f.step_spec(st, inp).0;
            &&& next.run_u == f.next_u(st)
            &&& next.pc_i == f.pc_i1
            &&& next.run_u.pc_i == f.pc_i1
            &&& next.z_i[1] == next.zi_part2_inst.hash(f.poseidon_config@)
        }),
{
}

/// What the state at the end of a run tells: how many steps there were, by which
/// circuit the last one was, its second part, and after one step the dummies.
proof fn lemma_end_of_run<CS1: CommitmentScheme<Fr, G1>, CS2: CommitmentScheme<Fq, Grumpkin>>(
    f: FoldPotSuper<CS1, CS2>,
    part2: PartTwoView,
    pc_0: nat,
    pcs: Seq<usize>,
    inputs: Seq<SuperInput>,
    n: nat,
)
    requires
        f.setup_wf(),
        f.z_0@.len() == 2,
        pc_0 < f.circuits@.len(),
        commits_zeros(f.circuits@[pc_0 as int].cs_pp, f.circuits@[pc_0 as int].r1cs.a.n_rows as nat),
        1 <= n < fr_modulus(),
        honest_run(f, f.first(part2, pc_0), pcs, inputs, n),
        run(f, f.first(part2, pc_0), pcs, inputs, n).1 is Ok,
    ensures
        ({
            let end = run(f, f.first(part2, pc_0), pcs, inputs, n).0;
            &&& end.i == Fr::of(n)
            &&& end.run_u.pc_i == end.pc_i
            &&& end.z_i[1] == end.zi_part2_inst.hash(f.poseidon_config@)
            &&& end.i == f_one::<Fr>() ==> end.run_u == (InstanceSuperView {
                pc_i: end.pc_i,
                ..InstanceSuperView::dummy(f.x_len(), f.circuits@.len(), f.b_full_mode)
            })
        }),
{
    let st = f.first(part2, pc_0);
    let k = n - 1;
    let g = with_pc(f, Fr::of(pcs[k] as nat));
    let before = run(f, st, pcs, inputs, k as nat).0;
    let end = run(f, st, pcs, inputs, n).0;
    law_run_counts_steps(f, st, pcs, inputs, n);
    assert(g.step_spec(before, inputs[k]@).1 is Ok && g.step_spec(before, inputs[k]@).0 == end) by {
        reveal(step_at);
    }
    lemma_step_end(g, before, inputs[k]@);
    if end.i == f_one::<Fr>() {
        assert(n == 1) by {
            Fr::lemma_val_of(n);
            lemma_units::<Fr>();
        }
        assert(before == st && g.first(part2, pc_0) == st);
        assert(g.setup_wf()) by {
            Fr::lemma_val_of(pcs[k] as nat);
        }
        law_dummies_fold_to_dummies(g, part2, pc_0);
        assert(g.x_len() == f.x_len());
    }
}

/// A run on satisfying assignments, of one step or more, ends with what the decider's
/// circuits are for: where the CycleFold commitments open, the constraints hold of the
/// circuits that are made for the end of the run.
pub proof fn law_run_end_satisfies_circuits<CS1: CommitmentScheme<Fr, G1>>(
    nova: FoldPotSuper<CS1, PedersenGrumpkin>,
    vp: VerifierParamsFoldPotSuper,
    part2: PartTwoView,
    pc_0: nat,
    pcs: Seq<usize>,
    inputs: Seq<SuperInput>,
    n: nat,
    c: Phase1Circuit<CS1>,
    d: DeciderEthCircuitSuper<CS1>,
)
    requires
        nova.wf(),
        nova.z_0@.len() == 2,
        pc_0 < nova.circuits@.len(),
        commits_zeros(nova.circuits@[pc_0 as int].cs_pp, nova.circuits@[pc_0 as int].r1cs.a.n_rows as nat),
        nova.known_to(vp),
        1 <= n < fr_modulus(),
        honest_run(nova, nova.first(part2, pc_0), pcs, inputs, n),
        run(nova, nova.first(part2, pc_0), pcs, inputs, n) == (nova.state@, Ok::<(), ErrorView>(())),
        c.made_from(nova, c.com_all_w, c.r_all_w),
        d.made_from(nova),
        d.kzg_c_lkup == nova.state@.zi_part2_inst.ch,
        nova.cf.cs.blinded(nova.state@.cf_w.e, nova.state@.cf_w.r_e) == Some(nova.state@.cf_u.cm_e),
        nova.cf.cs.blinded(nova.state@.cf_w.w, nova.state@.cf_w.r_w) == Some(nova.state@.cf_u.cm_w),
    ensures
        c.satisfied(),
        d.satisfied(),
{
    lemma_end_of_run(nova, part2, pc_0, pcs, inputs, n);
    law_run_is_accepted(nova, vp, part2, pc_0, pcs, inputs, n);
    Fr::lemma_val_of(n);
    lemma_units::<Fr>();
    law_accepted_end_satisfies_circuit(nova, vp, c);
    law_accepted_end_satisfies_decider(nova, vp, d);
}

/// What the passes prove is accepted by the verifier of the computation, where the
/// steps' assignments satisfy their circuits' systems.
pub proof fn law_passes_are_accepted<
    A,
    I,
    P,
    M: StatementMapper<A, I>,
    K: CommitmentScheme<Fr, G1> + BatchOpeningProver<KZGProof> + OpeningProver<KZGProof>,
    V: CommitmentScheme<Fr, G1> + OpeningProver<P>,
    Q: QaNizkProver,
    KV: OpeningVerifier<KZGProof>,
    VV,
    CS1: CommitmentScheme<Fr, G1>,
    CS2: CommitmentScheme<Fq, Grumpkin>,
>(
    d: Driver<M>,
    setup: RunSetup<CS1, CS2>,
    pkey: Option<&BatchProcessorProverParams<K, V, Q>>,
    vkey: Option<&BatchProcessorVerifierParams<KV, VV>>,
    words: Seq<Vec<Fr>>,
    infos: Seq<WordInfo<I>>,
    rands: ClaimRands,
    idx: int,
    inputs: Seq<SuperInput>,
    one: PassOne,
    two: PassTwo,
    res: RunResult<CS1, CS2, P>,
    vp: VerifierParamsFoldPotSuper,
)
    requires
        d.pass_all_gives::<A, I, P, K, V, Q, KV, VV, CS1, CS2>(
            setup,
            pkey,
            vkey,
            words,
            infos,
            rands,
            idx,
            inputs,
            one,
            two,
            res,
        ),
        res.nova.known_to(vp),
        commits_zeros(setup.circuits@[0].cs_pp, setup.circuits@[0].r1cs.a.n_rows as nat),
        1 <= one.pcs@.len() < fr_modulus(),
        honest_run(res.nova, res.nova.first(d.first_part2(res, words.len()), 0), one.pcs@, inputs, one.pcs@.len()),
    ensures
        ({
            let end = res.nova.state@;
            &&& vp.fits(res.nova.shown(end))
            &&& vp.verify_spec(res.nova.z_0@, end.z_i, Fr::of(one.pcs@.len()), res.nova.shown(end)) is Ok
        }),
{
    let n = one.pcs@.len();
    law_run_is_accepted(res.nova, vp, d.first_part2(res, words.len()), 0, one.pcs@, inputs, n);
}

} // verus!
