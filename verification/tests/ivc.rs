use ark_bn254::Fq as ArkFq;
use ark_bn254::Fr as ArkFr;
use ark_bn254::G1Projective;
use ark_crypto_primitives::sponge::poseidon::find_poseidon_ark_and_mds;
use ark_ec::AffineRepr;
use ark_ec::CurveGroup;
use ark_ff::PrimeField;
use ark_std::UniformRand;
use ark_std::test_rng;
use foldpot::circuits::AugmentedFCircuitFoldPot;
use foldpot::circuits::StepValues;
use foldpot::circuits::cf_public_values;
use foldpot::circuits::challenge_to_fr;
use foldpot::commitment::CommitmentScheme;
use foldpot::commitment::Pedersen;
use foldpot::commitment::PedersenGrumpkin;
use foldpot::curve::G1;
use foldpot::curve::Grumpkin;
use foldpot::cyclefold::CycleAssignments;
use foldpot::cyclefold::PairAssignment;
use foldpot::cyclefold::PairContext;
use foldpot::decider_circuits::KZGChallengesGadgetSuper;
use foldpot::decider_circuits::Phase1Circuit;
use foldpot::error::Error;
use foldpot::field::Field;
use foldpot::field_fq::Fq;
use foldpot::field_fr::Fr;
use foldpot::foldpot::FoldPot;
use foldpot::foldpot::PreprocessorParamFoldPot;
use foldpot::foldpot::ProverParamsFoldPot;
use foldpot::foldpot::StepInput;
use foldpot::foldpot::VerifierParamsFoldPot;
use foldpot::foldpot_super::ChallengeGadgetFoldPotSuper;
use foldpot::foldpot_super::FoldPotSuper;
use foldpot::foldpot_super::StepCircuit;
use foldpot::foldpot_super::SuperInput;
use foldpot::foldpot_super::VerifierParamsFoldPotSuper;
use foldpot::foldpot_super::compute_step_hc_cmF_adv;
use foldpot::foldpot_super::cyclepair_values;
use foldpot::foldpot_super::field_to_usize;
use foldpot::instance::Blinds;
use foldpot::instance::CommittedInstanceFoldPot;
use foldpot::instance::WitnessFoldPot;
use foldpot::instance_super::CommittedInstanceFoldPotSuper;
use foldpot::limbs::absorb_g1;
use foldpot::limbs::fq_from_bits;
use foldpot::nifs::ChallengeGadgetFoldPot;
use foldpot::nifs::NIFSFoldPot;
use foldpot::part_two::ZiPartTwoInst;
use foldpot::part_two::chain;
use foldpot::r1cs::R1CS;
use foldpot::r1cs::SparseMatrix;
use foldpot::sponge::PoseidonConfig;
use foldpot::sponge::Sponge;
use rand::Rng;

fn fr(x: ArkFr) -> Fr {
    Fr::from_limbs(x.into_bigint().0)
}

fn fq(x: ArkFq) -> Fq {
    Fq::from_limbs(x.into_bigint().0)
}

fn g1(p: G1Projective) -> G1 {
    match p.into_affine().xy() {
        None => G1::Infinity,
        Some((x, y)) => G1::Point(fq(x), fq(y)),
    }
}

fn grumpkin(p: ark_grumpkin::Projective) -> Grumpkin {
    match p.into_affine().xy() {
        None => Grumpkin::Infinity,
        Some((x, y)) => Grumpkin::Point(fr(x), fr(y)),
    }
}

/// The parameters with rate four and the rounds for 128 bits of security.
fn config() -> PoseidonConfig {
    let (ark, mds) = find_poseidon_ark_and_mds::<ArkFr>(254, 4, 8, 60, 0);
    let rows = |m: Vec<Vec<ArkFr>>| m.into_iter().map(|r| r.into_iter().map(fr).collect()).collect();
    PoseidonConfig { full_rounds: 8, partial_rounds: 60, alpha: 5, ark: rows(ark), mds: rows(mds), rate: 4, capacity: 1 }
}

/// A system with `l` public values and the secret values `a, b, c, d`: `a * a == b` and
/// `c * u == d`.
fn small_system<F: Field>(l: usize) -> R1CS<F> {
    let m = |cols: [usize; 2]| SparseMatrix {
        n_rows: 2,
        n_cols: l + 5,
        coeffs: cols.iter().map(|k| vec![(F::one(), *k)]).collect(),
    };
    let w = l + 1;
    R1CS { l, a: m([w, w + 2]), b: m([w, 0]), c: m([w + 1, w + 3]) }
}

/// Secret values that satisfy the system.
fn small_values<F: Field>(x: &F, y: &F) -> Vec<F> {
    vec![*x, x.times(x), *y, *y]
}

fn pair_context(l: usize, rng: &mut impl Rng) -> PairContext<PedersenGrumpkin> {
    let generators = (0..4).map(|_| grumpkin(ark_grumpkin::Projective::rand(rng))).collect();
    let h = grumpkin(ark_grumpkin::Projective::rand(rng));
    PairContext { r1cs: small_system(l), cs: PedersenGrumpkin { hiding: false, h, generators }, hiding: false }
}

fn pair_assignment(k: u64) -> PairAssignment {
    PairAssignment {
        w: small_values(&Fq::from_u64(k + 2), &Fq::from_u64(k + 3)),
        r_w: Fq::zero(),
        r_e: Fq::zero(),
    }
}

fn cycle_assignments(k: u64) -> CycleAssignments {
    CycleAssignments { w: pair_assignment(k), e: pair_assignment(k + 10), f: pair_assignment(k + 20) }
}

fn no_blinds() -> Blinds {
    Blinds { r_w: Fr::zero(), r_e: Fr::zero(), r_f: Fr::zero() }
}

/// The input of the next step by the circuit `pc`, with the public values that the
/// augmented circuit would give.
fn super_input<CS1: CommitmentScheme<Fr, G1>>(
    nova: &FoldPotSuper<CS1, PedersenGrumpkin>,
    pc: usize,
    k: u64,
    next_part2: ZiPartTwoInst,
) -> SuperInput {
    let st = &nova.state;
    let c = &nova.poseidon_config;
    let w = small_values(&Fr::from_u64(k), &Fr::from_u64(k + 1));
    let circuit = &nova.circuits[pc];
    let wit = WitnessFoldPot::new(&w, 2, nova.hiding, &no_blinds(), circuit.size_f, circuit.start_f);
    let cm_f = absorb_g1(&wit.commit(&circuit.cs_pp, &vec![]).unwrap().cm_f);
    let (cf, cp) = (cycle_assignments(k), pair_assignment(k + 30));
    let z_i1 = vec![chain(c, &st.z_i[0], &cm_f), next_part2.hash(c)];
    let pc_i1 = Fr::from_u64(pc as u64);
    let i1 = st.i.plus(&Fr::one());
    let sponge = Sponge::new(c);
    let x_len = if nova.b_full_mode { 3 } else { 2 };
    let mut x = Vec::new();
    if st.i == Fr::zero() {
        let mut u = CommittedInstanceFoldPotSuper::dummy(x_len, nova.circuits.len(), nova.b_full_mode);
        u.pc_i = pc_i1;
        x.push(u.hash(&sponge, &nova.pp_hash, &i1, &pc_i1, &nova.z_0, &z_i1));
        x.push(st.cf_u.hash_cyclefold(&sponge, &nova.pp_hash));
        if let Some(u) = &st.cp_u {
            x.push(u.hash_cyclefold(&sponge, &nova.pp_hash));
        }
    } else {
        let j = field_to_usize(&st.pc_i);
        let (_t, cm_t) = nova.compute_cmT(j);
        let cm_t = cm_t.unwrap();
        let mut transcript = Sponge::new(c);
        let bits = ChallengeGadgetFoldPotSuper::get_challenge_native(
            &mut transcript,
            &nova.pp_hash,
            &st.run_u,
            &st.u_i,
            &cm_t,
        );
        let (r, r_fq) = (challenge_to_fr(&bits), fq_from_bits(&bits).unwrap());
        let old = &st.run_u.vec_inst[j];
        let next = NIFSFoldPot::verify(&r, old, &st.u_i, &cm_t);
        let x_w = cf_public_values(&r_fq, &old.cm_w, &st.u_i.cm_w, &next.cm_w);
        let x_e = cf_public_values(&r_fq, &old.cm_e, &cm_t, &next.cm_e);
        let x_f = cf_public_values(&r_fq, &old.cm_f, &st.u_i.cm_f, &next.cm_f);
        let folds = nova
            .cf
            .fold_circuits(&mut transcript, &nova.pp_hash, &st.cf_w, &st.cf_u, &x_w, &x_e, &x_f, &cf)
            .unwrap();
        let mut u = st.run_u.dup();
        u.vec_inst[j] = next;
        u.pc_i = pc_i1;
        u.x_1 = u.x_1.plus(&r.times(&st.u_i.x[1]));
        if nova.b_full_mode {
            u.x_2 = Some(u.x_2.unwrap().plus(&r.times(&st.u_i.x[2])));
        }
        x.push(u.hash(&sponge, &nova.pp_hash, &i1, &pc_i1, &nova.z_0, &z_i1));
        x.push(folds.f.instance.hash_cyclefold(&sponge, &nova.pp_hash));
        if let (Some(cp_w), Some(cp_u)) = (&st.cp_w, &st.cp_u) {
            let values = cyclepair_values(next_part2.cyclepair_input.as_ref().unwrap());
            let fold = nova.cp.fold_circuit(&mut transcript, &nova.pp_hash, cp_w, cp_u, &values, &cp).unwrap();
            x.push(fold.instance.hash_cyclefold(&sponge, &nova.pp_hash));
        }
    }
    SuperInput { external_inputs: vec![], other_instances: false, cm_f, next_part2, w, x, blinds: no_blinds(), cf, cp }
}

/// Two circuits with keys by `key`, and the digest that the verifier computes of them.
fn step_circuits<CS1: CommitmentScheme<Fr, G1>>(x_len: usize, key: impl Fn() -> CS1) -> Vec<StepCircuit<CS1>> {
    (0..2)
        .map(|_| StepCircuit {
            r1cs: small_system(x_len),
            cs_pp: key(),
            state_len: 2,
            external_inputs_len: 0,
            size_f: 2,
            start_f: 1,
        })
        .collect()
}

fn verifier_params(x_len: usize) -> VerifierParamsFoldPotSuper {
    let vp = |n: u64| VerifierParamsFoldPot {
        poseidon_config: config(),
        r1cs: small_system(x_len),
        cf_r1cs: small_system(7),
        pp_hash: Fr::from_u64(n),
    };
    VerifierParamsFoldPotSuper { vec_vp: vec![vp(11), vp(12)], cp_r1cs: Some(small_system(32)) }
}

fn pedersen(n: usize, hiding: bool, rng: &mut impl Rng) -> Pedersen {
    let generators = (0..n).map(|_| g1(G1Projective::rand(rng))).collect();
    Pedersen { hiding, h: g1(G1Projective::rand(rng)), generators }
}

type Single = FoldPot<Pedersen, PedersenGrumpkin>;

fn single(hash_cm_f: &Fr) -> Single {
    let rng = &mut test_rng();
    let cf = pair_context(7, rng);
    let prover = ProverParamsFoldPot {
        poseidon_config: config(),
        hiding: false,
        cs_pp: pedersen(6, false, rng),
        cf,
        size_f: 2,
        start_f: 1,
        cs_pp_len: 6,
    };
    let part2 = ZiPartTwoInst::new(&Fr::zero(), &Fr::zero(), false, 1);
    let z_0 = vec![*hash_cm_f, part2.hash(&config())];
    FoldPot::init(prover, small_system(2), 2, 0, &Fr::from_u64(77), &z_0, &part2)
}

fn fixed_memory(nova: &Single, k: u64) -> G1 {
    let w = small_values(&Fr::from_u64(k), &Fr::from_u64(k + 1));
    WitnessFoldPot::new(&w, 2, false, &no_blinds(), 2, 1).commit(&nova.cs_pp, &vec![]).unwrap().cm_f
}

/// The input of the next step, with the public values that the augmented circuit gives.
fn single_input(nova: &Single, k: u64) -> StepInput {
    let st = &nova.state;
    let c = &nova.poseidon_config;
    let w = small_values(&Fr::from_u64(k), &Fr::from_u64(k + 1));
    let cm_f = absorb_g1(&fixed_memory(nova, k));
    let mut next_part2 = st.zi_part2_inst.dup();
    next_part2.f_result = Fr::from_u64(k);
    let cf = cycle_assignments(k);
    let z_i1 = vec![chain(c, &st.z_i[0], &cm_f), next_part2.hash(c)];
    let (_t, cm_t) = nova.compute_cmT();
    let cm_t = cm_t.unwrap();
    let mut transcript = Sponge::new(c);
    let bits =
        ChallengeGadgetFoldPot::get_challenge_native(&mut transcript, &nova.pp_hash, &st.run_u, &st.u_i, &cm_t);
    let (r, r_fq) = (challenge_to_fr(&bits), fq_from_bits(&bits).unwrap());
    let next = NIFSFoldPot::verify(&r, &st.run_u, &st.u_i, &cm_t);
    let mut circuit = AugmentedFCircuitFoldPot::empty(c, 2);
    circuit.pp_hash = Some(nova.pp_hash);
    circuit.i = Some(st.i);
    circuit.z_0 = Some(nova.z_0.clone());
    circuit.z_i = Some(st.z_i.clone());
    circuit.u_i_cm_w = Some(st.u_i.cm_w);
    circuit.u_i_cm_f = Some(st.u_i.cm_f);
    circuit.running = Some(st.run_u.dup());
    circuit.next_cm_e = Some(next.cm_e);
    circuit.next_cm_w = Some(next.cm_w);
    circuit.next_cm_f = Some(next.cm_f);
    circuit.cm_t = Some(cm_t);
    if st.i != Fr::zero() {
        let x_w = cf_public_values(&r_fq, &st.run_u.cm_w, &st.u_i.cm_w, &next.cm_w);
        let x_e = cf_public_values(&r_fq, &st.run_u.cm_e, &cm_t, &next.cm_e);
        let x_f = cf_public_values(&r_fq, &st.run_u.cm_f, &st.u_i.cm_f, &next.cm_f);
        let folds = nova
            .cf
            .fold_circuits(&mut transcript, &nova.pp_hash, &st.cf_w, &st.cf_u, &x_w, &x_e, &x_f, &cf)
            .unwrap();
        circuit.cf_running = Some(st.cf_u.dup());
        circuit.cf1_u_i_cm_w = Some(folds.w.incoming.cm_w);
        circuit.cf2_u_i_cm_w = Some(folds.e.incoming.cm_w);
        circuit.cf3_u_i_cm_w = Some(folds.f.incoming.cm_w);
        circuit.cf1_cm_t = Some(folds.w.cm_t);
        circuit.cf2_cm_t = Some(folds.e.cm_t);
        circuit.cf3_cm_t = Some(folds.f.cm_t);
    }
    let values: StepValues = circuit.values();
    let (x, cf_x) = values.outputs(c, &z_i1);
    circuit.x = Some(x);
    circuit.cf_x = Some(cf_x);
    assert_eq!(circuit.generate_constraints(&z_i1).unwrap(), (x, cf_x));
    circuit.cf_x = Some(cf_x.plus(&Fr::one()));
    assert!(circuit.generate_constraints(&z_i1).is_err());
    StepInput {
        external_inputs: vec![],
        other_instances: false,
        cm_f,
        next_part2,
        w,
        x: vec![x, cf_x],
        blinds: no_blinds(),
        cf,
    }
}

fn single_verifier() -> VerifierParamsFoldPot {
    VerifierParamsFoldPot {
        poseidon_config: config(),
        r1cs: small_system(2),
        cf_r1cs: small_system(7),
        pp_hash: Fr::from_u64(77),
    }
}

#[test]
fn mod_test_ivc() {
    let num_steps = 5;
    // the first pass computes the chain of the fixed memories
    let first = single(&Fr::zero());
    let mut hash_cm_f = Fr::zero();
    for k in 0..num_steps {
        hash_cm_f = first.compute_step_hc_cmF(&hash_cm_f, &fixed_memory(&first, k));
    }
    let mut nova = single(&hash_cm_f);
    for k in 0..num_steps {
        let inp = single_input(&nova, k);
        nova.prove_step(&inp).unwrap();
    }
    assert_eq!(nova.state.i, Fr::from_u64(num_steps));
    let (running, incoming, cyclefold) = nova.instances();
    let vp = single_verifier();
    let z_i = nova.state();
    assert!(vp.verify(&nova.z_0, &z_i, &nova.state.i, running, incoming, cyclefold).is_ok());
    // another number of steps or another state is refused
    let four = Fr::from_u64(4);
    assert!(matches!(
        vp.verify(&nova.z_0, &z_i, &four, running, incoming, cyclefold),
        Err(Error::IVCVerificationFail),
    ));
    assert!(vp.verify(&nova.z_0, &nova.z_0, &nova.state.i, running, incoming, cyclefold).is_err());
    // no step was taken
    assert!(vp.verify(&nova.z_0, &nova.z_0, &Fr::zero(), running, incoming, cyclefold).is_ok());
    assert!(vp.verify(&nova.z_0, &z_i, &Fr::zero(), running, incoming, cyclefold).is_err());
}

#[test]
fn unsatisfied_step_is_not_accepted() {
    let mut nova = single(&Fr::zero());
    for k in 0..3 {
        let mut inp = single_input(&nova, k);
        if k == 2 {
            inp.w[1] = inp.w[1].plus(&Fr::one());
        }
        nova.prove_step(&inp).unwrap();
    }
    let (running, incoming, cyclefold) = nova.instances();
    let res = single_verifier().verify(&nova.z_0, &nova.state(), &nova.state.i, running, incoming, cyclefold);
    assert!(matches!(res, Err(Error::NotSatisfied)));
}

#[test]
fn step_errors() {
    let mut nova = single(&Fr::zero());
    let inp = single_input(&nova, 3);
    let mut wrong = single_input(&nova, 3);
    wrong.x[0] = wrong.x[0].plus(&Fr::one());
    assert!(matches!(nova.prove_step(&wrong), Err(Error::NotEqual)));
    let mut wrong = single_input(&nova, 3);
    wrong.external_inputs.push(Fr::one());
    assert!(matches!(nova.prove_step(&wrong), Err(Error::NotSameLength(_, _, _, _))));
    let mut wrong = single_input(&nova, 3);
    wrong.other_instances = true;
    assert!(matches!(nova.prove_step(&wrong), Err(Error::NoMultiInstances)));
    assert_eq!(nova.state.i, Fr::zero());
    nova.prove_step(&inp).unwrap();
    assert_eq!(nova.state.i, Fr::one());
    nova.hiding = true;
    let next = single_input(&nova, 4);
    assert!(matches!(nova.prove_step(&next), Err(Error::IncorrectBlinding(true, _))));
}

#[test]
fn preprocessing_takes_given_keys() {
    let rng = &mut test_rng();
    let mut prep = PreprocessorParamFoldPot::<Pedersen, PedersenGrumpkin>::new(&config(), false, 9, 3);
    assert_eq!(prep.start_f, 12);
    let (r1cs, cf_r1cs) = (small_system::<Fr>(2), small_system::<Fq>(7));
    // the lookup table is the longest thing to commit to
    assert_eq!(prep.key_lengths(&r1cs, &cf_r1cs).0, 10);
    prep.cs_pp = Some(pedersen(10, false, rng));
    prep.cf_cs_pp = Some(pair_context(7, rng).cs);
    let fresh = (pedersen(20, false, rng), pair_context(7, rng).cs);
    let pp = prep.preprocess(&r1cs, cf_r1cs, fresh);
    assert_eq!(pp.cs_pp.generators.len(), 10);
    assert_eq!(pp.size_f, 3);
}

type Super = FoldPotSuper<Pedersen, PedersenGrumpkin>;

fn super_nova(full: bool, hash_cm_f: &Fr) -> Super {
    let x_len = if full { 3 } else { 2 };
    let circuits = step_circuits(x_len, || pedersen(6, false, &mut test_rng()));
    let rng = &mut test_rng();
    let (cf, cp) = (pair_context(7, rng), pair_context(32, rng));
    let (ch, rc) = (Fr::from_u64(3), Fr::from_u64(4));
    let part2 = ZiPartTwoInst::new(&ch, &rc, full, 1);
    let z_0 = vec![*hash_cm_f, part2.hash(&config())];
    let pp_hash = verifier_params(x_len).pp_hash();
    FoldPotSuper::init_adv(circuits, config(), false, cf, cp, &pp_hash, &z_0, 0, full, &ch, &rc, 1)
}

/// The second part of the next state.
fn next_part2(nova: &Super, k: u64) -> ZiPartTwoInst {
    let mut part2 = nova.state.zi_part2_inst.dup();
    part2.f_result = Fr::from_u64(k);
    if nova.b_full_mode {
        part2.cyclepair_input = Some((0..160).map(|n| Fr::from_u64(n + k)).collect());
    }
    part2
}

/// Steps by the given circuits.
fn super_run(full: bool, pcs: &[usize]) -> Super {
    let first = super_nova(full, &Fr::zero());
    let mut hash_cm_f = Fr::zero();
    for (k, pc) in pcs.iter().enumerate() {
        let circuit = &first.circuits[*pc];
        let w = small_values(&Fr::from_u64(k as u64), &Fr::from_u64(k as u64 + 1));
        let wit = WitnessFoldPot::new(&w, 2, false, &no_blinds(), circuit.size_f, circuit.start_f);
        let cm_f = wit.commit(&circuit.cs_pp, &vec![]).unwrap().cm_f;
        let (h, _) = first.compute_step_hc_cmF(&hash_cm_f, &cm_f);
        assert_eq!(compute_step_hc_cmF_adv(&hash_cm_f, &cm_f, &config()).0, h);
        hash_cm_f = h;
    }
    let mut nova = super_nova(full, &hash_cm_f);
    for (k, pc) in pcs.iter().enumerate() {
        nova.pc_i1 = Fr::from_u64(*pc as u64);
        let part2 = next_part2(&nova, k as u64);
        let inp = super_input(&nova, *pc, k as u64, part2);
        nova.prove_step(&inp).unwrap();
    }
    nova
}

fn accept(nova: &Super, num_steps: u64) -> Result<(), Error> {
    let x_len = if nova.b_full_mode { 3 } else { 2 };
    let (running, incoming, cyclefold, cyclepair) = nova.instances();
    verifier_params(x_len).verify(
        &nova.z_0,
        &nova.state(),
        &Fr::from_u64(num_steps),
        running,
        incoming,
        cyclefold,
        cyclepair,
    )
}

#[test]
fn mod_super_test_ivc() {
    let nova = super_run(false, &[0, 0, 0, 0, 0]);
    assert_eq!(nova.state.i, Fr::from_u64(5));
    assert!(accept(&nova, 5).is_ok());
}

#[test]
fn super_with_two_circuits() {
    for full in [false, true] {
        let nova = super_run(full, &[0, 1, 1, 0]);
        assert_eq!(nova.state.i, Fr::from_u64(4));
        assert!(accept(&nova, 4).is_ok());
        assert!(matches!(accept(&nova, 3), Err(Error::IVCVerificationFail)));
        // the chain of the fixed memories is the state's first entry
        assert_ne!(nova.state.z_i[0], Fr::zero());
    }
}

#[test]
fn one_super_step_is_accepted() {
    let nova = super_run(true, &[1]);
    assert!(accept(&nova, 1).is_ok());
}

#[test]
fn one_super_step_satisfies_the_decider() {
    for (full, pc) in [(false, 0), (false, 1), (true, 1)] {
        let nova = super_run(full, &[pc]);
        let mut c = Phase1Circuit::from_nova(nova, &G1::Infinity, &Fr::zero()).unwrap();
        assert!(c.generate_constraints_adv().is_ok());
        // the folded commitments are held to the fold
        let pc = pc as usize;
        let cm_w = c.next_u.vec_inst[pc].cm_w;
        c.next_u.vec_inst[pc].cm_w = cm_w.plus(&cm_w);
        assert!(matches!(c.generate_constraints_adv(), Err(Error::NotSatisfied)));
        c.next_u.vec_inst[pc].cm_w = cm_w;
        assert!(c.generate_constraints_adv().is_ok());
    }
}

#[test]
fn evaluation_point_of_all_witnesses() {
    let u = super_run(false, &[0, 1]).state.run_u;
    let p = u.vec_inst[0].cm_w;
    let native = |com_all: &G1| KZGChallengesGadgetSuper::get_challenge_native(&config(), &u, com_all);
    assert_eq!(native(&p), KZGChallengesGadgetSuper::get_challenge_gadget(&config(), &u, &p));
    assert_ne!(native(&p), native(&p.plus(&p)));
    // the commitment to all witnesses, then those to the witnesses, errors and fixed memories
    let mut t = Sponge::new(&config());
    t.absorb(&absorb_g1(&p));
    let picks: [fn(&CommittedInstanceFoldPot) -> G1; 3] = [|i| i.cm_w, |i| i.cm_e, |i| i.cm_f];
    for pick in picks {
        for i in &u.vec_inst {
            t.absorb(&absorb_g1(&pick(i)));
        }
    }
    assert_eq!(native(&p), t.squeeze_one());
}

#[test]
fn super_fold_is_the_next_state() {
    let nova = super_run(false, &[0, 1, 1]);
    let (u, w, r, cm_t) = nova.gen_next_folded().unwrap();
    let expected = NIFSFoldPot::verify(&r, &nova.state.run_u.vec_inst[1], &nova.state.u_i, &cm_t);
    assert_eq!(format!("{:?}", u.vec_inst[1]), format!("{:?}", expected));
    assert_eq!(format!("{:?}", u.vec_inst[0]), format!("{:?}", nova.state.run_u.vec_inst[0]));
    assert_eq!(w.vec_wit.len(), 2);
    assert_eq!(w.vec_wit[1].w[0], nova.state.run_w.vec_wit[1].w[0].plus(&r.times(&nova.state.w_i.w[0])));
    // the folded witness satisfies the relaxed system
    let z = R1CS::assemble(&u.vec_inst[1].u, &u.vec_inst[1].x, &w.vec_wit[1].w);
    assert!(small_system::<Fr>(2).check_relaxed(&w.vec_wit[1].e, &u.vec_inst[1].u, &z).is_ok());
}

#[test]
fn super_step_errors() {
    let mut nova = super_run(true, &[0]);
    nova.pc_i1 = Fr::one();
    let part2 = next_part2(&nova, 8);
    let inp = super_input(&nova, 1, 8, part2);
    for k in 0..3 {
        let part2 = next_part2(&nova, 8);
        let mut wrong = super_input(&nova, 1, 8, part2);
        wrong.x[k] = wrong.x[k].plus(&Fr::one());
        let mut other = super_run(true, &[0]);
        other.pc_i1 = Fr::one();
        assert!(matches!(other.prove_step(&wrong), Err(Error::NotEqual)));
        assert_eq!(other.state.i, Fr::one());
    }
    let mut wrong = super_input(&nova, 1, 8, next_part2(&nova, 8));
    wrong.other_instances = true;
    assert!(matches!(nova.prove_step(&wrong), Err(Error::NoMultiInstances)));
    nova.prove_step(&inp).unwrap();
    assert_eq!(nova.state.i, Fr::from_u64(2));
    assert!(accept(&nova, 2).is_ok());
}

#[test]
fn digest_of_all_parameters() {
    let vp = verifier_params(2);
    let mut bytes = vec![0u8; 64];
    bytes[0] = 11;
    bytes[32] = 12;
    let d = <sha3::Sha3_256 as sha3::Digest>::digest(&bytes);
    assert_eq!(vp.pp_hash(), fr(ArkFr::from_le_bytes_mod_order(&d)));
}
