use ark_bn254::Bn254;
use ark_bn254::Fq as ArkFq;
use ark_bn254::Fr as ArkFr;
use ark_bn254::G1Affine;
use ark_bn254::G1Projective;
use ark_bn254::G2Projective;
use ark_crypto_primitives::sponge::poseidon::find_poseidon_ark_and_mds;
use ark_ec::AffineRepr;
use ark_ec::CurveGroup;
use ark_ec::PrimeGroup;
use ark_ec::pairing::Pairing;
use ark_ff::BigInt;
use ark_ff::BigInteger;
use ark_ff::PrimeField;
use ark_groth16::Groth16;
use ark_r1cs_std::alloc::AllocVar;
use ark_r1cs_std::eq::EqGadget;
use ark_r1cs_std::fields::fp::FpVar;
use ark_relations::r1cs::ConstraintSynthesizer;
use ark_relations::r1cs::ConstraintSystemRef;
use ark_relations::r1cs::SynthesisError;
use ark_serialize::CanonicalSerialize;
use ark_snark::SNARK;
use ark_std::UniformRand;
use ark_std::test_rng;
use foldpot::circuits::cf_public_values;
use foldpot::circuits::challenge_to_fr;
use foldpot::commitment::BatchOpeningProver;
use foldpot::commitment::CommitmentScheme;
use foldpot::commitment::Elements;
use foldpot::commitment::KZGProof;
use foldpot::commitment::OpeningProver;
use foldpot::commitment::OpeningVerifier;
use foldpot::commitment::PedersenGrumpkin;
use foldpot::curve::Fq2;
use foldpot::curve::G1;
use foldpot::curve::G2;
use foldpot::curve::Grumpkin;
use foldpot::cyclefold::CycleAssignments;
use foldpot::cyclefold::PairAssignment;
use foldpot::cyclefold::PairContext;
use foldpot::decider::DeciderFoldPot;
use foldpot::decider::DeciderFoldPotSuper;
use foldpot::decider::DeciderVerifierParams;
use foldpot::decider::Openings;
use foldpot::decider::Proof;
use foldpot::decider::point2_to_eth_format;
use foldpot::decider::point_to_eth_format;
use foldpot::decider::prepare_calldata;
use foldpot::decider_circuit::DeciderEthCircuitSuper;
use foldpot::error::Error;
use foldpot::error::ErrorView;
use foldpot::field::Field;
use foldpot::field_fq::Fq;
use foldpot::field_fr::Fr;
use foldpot::foldpot::FoldPot;
use foldpot::foldpot::ProverParamsFoldPot;
use foldpot::foldpot::StepInput;
use foldpot::foldpot_super::ChallengeGadgetFoldPotSuper;
use foldpot::foldpot_super::FoldPotSuper;
use foldpot::foldpot_super::StepCircuit;
use foldpot::foldpot_super::SuperInput;
use foldpot::foldpot_super::cyclepair_values;
use foldpot::foldpot_super::field_to_usize;
use foldpot::instance::Blinds;
use foldpot::instance::CommittedInstanceFoldPot;
use foldpot::instance::WitnessFoldPot;
use foldpot::instance_super::CommittedInstanceFoldPotSuper;
use foldpot::limbs::absorb_g1;
use foldpot::limbs::fq_from_bits;
use foldpot::limbs::inputize;
use foldpot::nifs::ChallengeGadgetFoldPot;
use foldpot::nifs::NIFSFoldPot;
use foldpot::part_two::ZiPartTwoInst;
use foldpot::part_two::chain;
use foldpot::r1cs::R1CS;
use foldpot::r1cs::SparseMatrix;
use foldpot::sponge::PoseidonConfig;
use foldpot::sponge::Sponge;
use rand::Rng;
use rand::SeedableRng;
use rand::rngs::StdRng;

fn fr(x: ArkFr) -> Fr {
    Fr::from_limbs(x.into_bigint().0)
}

fn fq(x: ArkFq) -> Fq {
    Fq::from_limbs(x.into_bigint().0)
}

fn g1(p: G1Projective) -> G1 {
    match p.into_affine().xy() {
        None => G1::Infinity,
        Some((x, y)) => G1::Point(fq(x), fq(y)),
    }
}

fn grumpkin(p: ark_grumpkin::Projective) -> Grumpkin {
    match p.into_affine().xy() {
        None => Grumpkin::Infinity,
        Some((x, y)) => Grumpkin::Point(fr(x), fr(y)),
    }
}

/// The parameters with rate four and the rounds for 128 bits of security.
fn config() -> PoseidonConfig {
    let (ark, mds) = find_poseidon_ark_and_mds::<ArkFr>(254, 4, 8, 60, 0);
    let rows = |m: Vec<Vec<ArkFr>>| m.into_iter().map(|r| r.into_iter().map(fr).collect()).collect();
    PoseidonConfig { full_rounds: 8, partial_rounds: 60, alpha: 5, ark: rows(ark), mds: rows(mds), rate: 4, capacity: 1 }
}

/// A system with `l` public values and the secret values `a, b, c, d`: `a * a == b` and
/// `c * u == d`.
fn small_system<F: Field>(l: usize) -> R1CS<F> {
    let m = |cols: [usize; 2]| SparseMatrix {
        n_rows: 2,
        n_cols: l + 5,
        coeffs: cols.iter().map(|k| vec![(F::one(), *k)]).collect(),
    };
    let w = l + 1;
    R1CS { l, a: m([w, w + 2]), b: m([w, 0]), c: m([w + 1, w + 3]) }
}

/// Secret values that satisfy the system.
fn small_values<F: Field>(x: &F, y: &F) -> Vec<F> {
    vec![*x, x.times(x), *y, *y]
}

fn pair_context(l: usize, rng: &mut impl Rng) -> PairContext<PedersenGrumpkin> {
    let generators = (0..4).map(|_| grumpkin(ark_grumpkin::Projective::rand(rng))).collect();
    let h = grumpkin(ark_grumpkin::Projective::rand(rng));
    PairContext { r1cs: small_system(l), cs: PedersenGrumpkin { hiding: false, h, generators }, hiding: false }
}

fn pair_assignment(k: u64) -> PairAssignment {
    PairAssignment {
        w: small_values(&Fq::from_u64(k + 2), &Fq::from_u64(k + 3)),
        r_w: Fq::zero(),
        r_e: Fq::zero(),
    }
}

fn cycle_assignments(k: u64) -> CycleAssignments {
    CycleAssignments { w: pair_assignment(k), e: pair_assignment(k + 10), f: pair_assignment(k + 20) }
}

fn no_blinds() -> Blinds {
    Blinds { r_w: Fr::zero(), r_e: Fr::zero(), r_f: Fr::zero() }
}

/// The input of the next step by the circuit `pc`, with the public values that the
/// augmented circuit would give.
fn super_input<CS1: CommitmentScheme<Fr, G1>>(
    nova: &FoldPotSuper<CS1, PedersenGrumpkin>,
    pc: usize,
    k: u64,
    next_part2: ZiPartTwoInst,
) -> SuperInput {
    let st = &nova.state;
    let c = &nova.poseidon_config;
    let w = small_values(&Fr::from_u64(k), &Fr::from_u64(k + 1));
    let circuit = &nova.circuits[pc];
    let wit = WitnessFoldPot::new(&w, 2, nova.hiding, &no_blinds(), circuit.size_f, circuit.start_f);
    let cm_f = absorb_g1(&wit.commit(&circuit.cs_pp, &vec![]).unwrap().cm_f);
    let (cf, cp) = (cycle_assignments(k), pair_assignment(k + 30));
    let z_i1 = vec![chain(c, &st.z_i[0], &cm_f), next_part2.hash(c)];
    let pc_i1 = Fr::from_u64(pc as u64);
    let i1 = st.i.plus(&Fr::one());
    let sponge = Sponge::new(c);
    let x_len = if nova.b_full_mode { 3 } else { 2 };
    let mut x = Vec::new();
    if st.i == Fr::zero() {
        let mut u = CommittedInstanceFoldPotSuper::dummy(x_len, nova.circuits.len(), nova.b_full_mode);
        u.pc_i = pc_i1;
        x.push(u.hash(&sponge, &nova.pp_hash, &i1, &pc_i1, &nova.z_0, &z_i1));
        x.push(st.cf_u.hash_cyclefold(&sponge, &nova.pp_hash));
        if let Some(u) = &st.cp_u {
            x.push(u.hash_cyclefold(&sponge, &nova.pp_hash));
        }
    } else {
        let j = field_to_usize(&st.pc_i);
        let (_t, cm_t) = nova.compute_cmT(j);
        let cm_t = cm_t.unwrap();
        let mut transcript = Sponge::new(c);
        let bits = ChallengeGadgetFoldPotSuper::get_challenge_native(
            &mut transcript,
            &nova.pp_hash,
            &st.run_u,
            &st.u_i,
            &cm_t,
        );
        let (r, r_fq) = (challenge_to_fr(&bits), fq_from_bits(&bits).unwrap());
        let old = &st.run_u.vec_inst[j];
        let next = NIFSFoldPot::verify(&r, old, &st.u_i, &cm_t);
        let x_w = cf_public_values(&r_fq, &old.cm_w, &st.u_i.cm_w, &next.cm_w);
        let x_e = cf_public_values(&r_fq, &old.cm_e, &cm_t, &next.cm_e);
        let x_f = cf_public_values(&r_fq, &old.cm_f, &st.u_i.cm_f, &next.cm_f);
        let folds = nova
            .cf
            .fold_circuits(&mut transcript, &nova.pp_hash, &st.cf_w, &st.cf_u, &x_w, &x_e, &x_f, &cf)
            .unwrap();
        let mut u = st.run_u.dup();
        u.vec_inst[j] = next;
        u.pc_i = pc_i1;
        u.x_1 = u.x_1.plus(&r.times(&st.u_i.x[1]));
        if nova.b_full_mode {
            u.x_2 = Some(u.x_2.unwrap().plus(&r.times(&st.u_i.x[2])));
        }
        x.push(u.hash(&sponge, &nova.pp_hash, &i1, &pc_i1, &nova.z_0, &z_i1));
        x.push(folds.f.instance.hash_cyclefold(&sponge, &nova.pp_hash));
        if let (Some(cp_w), Some(cp_u)) = (&st.cp_w, &st.cp_u) {
            let values = cyclepair_values(next_part2.cyclepair_input.as_ref().unwrap());
            let fold = nova.cp.fold_circuit(&mut transcript, &nova.pp_hash, cp_w, cp_u, &values, &cp).unwrap();
            x.push(fold.instance.hash_cyclefold(&sponge, &nova.pp_hash));
        }
    }
    SuperInput { external_inputs: vec![], other_instances: false, cm_f, next_part2, w, x, blinds: no_blinds(), cf, cp }
}

fn ark(x: &Fr) -> ArkFr {
    ArkFr::new(BigInt(x.limbs()))
}

fn ark_point(p: &G1) -> G1Affine {
    let base = |x: &Fq| ArkFq::new(BigInt(x.limbs()));
    match p {
        G1::Infinity => G1Affine::identity(),
        G1::Point(x, y) => G1Affine::new_unchecked(base(x), base(y)),
    }
}

/// Polynomial commitments with the powers of a secret in both groups.
struct Kzg {
    powers: Vec<G1Affine>,
    tau_g2: G2Projective,
}

impl Kzg {
    fn new(n: usize, rng: &mut impl Rng) -> Kzg {
        let tau = ArkFr::rand(rng);
        let mut t = ArkFr::from(1u64);
        let mut powers = Vec::new();
        for _ in 0..n {
            powers.push((G1Projective::generator() * t).into_affine());
            t *= tau;
        }
        Kzg { powers, tau_g2: G2Projective::generator() * tau }
    }

    fn dup(&self) -> Kzg {
        Kzg { powers: self.powers.clone(), tau_g2: self.tau_g2 }
    }

    fn point(&self, v: &[ArkFr]) -> Option<G1Projective> {
        if v.len() > self.powers.len() {
            return None;
        }
        Some(v.iter().zip(self.powers.iter()).map(|(a, p)| *p * *a).sum())
    }

    fn open(&self, z: ArkFr, v: &[ArkFr]) -> Result<KZGProof, Error> {
        // the quotient by synthetic division, and the value as what is left
        let mut quotient = vec![ArkFr::from(0u64); v.len()];
        let mut acc = ArkFr::from(0u64);
        for k in (0..v.len()).rev() {
            quotient[k] = acc;
            acc = acc * z + v[k];
        }
        match self.point(&quotient) {
            None => Err(Error::CommitmentFail),
            Some(p) => Ok(KZGProof { eval: fr(acc), proof: g1(p) }),
        }
    }
}

impl CommitmentScheme<Fr, G1> for Kzg {
    fn commit_spec(&self, _v: Elements<Fr>, _blind: Fr) -> Option<G1> {
        unreachable!()
    }

    fn commit(&self, v: &Vec<Fr>, _blind: &Fr) -> Option<G1> {
        self.point(&v.iter().map(ark).collect::<Vec<_>>()).map(g1)
    }
}

impl OpeningProver<KZGProof> for Kzg {
    fn prove_spec(&self, _challenge: Fr, _v: Elements<Fr>) -> Result<KZGProof, ErrorView> {
        unreachable!()
    }

    fn prove_with_challenge(&self, challenge: &Fr, v: &Vec<Fr>) -> Result<KZGProof, Error> {
        self.open(ark(challenge), &v.iter().map(ark).collect::<Vec<_>>())
    }
}

impl BatchOpeningProver<KZGProof> for Kzg {
    fn batch_prove_spec(&self, _challenge: Fr, _v: Elements<Elements<Fr>>, _rc: Fr) -> Result<KZGProof, ErrorView> {
        unreachable!()
    }

    fn batch_prove_with_challenge(&self, challenge: &Fr, v: &Vec<Vec<Fr>>, rc: &Fr) -> Result<KZGProof, Error> {
        let n = v.iter().map(|p| p.len()).max().unwrap_or(0);
        let mut sum = vec![ArkFr::from(0u64); n];
        let mut factor = ArkFr::from(1u64);
        for p in v {
            for k in 0..p.len() {
                sum[k] += factor * ark(&p[k]);
            }
            factor *= ark(rc);
        }
        self.open(ark(challenge), &sum)
    }
}

impl OpeningVerifier<KZGProof> for Kzg {
    fn verify_spec(&self, _challenge: Fr, _cm: G1, _proof: KZGProof) -> Result<(), ErrorView> {
        unreachable!()
    }

    fn verify_with_challenge(&self, challenge: &Fr, cm: &G1, proof: &KZGProof) -> Result<(), Error> {
        let left = ark_point(cm).into_group() - G1Projective::generator() * ark(&proof.eval);
        let right = self.tau_g2 - G2Projective::generator() * ark(challenge);
        if Bn254::pairing(left, G2Projective::generator()) == Bn254::pairing(ark_point(&proof.proof), right) {
            Ok(())
        } else {
            Err(Error::NotEqual)
        }
    }
}

/// A circuit with the given public inputs.
#[derive(Clone)]
struct PublicCircuit {
    inputs: Vec<ArkFr>,
}

impl ConstraintSynthesizer<ArkFr> for PublicCircuit {
    fn generate_constraints(self, cs: ConstraintSystemRef<ArkFr>) -> Result<(), SynthesisError> {
        let mut sum = FpVar::new_constant(cs.clone(), ArkFr::from(0u64))?;
        let total = self.inputs.iter().sum::<ArkFr>();
        for x in self.inputs {
            sum += FpVar::new_input(cs.clone(), || Ok(x))?;
        }
        let witness = FpVar::new_witness(cs, || Ok(total))?;
        (&witness * &sum).enforce_equal(&(&sum * &sum))
    }
}

/// The key and the proof of a circuit with the given public inputs.
fn snark(inputs: &[Fr]) -> (Vec<u8>, Vec<u8>) {
    let rng = &mut StdRng::seed_from_u64(7);
    let circuit = PublicCircuit { inputs: inputs.iter().map(ark).collect() };
    let (pk, vk) = Groth16::<Bn254>::circuit_specific_setup(circuit.clone(), rng).unwrap();
    let proof = Groth16::<Bn254>::prove(&pk, circuit, rng).unwrap();
    let (mut key, mut bytes) = (Vec::new(), Vec::new());
    vk.serialize_uncompressed(&mut key).unwrap();
    proof.serialize_uncompressed(&mut bytes).unwrap();
    (key, bytes)
}

type Single = FoldPot<Kzg, PedersenGrumpkin>;

fn single(kzg: &Kzg) -> Single {
    let prover = ProverParamsFoldPot {
        poseidon_config: config(),
        hiding: false,
        cs_pp: kzg.dup(),
        cf: pair_context(7, &mut test_rng()),
        size_f: 2,
        start_f: 1,
        cs_pp_len: 8,
    };
    let part2 = ZiPartTwoInst::new(&Fr::zero(), &Fr::zero(), false, 1);
    let z_0 = vec![Fr::from_u64(6), part2.hash(&config())];
    FoldPot::init(prover, small_system(2), 2, 0, &Fr::from_u64(77), &z_0, &part2)
}

/// The last fold of the computation: the challenge and the commitment to the cross term.
fn last_fold(nova: &Single) -> (Fr, Fq, Sponge, G1) {
    let st = &nova.state;
    let (_t, cm_t) = nova.compute_cmT();
    let cm_t = cm_t.unwrap();
    let mut transcript = Sponge::new(&nova.poseidon_config);
    let bits =
        ChallengeGadgetFoldPot::get_challenge_native(&mut transcript, &nova.pp_hash, &st.run_u, &st.u_i, &cm_t);
    (challenge_to_fr(&bits), fq_from_bits(&bits).unwrap(), transcript, cm_t)
}

fn step(nova: &mut Single, k: u64) {
    let st = &nova.state;
    let c = &nova.poseidon_config;
    let w = small_values(&Fr::from_u64(k), &Fr::from_u64(k + 1));
    let wit = WitnessFoldPot::new(&w, 2, false, &no_blinds(), 2, 1);
    let cm_f = absorb_g1(&wit.commit(&nova.cs_pp, &vec![]).unwrap().cm_f);
    let next_part2 = st.zi_part2_inst.dup();
    let cf = cycle_assignments(k);
    let z_i1 = vec![chain(c, &st.z_i[0], &cm_f), next_part2.hash(c)];
    let (r, r_fq, mut transcript, cm_t) = last_fold(nova);
    let next = NIFSFoldPot::verify(&r, &st.run_u, &st.u_i, &cm_t);
    let sponge = Sponge::new(c);
    let x = next.hash(&sponge, &nova.pp_hash, &st.i.plus(&Fr::one()), &nova.z_0, &z_i1);
    let cf_x = if st.i == Fr::zero() {
        st.cf_u.hash_cyclefold(&sponge, &nova.pp_hash)
    } else {
        let x_w = cf_public_values(&r_fq, &st.run_u.cm_w, &st.u_i.cm_w, &next.cm_w);
        let x_e = cf_public_values(&r_fq, &st.run_u.cm_e, &cm_t, &next.cm_e);
        let x_f = cf_public_values(&r_fq, &st.run_u.cm_f, &st.u_i.cm_f, &next.cm_f);
        let folds = nova
            .cf
            .fold_circuits(&mut transcript, &nova.pp_hash, &st.cf_w, &st.cf_u, &x_w, &x_e, &x_f, &cf)
            .unwrap();
        folds.f.instance.hash_cyclefold(&sponge, &nova.pp_hash)
    };
    let inp = StepInput {
        external_inputs: vec![],
        other_instances: false,
        cm_f,
        next_part2,
        w,
        x: vec![x, cf_x],
        blinds: no_blinds(),
        cf,
    };
    nova.prove_step(&inp).unwrap();
}

fn column(v: [u64; 3]) -> Vec<Fr> {
    v.iter().map(|x| Fr::from_u64(*x)).collect()
}

fn instance_inputs(u: &CommittedInstanceFoldPot) -> Vec<Fr> {
    [vec![u.u], u.x.clone(), inputize(&u.cm_e), inputize(&u.cm_w), inputize(&u.cm_f)].concat()
}

/// The circuit's public inputs, where `inst` are those of the instances.
fn public_inputs(pp_hash: &Fr, i: &Fr, z_0: &[Fr], z_i: &[Fr], inst: &[Fr], p: &Proof) -> Vec<Fr> {
    let evals: Vec<Fr> = [1, 0, 2, 3, 4].iter().map(|k| p.kzg_proofs[*k].eval).collect();
    [&[*pp_hash, *i], z_0, z_i, inst, &p.kzg_challenges, &evals, &inputize(&p.cm_t), &[p.r]].concat()
}

struct Decided {
    nova: Single,
    proof: Proof,
    vp: DeciderVerifierParams<Kzg>,
}

fn decided() -> Decided {
    let rng = &mut test_rng();
    let kzg = Kzg::new(8, rng);
    let mut nova = single(&kzg);
    for k in 0..5 {
        step(&mut nova, k);
    }
    let (r, _, _, cm_t) = last_fold(&nova);
    let (t, _) = nova.compute_cmT();
    let st = &nova.state;
    let (w, u) = NIFSFoldPot::fold_instances(&r, &st.run_w, &st.run_u, &st.w_i, &st.u_i, &t, &cm_t);
    let openings = Openings {
        f: w.w[1..3].to_vec(),
        w: w.w,
        e: w.e,
        lkup_col1: column([4, 5, 6]),
        lkup_col2: column([7, 8, 9]),
        challenges: [Fr::from_u64(21), Fr::from_u64(22), Fr::from_u64(23), Fr::from_u64(24)],
    };
    let mut proof = openings.prove(&kzg, vec![], &cm_t, &r).unwrap();
    let z_i = nova.state();
    let inputs = public_inputs(&nova.pp_hash, &st.i, &nova.z_0, &z_i, &instance_inputs(&u), &proof);
    let (snark_vk, snark_proof) = snark(&inputs);
    proof.snark_proof = snark_proof;
    let zero = Fr::zero();
    let kzg_lk_col1 = kzg.commit(&openings.lkup_col1, &zero).unwrap();
    let kzg_lk_col2 = kzg.commit(&openings.lkup_col2, &zero).unwrap();
    let vp = DeciderVerifierParams { pp_hash: nova.pp_hash, snark_vk, cs_vk: kzg, kzg_lk_col1, kzg_lk_col2 };
    Decided { nova, proof, vp }
}

fn verify(d: &Decided, i: &Fr) -> Result<bool, Error> {
    let st = &d.nova.state;
    DeciderFoldPot::verify(&d.vp, i, &d.nova.z_0, &st.z_i, &st.run_u, &st.u_i, &d.proof)
}

#[test]
fn test_decider() {
    let d = decided();
    let verified = verify(&d, &d.nova.state.i).unwrap();
    assert!(verified);
}

#[test]
fn decider_errors() {
    let mut d = decided();
    let i = d.nova.state.i;
    assert!(matches!(verify(&d, &Fr::one()), Err(Error::NotEnoughSteps)));
    assert!(matches!(verify(&d, &Fr::from_u64(4)), Err(Error::SNARKVerificationFail)));
    // an opening that is not shown to the circuit
    d.proof.kzg_proofs[3].proof = d.proof.kzg_proofs[4].proof;
    assert!(matches!(verify(&d, &i), Err(Error::NotEqual)));
    let mut d = decided();
    d.proof.kzg_proofs[0].proof = d.proof.kzg_proofs[1].proof;
    assert!(matches!(verify(&d, &i), Err(Error::NotEqual)));
    let mut d = decided();
    d.proof.snark_proof.truncate(10);
    assert!(matches!(verify(&d, &i), Err(Error::Other(_))));
    let mut d = decided();
    d.vp.snark_vk.truncate(100);
    assert!(matches!(verify(&d, &i), Err(Error::Other(_))));
    // a key that claims to hold more elements than it has bytes for
    let mut d = decided();
    d.vp.snark_vk[448 + 6] = 255;
    assert!(matches!(verify(&d, &i), Err(Error::Other(_))));
}

type Super = FoldPotSuper<Kzg, PedersenGrumpkin>;

fn super_run(kzg: &Kzg, n: u64) -> (Super, ZiPartTwoInst) {
    let rng = &mut test_rng();
    let circuit = StepCircuit {
        r1cs: small_system(2),
        cs_pp: kzg.dup(),
        state_len: 2,
        external_inputs_len: 0,
        size_f: 2,
        start_f: 1,
    };
    let (cf, cp) = (pair_context(7, rng), pair_context(32, rng));
    let (ch, rc) = (Fr::from_u64(3), Fr::from_u64(4));
    let part2 = ZiPartTwoInst::new(&ch, &rc, false, 1);
    let z_0 = vec![Fr::from_u64(5), part2.hash(&config())];
    let pp_hash = Fr::from_u64(99);
    let mut nova =
        FoldPotSuper::init_adv(vec![circuit], config(), false, cf, cp, &pp_hash, &z_0, 0, false, &ch, &rc, 1);
    for k in 0..n {
        let next = nova.state.zi_part2_inst.dup();
        let inp = super_input(&nova, 0, k, next);
        nova.prove_step(&inp).unwrap();
    }
    (nova, part2)
}

#[test]
fn test_decider_super() {
    let rng = &mut test_rng();
    let key_len = DeciderFoldPotSuper::key_size(&vec![8], 3);
    assert_eq!(key_len, 8);
    assert_eq!(DeciderFoldPotSuper::key_size(&vec![1, 2], 5), 6);
    let kzg = Kzg::new(key_len, rng);
    let (nova, part2) = super_run(&kzg, 4);
    let (lk1, lk2) = (column([4, 5, 6]), column([7, 8, 9]));
    let (z_0, z_i, i) = (nova.z_0.clone(), nova.state(), nova.state.i);
    let (running, incoming) = (nova.state.run_u.dup(), nova.state.u_i.dup());
    let circuit = DeciderEthCircuitSuper::from_nova(nova, &part2, &lk1, &lk2).unwrap();
    assert!(circuit.generate_constraints().is_ok());
    let mut proof = DeciderFoldPotSuper::prove(&kzg, &circuit, vec![]).unwrap();
    assert_eq!(proof.kzg_proofs[0].eval, circuit.eval_w);
    assert_eq!(proof.kzg_proofs[1].eval, circuit.eval_e);
    assert_eq!(proof.kzg_proofs[2].eval, circuit.eval_f);
    assert_eq!(proof.kzg_proofs[3].eval, circuit.eval_lkup_col1);
    assert_eq!(proof.kzg_proofs[4].eval, circuit.eval_lkup_col2);
    // 6 + 5 * 3 + 4 * 9
    assert_eq!(circuit.eval_lkup_col1, Fr::from_u64(57));
    let folded = &circuit.end.next_u.vec_inst[0];
    let inst = [instance_inputs(folded), vec![running.x_1, running.pc_i]].concat();
    let pp_hash = Fr::from_u64(99);
    let (snark_vk, snark_proof) = snark(&public_inputs(&pp_hash, &i, &z_0, &z_i, &inst, &proof));
    proof.snark_proof = snark_proof;
    let infinity = G1::Infinity;
    let vp = DeciderVerifierParams { pp_hash, snark_vk, cs_vk: kzg, kzg_lk_col1: infinity, kzg_lk_col2: infinity };
    assert!(DeciderFoldPotSuper::verify(&vp, &i, &z_0, &z_i, &running, &incoming, &proof).unwrap());
    let one = Fr::one();
    let res = DeciderFoldPotSuper::verify(&vp, &one, &z_0, &z_i, &running, &incoming, &proof);
    assert!(matches!(res, Err(Error::NotEnoughSteps)));
    let res = DeciderFoldPotSuper::verify(&vp, &i, &z_i, &z_i, &running, &incoming, &proof);
    assert!(matches!(res, Err(Error::SNARKVerificationFail)));
    proof.kzg_proofs[2].proof = G1::Infinity;
    let res = DeciderFoldPotSuper::verify(&vp, &i, &z_0, &z_i, &running, &incoming, &proof);
    assert!(matches!(res, Err(Error::NotEqual)));
}

#[test]
fn decider_circuit_refuses_other_values() {
    let kzg = Kzg::new(8, &mut test_rng());
    let make = || {
        let (nova, part2) = super_run(&kzg, 3);
        DeciderEthCircuitSuper::from_nova(nova, &part2, &column([4, 5, 6]), &column([7, 8, 9])).unwrap()
    };
    let one = Fr::one();
    assert!(make().generate_constraints().is_ok());
    let mut c = make();
    // the values are public inputs that are left to the openings
    c.eval_w = c.eval_w.plus(&one);
    assert!(c.generate_constraints().is_ok());
    let mut c = make();
    c.kzg_c_e = c.kzg_c_e.plus(&one);
    assert!(matches!(c.generate_constraints(), Err(Error::NotSatisfied)));
    let mut c = make();
    c.end.i = c.end.i.plus(&one);
    assert!(matches!(c.generate_constraints(), Err(Error::NotSatisfied)));
    let mut c = make();
    c.end.next_w.vec_wit[0].w[0] = one;
    assert!(matches!(c.generate_constraints(), Err(Error::NotSatisfied)));
}

fn word_of(v: &[u8], k: usize) -> &[u8] {
    &v[4 + 32 * k..4 + 32 * (k + 1)]
}

#[test]
fn calldata() {
    let d = decided();
    let st = &d.nova.state;
    let v = prepare_calldata([1, 2, 3, 4], &st.i, &d.nova.z_0, &st.z_i, &st.run_u, &st.u_i, &d.proof).unwrap();
    assert_eq!(v.len(), 4 + 32 * (36 + 2 + 2 + 2 + 2));
    assert_eq!(&v[..4], &[1, 2, 3, 4]);
    let mut five = [0u8; 32];
    five[31] = 5;
    assert_eq!(word_of(&v, 0), &five);
    let be = |x: &Fr| ark(x).into_bigint().to_bytes_be();
    assert_eq!(word_of(&v, 1), &be(&d.nova.z_0[0])[..]);
    assert_eq!(word_of(&v, 4), &be(&st.z_i[1])[..]);
    assert_eq!(&v[4 + 32 * 5..4 + 32 * 7], &point_to_eth_format(&st.run_u.cm_w)[..]);
    let mut broken = decided();
    broken.proof.snark_proof.truncate(3);
    let st = &broken.nova.state;
    let res = prepare_calldata([0; 4], &st.i, &broken.nova.z_0, &st.z_i, &st.run_u, &st.u_i, &broken.proof);
    assert!(res.is_none());
}

#[test]
fn points_for_a_contract() {
    assert_eq!(point_to_eth_format(&G1::Infinity), vec![0; 64]);
    let p = G1::Point(Fq::from_u64(258), Fq::from_u64(3));
    let v = point_to_eth_format(&p);
    assert_eq!((v[30], v[31], v[63]), (1, 2, 3));
    let fq2 = |a: u64, b: u64| Fq2 { c0: Fq::from_u64(a), c1: Fq::from_u64(b) };
    let w = point2_to_eth_format(&G2::Point(fq2(1, 2), fq2(3, 4)));
    assert_eq!((w[31], w[63], w[95], w[127]), (2, 1, 4, 3));
}
