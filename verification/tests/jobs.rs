use ark_bn254::Bn254;
use ark_bn254::Fq as ArkFq;
use ark_bn254::Fr as ArkFr;
use ark_bn254::G1Affine;
use ark_bn254::G1Projective;
use ark_bn254::G2Projective;
use ark_crypto_primitives::sponge::poseidon::find_poseidon_ark_and_mds;
use ark_ec::AffineRepr;
use ark_ec::CurveGroup;
use ark_ec::PrimeGroup;
use ark_ec::pairing::Pairing;
use ark_ff::BigInt;
use ark_ff::PrimeField;
use ark_groth16::Groth16;
use ark_r1cs_std::alloc::AllocVar;
use ark_r1cs_std::eq::EqGadget;
use ark_r1cs_std::fields::fp::FpVar;
use ark_relations::r1cs::ConstraintSynthesizer;
use ark_relations::r1cs::ConstraintSystemRef;
use ark_relations::r1cs::SynthesisError;
use ark_serialize::CanonicalSerialize;
use ark_snark::SNARK;
use ark_std::UniformRand;
use ark_std::test_rng;
use foldpot::batch_proc::BatchProcessor;
use foldpot::batch_proc::BatchProcessorProverParams;
use foldpot::batch_proc::BatchProcessorVerifierParams;
use foldpot::batch_proc::ClaimRands;
use foldpot::batch_proc::PartTwoKeys;
use foldpot::batch_proc::QaNizkProverParams;
use foldpot::capacity_planner::Capacity;
use foldpot::capacity_planner::CapacityPlanner;
use foldpot::capacity_planner::CapacityView;
use foldpot::capacity_planner::Count;
use foldpot::capacity_planner::GadgetMapper;
use foldpot::capacity_planner::WordInfo;
use foldpot::circuits::cf_public_values;
use foldpot::circuits::challenge_to_fr;
use foldpot::commitment::BatchOpeningProver;
use foldpot::commitment::CommitmentScheme;
use foldpot::commitment::Elements;
use foldpot::commitment::KZGProof;
use foldpot::commitment::OpeningProver;
use foldpot::commitment::OpeningVerifier;
use foldpot::commitment::Pedersen;
use foldpot::commitment::PedersenGrumpkin;
use foldpot::curve::Fq2;
use foldpot::curve::G1;
use foldpot::curve::G2;
use foldpot::curve::Grumpkin;
use foldpot::cyclefold::CycleAssignments;
use foldpot::cyclefold::PairAssignment;
use foldpot::cyclefold::PairContext;
use foldpot::driver::Driver;
use foldpot::driver::RunResult;
use foldpot::driver::RunSetup;
use foldpot::driver::chain_cm_f;
use foldpot::driver::step_with;
use foldpot::error::Error;
use foldpot::error::ErrorView;
use foldpot::field::Field;
use foldpot::field_fq::Fq;
use foldpot::field_fr::Fr;
use foldpot::foldpot_super::ChallengeGadgetFoldPotSuper;
use foldpot::foldpot_super::FoldPotSuper;
use foldpot::foldpot_super::StepCircuit;
use foldpot::foldpot_super::SuperInput;
use foldpot::foldpot_super::cyclepair_values;
use foldpot::foldpot_super::field_to_usize;
use foldpot::instance::Blinds;
use foldpot::instance::WitnessFoldPot;
use foldpot::instance_super::CommittedInstanceFoldPotSuper;
use foldpot::instance_super::QaNizkVerifierParams;
use foldpot::job_phases::CircuitProofs;
use foldpot::job_phases::Phase;
use foldpot::job_phases::finish_job;
use foldpot::job_phases::phase_one;
use foldpot::job_phases::phase_two;
use foldpot::jobs::FoldPotJob;
use foldpot::jobs::dummy_extra_info;
use foldpot::jobs::job_sizes;
use foldpot::jobs::read_nibbles;
use foldpot::limbs::absorb_g1;
use foldpot::limbs::fq_from_bits;
use foldpot::nifs::NIFSFoldPot;
use foldpot::part_two::ZiPartTwoInst;
use foldpot::part_two::chain;
use foldpot::part_two::compute_step_hc;
use foldpot::part_two::digest_of;
use foldpot::passes::PassOne;
use foldpot::passes::PassTwo;
use foldpot::r1cs::R1CS;
use foldpot::r1cs::SparseMatrix;
use foldpot::sponge::PoseidonConfig;
use foldpot::sponge::Sponge;
use foldpot::statement::StatementExtraInfo;
use foldpot::statements::StatementMapper;
use foldpot::super_setup::CircuitSize;
use foldpot::super_setup::PreprocessorParamFoldPotSuper;
use foldpot::super_setup::preprocess_layout;
use foldpot::two_phase::TwoPhaseCircInput;
use foldpot::two_phase::TwoPhaseDeciderEthCircuitSuper;
use rand::Rng;
use rand::SeedableRng;
use rand::rngs::StdRng;

fn fr(x: ArkFr) -> Fr {
    Fr::from_limbs(x.into_bigint().0)
}

fn fq(x: ArkFq) -> Fq {
    Fq::from_limbs(x.into_bigint().0)
}

fn g1(p: G1Projective) -> G1 {
    match p.into_affine().xy() {
        None => G1::Infinity,
        Some((x, y)) => G1::Point(fq(x), fq(y)),
    }
}

fn g2(p: G2Projective) -> G2 {
    match p.into_affine().xy() {
        None => G2::Infinity,
        Some((x, y)) => G2::Point(Fq2 { c0: fq(x.c0), c1: fq(x.c1) }, Fq2 { c0: fq(y.c0), c1: fq(y.c1) }),
    }
}

fn grumpkin(p: ark_grumpkin::Projective) -> Grumpkin {
    match p.into_affine().xy() {
        None => Grumpkin::Infinity,
        Some((x, y)) => Grumpkin::Point(fr(x), fr(y)),
    }
}

/// The parameters with rate four and the rounds for 128 bits of security.
fn config() -> PoseidonConfig {
    let (ark, mds) = find_poseidon_ark_and_mds::<ArkFr>(254, 4, 8, 60, 0);
    let rows = |m: Vec<Vec<ArkFr>>| m.into_iter().map(|r| r.into_iter().map(fr).collect()).collect();
    PoseidonConfig { full_rounds: 8, partial_rounds: 60, alpha: 5, ark: rows(ark), mds: rows(mds), rate: 4, capacity: 1 }
}

/// A system with `l` public values and the secret values `a, b, c, d`: `a * a == b` and
/// `c * u == d`.
fn small_system<F: Field>(l: usize) -> R1CS<F> {
    let m = |cols: [usize; 2]| SparseMatrix {
        n_rows: 2,
        n_cols: l + 5,
        coeffs: cols.iter().map(|k| vec![(F::one(), *k)]).collect(),
    };
    let w = l + 1;
    R1CS { l, a: m([w, w + 2]), b: m([w, 0]), c: m([w + 1, w + 3]) }
}

/// Secret values that satisfy the system.
fn small_values<F: Field>(x: &F, y: &F) -> Vec<F> {
    vec![*x, x.times(x), *y, *y]
}

fn pair_context(l: usize, rng: &mut impl Rng) -> PairContext<PedersenGrumpkin> {
    let generators = (0..4).map(|_| grumpkin(ark_grumpkin::Projective::rand(rng))).collect();
    let h = grumpkin(ark_grumpkin::Projective::rand(rng));
    PairContext { r1cs: small_system(l), cs: PedersenGrumpkin { hiding: false, h, generators }, hiding: false }
}

fn pair_assignment(k: u64) -> PairAssignment {
    PairAssignment {
        w: small_values(&Fq::from_u64(k + 2), &Fq::from_u64(k + 3)),
        r_w: Fq::zero(),
        r_e: Fq::zero(),
    }
}

fn cycle_assignments(k: u64) -> CycleAssignments {
    CycleAssignments { w: pair_assignment(k), e: pair_assignment(k + 10), f: pair_assignment(k + 20) }
}

fn no_blinds() -> Blinds {
    Blinds { r_w: Fr::zero(), r_e: Fr::zero(), r_f: Fr::zero() }
}

/// The input of the next step by the circuit `pc`, with the public values that the
/// augmented circuit would give.
fn super_input<CS1: CommitmentScheme<Fr, G1>>(
    nova: &FoldPotSuper<CS1, PedersenGrumpkin>,
    pc: usize,
    k: u64,
    next_part2: ZiPartTwoInst,
) -> SuperInput {
    let st = &nova.state;
    let c = &nova.poseidon_config;
    let w = small_values(&Fr::from_u64(k), &Fr::from_u64(k + 1));
    let circuit = &nova.circuits[pc];
    let wit = WitnessFoldPot::new(&w, 2, nova.hiding, &no_blinds(), circuit.size_f, circuit.start_f);
    let cm_f = absorb_g1(&wit.commit(&circuit.cs_pp, &vec![]).unwrap().cm_f);
    let (cf, cp) = (cycle_assignments(k), pair_assignment(k + 30));
    let z_i1 = vec![chain(c, &st.z_i[0], &cm_f), next_part2.hash(c)];
    let pc_i1 = Fr::from_u64(pc as u64);
    let i1 = st.i.plus(&Fr::one());
    let sponge = Sponge::new(c);
    let x_len = if nova.b_full_mode { 3 } else { 2 };
    let mut x = Vec::new();
    if st.i == Fr::zero() {
        let mut u = CommittedInstanceFoldPotSuper::dummy(x_len, nova.circuits.len(), nova.b_full_mode);
        u.pc_i = pc_i1;
        x.push(u.hash(&sponge, &nova.pp_hash, &i1, &pc_i1, &nova.z_0, &z_i1));
        x.push(st.cf_u.hash_cyclefold(&sponge, &nova.pp_hash));
        if let Some(u) = &st.cp_u {
            x.push(u.hash_cyclefold(&sponge, &nova.pp_hash));
        }
    } else {
        let j = field_to_usize(&st.pc_i);
        let (_t, cm_t) = nova.compute_cmT(j);
        let cm_t = cm_t.unwrap();
        let mut transcript = Sponge::new(c);
        let bits = ChallengeGadgetFoldPotSuper::get_challenge_native(
            &mut transcript,
            &nova.pp_hash,
            &st.run_u,
            &st.u_i,
            &cm_t,
        );
        let (r, r_fq) = (challenge_to_fr(&bits), fq_from_bits(&bits).unwrap());
        let old = &st.run_u.vec_inst[j];
        let next = NIFSFoldPot::verify(&r, old, &st.u_i, &cm_t);
        let x_w = cf_public_values(&r_fq, &old.cm_w, &st.u_i.cm_w, &next.cm_w);
        let x_e = cf_public_values(&r_fq, &old.cm_e, &cm_t, &next.cm_e);
        let x_f = cf_public_values(&r_fq, &old.cm_f, &st.u_i.cm_f, &next.cm_f);
        let folds = nova
            .cf
            .fold_circuits(&mut transcript, &nova.pp_hash, &st.cf_w, &st.cf_u, &x_w, &x_e, &x_f, &cf)
            .unwrap();
        let mut u = st.run_u.dup();
        u.vec_inst[j] = next;
        u.pc_i = pc_i1;
        u.x_1 = u.x_1.plus(&r.times(&st.u_i.x[1]));
        if nova.b_full_mode {
            u.x_2 = Some(u.x_2.unwrap().plus(&r.times(&st.u_i.x[2])));
        }
        x.push(u.hash(&sponge, &nova.pp_hash, &i1, &pc_i1, &nova.z_0, &z_i1));
        x.push(folds.f.instance.hash_cyclefold(&sponge, &nova.pp_hash));
        if let (Some(cp_w), Some(cp_u)) = (&st.cp_w, &st.cp_u) {
            let values = cyclepair_values(next_part2.cyclepair_input.as_ref().unwrap());
            let fold = nova.cp.fold_circuit(&mut transcript, &nova.pp_hash, cp_w, cp_u, &values, &cp).unwrap();
            x.push(fold.instance.hash_cyclefold(&sponge, &nova.pp_hash));
        }
    }
    SuperInput { external_inputs: vec![], other_instances: false, cm_f, next_part2, w, x, blinds: no_blinds(), cf, cp }
}

fn ark(x: &Fr) -> ArkFr {
    ArkFr::new(BigInt(x.limbs()))
}

fn ark_point(p: &G1) -> G1Affine {
    let base = |x: &Fq| ArkFq::new(BigInt(x.limbs()));
    match p {
        G1::Infinity => G1Affine::identity(),
        G1::Point(x, y) => G1Affine::new_unchecked(base(x), base(y)),
    }
}

/// Polynomial commitments with the powers of a secret in both groups.
struct Kzg {
    powers: Vec<G1Affine>,
    tau_g2: G2Projective,
}

impl Kzg {
    fn new(n: usize, rng: &mut impl Rng) -> Kzg {
        let tau = ArkFr::rand(rng);
        let mut t = ArkFr::from(1u64);
        let mut powers = Vec::new();
        for _ in 0..n {
            powers.push((G1Projective::generator() * t).into_affine());
            t *= tau;
        }
        Kzg { powers, tau_g2: G2Projective::generator() * tau }
    }

    fn dup(&self) -> Kzg {
        Kzg { powers: self.powers.clone(), tau_g2: self.tau_g2 }
    }

    fn point(&self, v: &[ArkFr]) -> Option<G1Projective> {
        if v.len() > self.powers.len() {
            return None;
        }
        Some(v.iter().zip(self.powers.iter()).map(|(a, p)| *p * *a).sum())
    }

    fn open(&self, z: ArkFr, v: &[ArkFr]) -> Result<KZGProof, Error> {
        // the quotient by synthetic division, and the value as what is left
        let mut quotient = vec![ArkFr::from(0u64); v.len()];
        let mut acc = ArkFr::from(0u64);
        for k in (0..v.len()).rev() {
            quotient[k] = acc;
            acc = acc * z + v[k];
        }
        match self.point(&quotient) {
            None => Err(Error::CommitmentFail),
            Some(p) => Ok(KZGProof { eval: fr(acc), proof: g1(p) }),
        }
    }
}

impl CommitmentScheme<Fr, G1> for Kzg {
    fn commit_spec(&self, _v: Elements<Fr>, _blind: Fr) -> Option<G1> {
        unreachable!()
    }

    fn commit(&self, v: &Vec<Fr>, _blind: &Fr) -> Option<G1> {
        self.point(&v.iter().map(ark).collect::<Vec<_>>()).map(g1)
    }
}

impl OpeningProver<KZGProof> for Kzg {
    fn prove_spec(&self, _challenge: Fr, _v: Elements<Fr>) -> Result<KZGProof, ErrorView> {
        unreachable!()
    }

    fn prove_with_challenge(&self, challenge: &Fr, v: &Vec<Fr>) -> Result<KZGProof, Error> {
        self.open(ark(challenge), &v.iter().map(ark).collect::<Vec<_>>())
    }
}

impl BatchOpeningProver<KZGProof> for Kzg {
    fn batch_prove_spec(&self, _challenge: Fr, _v: Elements<Elements<Fr>>, _rc: Fr) -> Result<KZGProof, ErrorView> {
        unreachable!()
    }

    fn batch_prove_with_challenge(&self, challenge: &Fr, v: &Vec<Vec<Fr>>, rc: &Fr) -> Result<KZGProof, Error> {
        let n = v.iter().map(|p| p.len()).max().unwrap_or(0);
        let mut sum = vec![ArkFr::from(0u64); n];
        let mut factor = ArkFr::from(1u64);
        for p in v {
            for k in 0..p.len() {
                sum[k] += factor * ark(&p[k]);
            }
            factor *= ark(rc);
        }
        self.open(ark(challenge), &sum)
    }
}

impl OpeningVerifier<KZGProof> for Kzg {
    fn verify_spec(&self, _challenge: Fr, _cm: G1, _proof: KZGProof) -> Result<(), ErrorView> {
        unreachable!()
    }

    fn verify_with_challenge(&self, challenge: &Fr, cm: &G1, proof: &KZGProof) -> Result<(), Error> {
        let left = ark_point(cm).into_group() - G1Projective::generator() * ark(&proof.eval);
        let right = self.tau_g2 - G2Projective::generator() * ark(challenge);
        if Bn254::pairing(left, G2Projective::generator()) == Bn254::pairing(ark_point(&proof.proof), right) {
            Ok(())
        } else {
            Err(Error::NotEqual)
        }
    }
}

/// Commitments to vectors; a proof shows the vector.
struct VecCom {
    generators: Vec<G1Affine>,
}

impl VecCom {
    fn new(n: usize, rng: &mut impl Rng) -> VecCom {
        VecCom { generators: (0..n).map(|_| G1Projective::rand(rng).into_affine()).collect() }
    }
}

impl CommitmentScheme<Fr, G1> for VecCom {
    fn commit_spec(&self, _v: Elements<Fr>, _blind: Fr) -> Option<G1> {
        unreachable!()
    }

    fn commit(&self, v: &Vec<Fr>, _blind: &Fr) -> Option<G1> {
        if v.len() > self.generators.len() {
            return None;
        }
        Some(g1(v.iter().zip(self.generators.iter()).map(|(a, p)| *p * ark(a)).sum()))
    }
}

impl OpeningProver<Vec<Fr>> for VecCom {
    fn prove_spec(&self, _challenge: Fr, _v: Elements<Fr>) -> Result<Vec<Fr>, ErrorView> {
        unreachable!()
    }

    fn prove_with_challenge(&self, _challenge: &Fr, v: &Vec<Fr>) -> Result<Vec<Fr>, Error> {
        Ok(v.clone())
    }
}

impl OpeningVerifier<Vec<Fr>> for VecCom {
    fn verify_spec(&self, _challenge: Fr, _cm: G1, _proof: Vec<Fr>) -> Result<(), ErrorView> {
        unreachable!()
    }

    fn verify_with_challenge(&self, _challenge: &Fr, cm: &G1, proof: &Vec<Fr>) -> Result<(), Error> {
        if self.commit(proof, &Fr::from_u64(0)) == Some(*cm) {
            Ok(())
        } else {
            Err(Error::NotEqual)
        }
    }
}

/// The keys with which commitments by the rows of the matrix are proved to be for one
/// vector.
fn qa_nizk_setup(matrix: &[Vec<G1>], rng: &mut impl Rng) -> (QaNizkProverParams, QaNizkVerifierParams) {
    let k: Vec<ArkFr> = matrix.iter().map(|_| ArkFr::rand(rng)).collect();
    let a = G2Projective::rand(rng);
    let key = (0..matrix[0].len())
        .map(|j| g1(matrix.iter().zip(k.iter()).map(|(row, s)| ark_point(&row[j]) * *s).sum()))
        .collect();
    let c = k.iter().map(|s| g2(a * *s)).collect();
    (QaNizkProverParams { key }, QaNizkVerifierParams { c, a: g2(a) })
}

/// A circuit with the given public inputs.
#[derive(Clone)]
struct PublicCircuit {
    inputs: Vec<ArkFr>,
}

impl ConstraintSynthesizer<ArkFr> for PublicCircuit {
    fn generate_constraints(self, cs: ConstraintSystemRef<ArkFr>) -> Result<(), SynthesisError> {
        let mut sum = FpVar::new_constant(cs.clone(), ArkFr::from(0u64))?;
        let total = self.inputs.iter().sum::<ArkFr>();
        for x in self.inputs {
            sum += FpVar::new_input(cs.clone(), || Ok(x))?;
        }
        let witness = FpVar::new_witness(cs, || Ok(total))?;
        (&witness * &sum).enforce_equal(&(&sum * &sum))
    }
}

/// The key and the proof of a circuit with the given public inputs.
fn snark(inputs: &[Fr]) -> (Vec<u8>, Vec<u8>) {
    let rng = &mut StdRng::seed_from_u64(7);
    let circuit = PublicCircuit { inputs: inputs.iter().map(ark).collect() };
    let (pk, vk) = Groth16::<Bn254>::circuit_specific_setup(circuit.clone(), rng).unwrap();
    let proof = Groth16::<Bn254>::prove(&pk, circuit, rng).unwrap();
    let (mut key, mut bytes) = (Vec::new(), Vec::new());
    vk.serialize_uncompressed(&mut key).unwrap();
    proof.serialize_uncompressed(&mut bytes).unwrap();
    (key, bytes)
}

/// A mapper that takes segments of up to `max` elements, each up to `top`, and looks
/// `halo` nibbles ahead. Its advice is the segment's place and what it saw ahead.
struct Segments {
    max: usize,
    halo: usize,
    top: u64,
}

type Advice = (usize, Vec<u8>);

impl GadgetMapper<Advice, ()> for Segments {
    fn max_len(&self) -> Count {
        unreachable!()
    }

    fn capacity(&self) -> CapacityView {
        unreachable!()
    }

    fn nibbles(&self, _word: Elements<Fr>) -> Elements<u8> {
        unreachable!()
    }

    fn advice(
        &self,
        _seg: Elements<Fr>,
        _info: (),
        _halo: Elements<u8>,
        _prev: Option<Advice>,
        _seg_id: Count,
    ) -> Result<Advice, ErrorView> {
        unreachable!()
    }

    fn max_word_len(&self) -> usize {
        self.max
    }

    fn get_capacity(&self) -> Capacity {
        Capacity { halo_nibbles: self.halo, sizes: vec![("word_seg_len".to_string(), self.max)] }
    }

    fn packed_to_nibbles(&self, word: &Vec<Fr>) -> Vec<u8> {
        word.iter().map(|x| (x.low_u64() % 16) as u8).collect()
    }

    fn gen_nd_advice(
        &self,
        seg: &Vec<Fr>,
        _info: &(),
        halo: &Vec<u8>,
        prev: Option<&Advice>,
        seg_id: usize,
    ) -> Result<Advice, Error> {
        if let Some(p) = prev {
            assert_eq!(p.0 + 1, seg_id);
        }
        match seg.iter().map(|x| x.low_u64()).filter(|x| *x > self.top).max() {
            Some(x) => Err(Error::CapErr(vec![(format!("top"), x as usize)])),
            None => Ok((seg_id, halo.clone())),
        }
    }
}

/// A statement has the word's and the segment's number, the sum of the word so far, and
/// with its share of the table where that begins, how long it is and how often its places
/// are looked up. Each statement looks up the place with its segment's number.
impl StatementMapper<Advice, ()> for Segments {
    fn statement(
        &self,
        _seg: Elements<Fr>,
        _prev: Option<Elements<Fr>>,
        _lk_col1: Elements<Fr>,
        _lk_col2: Elements<Fr>,
        _ea: StatementExtraInfo,
        _advice: Advice,
        _share: Count,
    ) -> Result<Elements<Fr>, ErrorView> {
        unreachable!()
    }

    fn lookups(&self, _stmt: Elements<Fr>, _lk_col1: Elements<Fr>, _lk_col2: Elements<Fr>) -> Elements<usize> {
        unreachable!()
    }

    fn with_share(
        &self,
        _stmt: Elements<Fr>,
        _start: Count,
        _lk_col1: Elements<Fr>,
        _lk_col2: Elements<Fr>,
        _counts: Elements<usize>,
    ) -> Elements<Fr> {
        unreachable!()
    }

    fn memory(&self, _stmt: Elements<Fr>) -> Result<G1, ErrorView> {
        unreachable!()
    }

    fn build_statement(
        &self,
        seg: &Vec<Fr>,
        prev: Option<&Vec<Fr>>,
        _lk_col1: &Vec<Fr>,
        _lk_col2: &Vec<Fr>,
        ea: &StatementExtraInfo,
        advice: &Advice,
        _share: usize,
    ) -> Result<Vec<Fr>, Error> {
        assert_eq!(ea.subseg_id, Fr::from_u64(advice.0 as u64 + 1));
        assert_eq!(ea.act_word_subseg_size, Fr::from_u64(seg.len() as u64));
        if seg[0] == Fr::from_u64(666) {
            return Err(Error::Other(format!("no statement")));
        }
        let before = prev.map_or(Fr::zero(), |p| p[2]);
        Ok(vec![ea.word_id, ea.subseg_id, seg.iter().fold(before, |sum, x| sum.plus(x))])
    }

    fn list_lookups(&self, stmt: &Vec<Fr>, _lk_col1: &Vec<Fr>, _lk_col2: &Vec<Fr>) -> Vec<usize> {
        vec![field_to_usize(&stmt[1]) - 1]
    }

    fn update_lookup(
        &self,
        stmt: &Vec<Fr>,
        start: usize,
        _lk_col1: &Vec<Fr>,
        _lk_col2: &Vec<Fr>,
        counts: &Vec<usize>,
    ) -> Vec<Fr> {
        let mut v = stmt.clone();
        v.extend([start, counts.len(), counts.iter().sum()].map(|x| Fr::from_u64(x as u64)));
        v
    }

    fn gen_cm_f(&self, stmt: &Vec<Fr>) -> Result<G1, Error> {
        if stmt[2] == Fr::from_u64(667) {
            return Err(Error::CommitmentFail);
        }
        Ok(fixed_memory((field_to_usize(&stmt[3]) / field_to_usize(&stmt[4])) as u64, false))
    }
}

fn no_info() -> WordInfo<()> {
    WordInfo { info: (), halo_nibbles: vec![] }
}

fn driver(max: usize, table: &[u64], full: bool) -> Driver<Segments> {
    let col: Vec<Fr> = table.iter().map(|x| Fr::from_u64(*x)).collect();
    let ladder = vec![vec![Segments { max, halo: 0, top: u64::MAX }]];
    Driver::new(config(), ladder, col.clone(), col, vec![2], true, full)
}

fn key() -> Vec<G1> {
    let rng = &mut StdRng::seed_from_u64(1);
    (0..10).map(|_| g1(G1Projective::rand(rng))).collect()
}

fn run_setup(full: bool) -> RunSetup<Pedersen, PedersenGrumpkin> {
    let rng = &mut StdRng::seed_from_u64(2);
    let circuit = StepCircuit {
        r1cs: small_system(if full { 3 } else { 2 }),
        cs_pp: Pedersen { hiding: false, h: G1::Infinity, generators: key() },
        state_len: 2,
        external_inputs_len: 6,
        size_f: 2,
        start_f: 1,
    };
    let (cf, cp) = (pair_context(7, rng), pair_context(32, rng));
    RunSetup { circuits: vec![circuit], hiding: false, cf, cp, pp_hash: Fr::from_u64(99) }
}

/// The keys for the commitments of a run: those to all witnesses by `kzg`, the others by
/// the circuit's key.
fn run_keys(kzg: &Kzg, full: bool) -> (QaNizkProverParams, QaNizkVerifierParams) {
    let n_cols = if full { 8 } else { 7 };
    let sizes = vec![CircuitSize { n_cols, n_rows: 2, cmf_len: 2, size_f: 2, start_f: 1 }];
    let layout = preprocess_layout(&sizes, full);
    assert_eq!((layout.total_w, layout.total_e, layout.total), (4, 2, 7));
    let powers: Vec<G1> = kzg.powers[..layout.total].iter().map(|p| g1(p.into_group())).collect();
    let prep = PreprocessorParamFoldPotSuper { sizes_f: vec![2], starts_f: vec![1], lk_size: 0, b_full_mode: full };
    let keys = prep.preprocess(&sizes, &vec![key()], &powers);
    assert_eq!(keys.rows.len(), 4);
    let matrix: Vec<Vec<G1>> = keys
        .rows
        .iter()
        .enumerate()
        .map(|(k, row)| {
            let from = if k == 0 { &keys.kzg_row } else { &keys.ped_row };
            let mut v = vec![G1::Infinity; layout.total];
            v[row.col..row.col + row.len].copy_from_slice(&from[row.key..row.key + row.len]);
            v
        })
        .collect();
    qa_nizk_setup(&matrix, &mut StdRng::seed_from_u64(3))
}

type ProverKey = BatchProcessorProverParams<Kzg, VecCom, QaNizkProverParams>;
type VerifierKey = BatchProcessorVerifierParams<Kzg, VecCom>;

fn batch_keys(n_words: usize) -> (ProverKey, VerifierKey) {
    let rng = &mut StdRng::seed_from_u64(4);
    let kzg = Kzg::new(12, rng);
    let vec = VecCom::new(n_words + 1, rng);
    let points = |v: &[G1Affine]| v.iter().map(|p| g1(p.into_group())).collect::<Vec<G1>>();
    let lg = g1(kzg.powers[n_words + 1].into_group());
    let matrix = BatchProcessor::key_matrix(&points(&kzg.powers[..n_words + 1]), &points(&vec.generators), &lg);
    let (pk_qa_nizk, vk_qa_nizk) = qa_nizk_setup(&matrix, rng);
    let vkey = BatchProcessorVerifierParams {
        kzg: kzg.dup(),
        vec: VecCom { generators: vec.generators.clone() },
        poseidon_config: config(),
        vk_qa_nizk,
        qa_nizk_vkey_hash: Fr::zero(),
    };
    (BatchProcessorProverParams { kzg, vec, poseidon_config: config(), pk_qa_nizk }, vkey)
}

fn rands() -> ClaimRands {
    let f = Fr::from_u64;
    ClaimRands { word: f(101), all_words: f(102), length: f(103), vectors: f(104) }
}

fn job() -> FoldPotJob<()> {
    let word = |v: &[u64]| v.iter().map(|x| Fr::from_u64(*x)).collect::<Vec<Fr>>();
    FoldPotJob {
        vec_words: vec![word(&[1, 2, 100]), word(&[4, 2])],
        vec_word_info: vec![no_info(), no_info()],
        vec_word_fnames: vec![format!("file1"), format!("file2")],
        idx_individual_prf: 1,
    }
}

fn fixed_memory(k: u64, full: bool) -> G1 {
    let setup = run_setup(full);
    let w = small_values(&Fr::from_u64(k), &Fr::from_u64(k + 1));
    WitnessFoldPot::new(&w, 2, false, &no_blinds(), 2, 1).commit(&setup.circuits[0].cs_pp, &vec![]).unwrap().cm_f
}

/// The inputs of the steps, where `part2` changes the second part of a state.
fn step_inputs(
    d: &Driver<Segments>,
    n_words: usize,
    pass: &PassTwo,
    ch: &Fr,
    rc: &Fr,
    part2: impl Fn(usize, &mut ZiPartTwoInst),
) -> Vec<SuperInput> {
    let mut nova = d.start(run_setup(d.b_full_mode), n_words, &pass.hash_cm_f, ch, rc);
    let mut inputs = Vec::new();
    for k in 0..pass.statements.len() {
        let mut next = nova.state.zi_part2_inst.dup();
        part2(k, &mut next);
        let inp = SuperInput {
            external_inputs: pass.statements[k].clone(),
            ..super_input(&nova, 0, k as u64, next)
        };
        step_with(&mut nova, 0, &inp).unwrap();
        inputs.push(inp);
    }
    inputs
}

/// The first two passes of a driver that folds pairings.
fn full_passes(d: &Driver<Segments>, words: &Vec<Vec<Fr>>) -> PassTwo {
    let infos: Vec<WordInfo<()>> = words.iter().map(|_| no_info()).collect();
    let one = d.pass_one(None::<&ProverKey>, words, &infos, &rands(), 0).unwrap();
    d.pass_two(words, &infos, &one).unwrap()
}

type JobPhase = Phase<Pedersen, PedersenGrumpkin, Vec<Fr>>;

struct Phases {
    one: JobPhase,
    words: Vec<Vec<Fr>>,
    two: JobPhase,
    vkey: VerifierKey,
    kzg: Kzg,
    vk2: QaNizkVerifierParams,
}

fn run_phases() -> Phases {
    // the steps of the first phase: two for the first word, one for the second
    run_phases_of(&driver(2, &[5, 6, 7, 8], false), &job(), 3)
}

/// Both phases of a job, of which the first has `n` steps.
fn run_phases_of(d1: &Driver<Segments>, job: &FoldPotJob<()>, n: usize) -> Phases {
    let (pkey, vkey) = batch_keys(2);
    let pass = d1.pass_one(Some(&pkey), &job.vec_words, &job.vec_word_info, &rands(), 1).unwrap();
    assert_eq!(pass.pcs, vec![0; n]);
    let pass2 = d1.pass_two(&job.vec_words, &job.vec_word_info, &pass).unwrap();
    let cm_fs: Vec<G1> = (0..n as u64).map(|k| fixed_memory(k, false)).collect();
    assert_eq!(pass2.cm_fs, cm_fs);
    let hash = chain_cm_f(&config(), &cm_fs);
    assert_eq!(pass2.hash_cm_f, hash);
    let claims = pass.claims.unwrap();
    let (prf, _): (_, foldpot::batch_proc::IndividualProof<Vec<Fr>>) =
        d1.prove_claims(&pkey, &vkey, &job.vec_words, &claims, &pass.adv, &hash).unwrap();
    let value = prf.agg_kzg_prf.eval;
    let inputs = step_inputs(d1, 2, &pass2, &prf.ch, &prf.rc, |k, p| {
        if k == n - 1 {
            p.sum_kzg_eval_lk = value.minus(&Fr::from_u64(5));
            p.sum_kzg_eval_word = Fr::from_u64(2);
            p.sum_kzg_eval_others = Fr::from_u64(3);
        }
    });
    let kzg = pkey.kzg.dup();
    let (pk1, vk1) = run_keys(&kzg, false);
    let r_all_w = Fr::from_u64(55);
    let (one, words) = phase_one(
        d1,
        run_setup(false),
        Some(&pkey),
        Some(&vkey),
        job,
        &rands(),
        &inputs,
        &kzg,
        &pk1,
        &vk1,
        &r_all_w,
    )
    .unwrap();
    assert_eq!(one.run.num_steps, n);
    assert_eq!(words.len(), 5);
    assert_eq!(one.run.nova.state.i, Fr::from_u64(n as u64));
    // the first state holds the chain from zero, the last one the chain from there
    assert_eq!(one.run.nova.z_0[0], hash);
    let last = cm_fs.iter().fold(hash, |h, p| compute_step_hc(&config(), &h, p));
    assert_eq!(one.run.nova.state.z_i[0], last);

    let d2 = driver(164, &[], true);
    let infos: Vec<WordInfo<()>> = words.iter().map(|_| no_info()).collect();
    let pass2 = full_passes(&d2, &words);
    assert_eq!(pass2.cm_fs, (0..5).map(|k| fixed_memory(k, true)).collect::<Vec<G1>>());
    let result = digest_of(&config(), &vec![words[4][162], words[4][163]]);
    let zero = Fr::zero();
    let inputs2 = step_inputs(&d2, 5, &pass2, &zero, &zero, |k, p| {
        p.cyclepair_input = Some(words[k][..160].to_vec());
        if k == 4 {
            p.f_result = result;
        }
    });
    let (pk2, vk2) = run_keys(&kzg, true);
    let two = phase_two::<Advice, (), Vec<Fr>, Segments, Kzg, VecCom, QaNizkProverParams, Kzg, VecCom, _, _>(
        &d2,
        run_setup(true),
        &words,
        &infos,
        0,
        &inputs2,
        &kzg,
        &pk2,
        &r_all_w,
    )
    .unwrap();
    assert_eq!(two.run.num_steps, 5);
    assert!(two.run.proofs.is_none());
    Phases { one, words, two, vkey, kzg, vk2 }
}

#[test]
fn test_iterator() {
    let f = |v: &[u64]| v.iter().map(|x| Fr::from_u64(*x)).collect::<Vec<Fr>>();
    let d = Driver {
        lk_col1: f(&[0, 1, 1, 2, 2, 2, 2, 2]),
        lk_col2: f(&[0, 0, 1, 0, 1, 2, 3, 4]),
        lk_share: vec![4],
        ..driver(2, &[], false)
    };
    let job = FoldPotJob {
        vec_words: vec![f(&[1, 2, 100]), f(&[4, 2, 2])],
        vec_word_info: vec![no_info(), no_info()],
        vec_word_fnames: vec![format!("file1"), format!("file2")],
        idx_individual_prf: 1,
    };
    // two steps for each word
    let p = run_phases_of(&d, &job, 4);
    let (prf, ind) = p.one.run.proofs.unwrap();
    let one = Phase { statements: p.one.statements, pass: p.one.pass, run: foldpot::driver::RunResult { proofs: None, ..p.one.run }, end: p.one.end };
    let sum = one.kzg_sum1();
    let (mainres_hash, vkey_hash) = (Fr::from_u64(31), Fr::from_u64(32));
    let input = one.circuit_input(&p.two.end, &vkey_hash, &mainres_hash);
    let (snark_vk_main, snark_proof_main) = snark(&[mainres_hash]);
    let (snark_vk_cp, snark_proof_cp) = snark(&input.to_vec());
    let keys = PartTwoKeys {
        kzg_driver1: p.kzg.dup(),
        kzg_driver2: p.kzg.dup(),
        nova1_qa_nizk_vkey_hash: vkey_hash,
        nova2_qa_nizk_vkey: p.vk2,
        snark_vk_main,
        snark_vk_cp,
    };
    let circuits = CircuitProofs { snark_proof_main, snark_proof_cp, mainres_hash };
    let claims = one.pass.claims.unwrap();
    let (c, all_w) = (config(), &one.end.all_w);
    let full = finish_job(&p.vkey, &keys, &c, &claims, prf, &ind, all_w, &p.two.end, circuits, true, &sum);
    assert!(full.unwrap().part2.is_some());
}

#[test]
fn pairings_of_the_first_phase() {
    let p = run_phases();
    // the products start and end at one: the commitments are for one vector
    let one: Vec<Fr> = (0..60).map(|k| if k == 0 { Fr::one() } else { Fr::zero() }).collect();
    assert_eq!(&p.words[0][..60], &one[..]);
    assert_eq!(&p.words[4][100..160], &one[..]);
    assert_ne!(&p.words[1][..60], &one[..]);
    assert!(p.vk2.verify(
        &vec![
            p.two.end.all_w.com_all_w,
            p.two.end.u.vec_inst[0].cm_w,
            p.two.end.u.vec_inst[0].cm_e,
            p.two.end.u.vec_inst[0].cm_f,
        ],
        &p.two.end.all_w.prf_qa_nizk,
    ));
}

#[test]
fn finished_job() {
    let p = run_phases();
    let (prf, ind) = p.one.run.proofs.unwrap();
    let one = Phase { statements: p.one.statements, pass: p.one.pass, run: foldpot::driver::RunResult { proofs: None, ..p.one.run }, end: p.one.end };
    let sum = one.kzg_sum1();
    assert_eq!(sum, prf.agg_kzg_prf.eval);
    let (mainres_hash, vkey_hash) = (Fr::from_u64(31), Fr::from_u64(32));
    let input = one.circuit_input(&p.two.end, &vkey_hash, &mainres_hash);
    assert_eq!(input.ch1, prf.ch);
    assert_eq!(input.kzg_sum1, sum);
    let (snark_vk_main, snark_proof_main) = snark(&[mainres_hash]);
    let (snark_vk_cp, snark_proof_cp) = snark(&input.to_vec());
    let keys = PartTwoKeys {
        kzg_driver1: p.kzg.dup(),
        kzg_driver2: p.kzg.dup(),
        nova1_qa_nizk_vkey_hash: vkey_hash,
        nova2_qa_nizk_vkey: p.vk2,
        snark_vk_main,
        snark_vk_cp,
    };
    let proofs = || CircuitProofs {
        snark_proof_main: snark_proof_main.clone(),
        snark_proof_cp: snark_proof_cp.clone(),
        mainres_hash,
    };
    let claims = one.pass.claims.unwrap();
    let c = config();
    let finish = |prf, circuits, check, sum: &Fr| {
        finish_job(&p.vkey, &keys, &c, &claims, prf, &ind, &one.end.all_w, &p.two.end, circuits, check, sum)
    };
    let full = finish(prf, proofs(), true, &sum).unwrap();
    assert!(full.part2.is_some());
    // without the whole table, the sum is the value that is checked
    let full = finish(full, proofs(), false, &sum).unwrap();
    let other = sum.plus(&Fr::one());
    let full = finish(full, proofs(), true, &other).unwrap();
    let mut wrong = proofs();
    wrong.mainres_hash = Fr::from_u64(30);
    assert!(matches!(finish(full, wrong, true, &sum), Err(Error::SNARKVerificationFail)));
}

#[test]
fn finished_job_with_another_sum() {
    let p = run_phases();
    let (prf, ind) = p.one.run.proofs.unwrap();
    let (mainres_hash, vkey_hash) = (Fr::from_u64(31), Fr::from_u64(32));
    let (snark_vk_main, snark_proof_main) = snark(&[mainres_hash]);
    let (snark_vk_cp, snark_proof_cp) = snark(&[vkey_hash]);
    let keys = PartTwoKeys {
        kzg_driver1: p.kzg.dup(),
        kzg_driver2: p.kzg.dup(),
        nova1_qa_nizk_vkey_hash: vkey_hash,
        nova2_qa_nizk_vkey: p.vk2,
        snark_vk_main,
        snark_vk_cp,
    };
    let circuits = CircuitProofs { snark_proof_main, snark_proof_cp, mainres_hash };
    let claims = p.one.pass.claims.unwrap();
    let all_w = &p.one.end.all_w;
    let sum = Fr::one();
    let c = config();
    let res = finish_job(&p.vkey, &keys, &c, &claims, prf, &ind, all_w, &p.two.end, circuits, false, &sum);
    assert!(matches!(res, Err(Error::SNARKVerificationFail)));
}

#[test]
fn circuit_of_both_phases() {
    let p = run_phases();
    let (one, two) = (p.one.end.all_w, p.two.end.all_w);
    let inst = p.two.end.u.vec_inst[0].dup();
    let part2 = p.one.run.nova.state.zi_part2_inst.dup();
    let inp = TwoPhaseCircInput {
        ch1: part2.ch,
        rc1: part2.rc,
        kzg_sum1: part2.sum_kzg_eval_lk.plus(&part2.sum_kzg_eval_word).plus(&part2.sum_kzg_eval_others),
        kzg_all_com_ch1: one.kzg_all_com_ch,
        eval_w_e1: one.prf_kzg.eval,
        kzg_all_com_ch2: two.kzg_all_com_ch,
        eval_w_e2: two.prf_kzg.eval,
        qa_nizk_vkey_hash: p.words[4][163],
        comE2: inst.cm_e,
        comW2: inst.cm_w,
        comF2: inst.cm_f,
    };
    let mut circuit = TwoPhaseDeciderEthCircuitSuper::from_nova(
        p.one.run.nova,
        p.two.run.nova,
        p.words,
        &one.com_all_w,
        &one.r_all_w,
        &two.com_all_w,
        &two.r_all_w,
        inp,
    )
    .unwrap();
    assert!(circuit.generate_constraints().is_ok());
    let ret = circuit.circ1.generate_constraints_adv().unwrap();
    assert_eq!(ret.vec_coms[0], one.com_all_w);
    assert_eq!(ret.vec_coms.len(), 4);
    assert_eq!(ret.eval_w_e, one.prf_kzg.eval);
    circuit.inp.eval_w_e2 = Fr::zero();
    assert!(matches!(circuit.generate_constraints(), Err(Error::NotSatisfied)));
    circuit.inp.eval_w_e2 = two.prf_kzg.eval;
    assert!(circuit.generate_constraints().is_ok());
    circuit.circ2.cyclepair_inputs[1][61] = Fr::zero();
    assert!(matches!(circuit.generate_constraints(), Err(Error::NotSatisfied)));
}

#[test]
fn phase_needs_a_batch_proof() {
    // a driver that folds pairings makes no batch proof
    let d = driver(2, &[], true);
    let job = job();
    let (pkey, vkey) = batch_keys(2);
    let kzg = pkey.kzg.dup();
    let (pk, vk) = run_keys(&kzg, true);
    let zero = Fr::zero();
    let inputs = step_inputs(&d, 2, &full_passes(&d, &job.vec_words), &zero, &zero, |_, _| {});
    let res = phase_one(
        &d,
        run_setup(true),
        Some(&pkey),
        Some(&vkey),
        &job,
        &rands(),
        &inputs,
        &kzg,
        &pk,
        &vk,
        &zero,
    );
    assert!(matches!(res, Err(Error::Other(s)) if s == "batch proof is none!"));
}

/// The passes over a job's words.
fn run_passes(
    d: &Driver<Segments>,
    job: &FoldPotJob<()>,
    inputs: &Vec<SuperInput>,
) -> Result<(PassOne, PassTwo, RunResult<Pedersen, PedersenGrumpkin, Vec<Fr>>), Error> {
    let (pkey, vkey) = batch_keys(2);
    d.pass_all::<Advice, (), Vec<Fr>, _, _, _, _, _, _, _>(
        run_setup(false),
        Some(&pkey),
        Some(&vkey),
        &job.vec_words,
        &job.vec_word_info,
        &rands(),
        1,
        inputs,
    )
}

#[test]
fn passes_fail() {
    let run = |d: &Driver<Segments>, inputs: &Vec<SuperInput>| run_passes(d, &job(), inputs);
    // the steps take six entries of the table
    let d = driver(2, &[1, 2, 3, 4, 5, 6, 7], false);
    assert!(matches!(run(&d, &vec![]), Err(Error::Other(s)) if s == "the lookup table is not covered"));
    let d = driver(2, &[1, 2, 3, 4, 5, 6], false);
    assert!(matches!(run(&d, &vec![]), Err(Error::NotExpectedLength(0, 3))));
    let mut d = driver(2, &[], false);
    d.planner.layered_circs[0][0].top = 50;
    assert!(matches!(run(&d, &vec![]), Err(Error::CapErr(v)) if v == vec![(format!("top"), 100)]));
    // a table that the key is too short for
    let d = driver(2, &[0; 13], false);
    assert!(matches!(run(&d, &vec![]), Err(Error::CommitmentFail)));
    // shares that go beyond the machine's integers
    let mut d = driver(2, &[], false);
    d.lk_share[0] = usize::MAX / 2;
    assert!(matches!(run(&d, &vec![]), Err(Error::OutOfBounds)));
}

#[test]
fn inputs_of_other_statements() {
    let d = driver(2, &[], false);
    let j = job();
    let (pkey, vkey) = batch_keys(2);
    let one = d.pass_one(Some(&pkey), &j.vec_words, &j.vec_word_info, &rands(), 1).unwrap();
    let two = d.pass_two(&j.vec_words, &j.vec_word_info, &one).unwrap();
    let claims = one.claims.unwrap();
    let (prf, _): (_, foldpot::batch_proc::IndividualProof<Vec<Fr>>) =
        d.prove_claims(&pkey, &vkey, &j.vec_words, &claims, &one.adv, &two.hash_cm_f).unwrap();
    let mut inputs = step_inputs(&d, 2, &two, &prf.ch, &prf.rc, |_, _| {});
    assert!(run_passes(&d, &j, &inputs).is_ok());
    // another statement
    inputs[1].external_inputs[2] = Fr::from_u64(104);
    assert!(matches!(run_passes(&d, &j, &inputs), Err(Error::NotEqual)));
    inputs[1].external_inputs[2] = Fr::from_u64(103);
    assert!(run_passes(&d, &j, &inputs).is_ok());
    // the statements of other words
    let mut other = job();
    other.vec_words[0][0] = Fr::from_u64(7);
    assert!(matches!(run_passes(&d, &other, &inputs), Err(Error::NotEqual)));
    // another fixed memory
    inputs[2].cm_f[0] = Fr::zero();
    assert!(matches!(run_passes(&d, &j, &inputs), Err(Error::NotEqual)));
}

#[test]
fn statements_of_the_words() {
    let d = driver(2, &[5, 6, 7, 8], true);
    let j = job();
    let one = d.pass_one(None::<&ProverKey>, &j.vec_words, &j.vec_word_info, &rands(), 0).unwrap();
    // each segment looks up the place with its number
    assert_eq!(one.looked, vec![0, 1, 0]);
    let two = d.pass_two(&j.vec_words, &j.vec_word_info, &one).unwrap();
    assert_eq!(two.starts, vec![0, 2, 4]);
    let row = |v: [u64; 6]| v.map(Fr::from_u64).to_vec();
    assert_eq!(
        two.statements,
        vec![row([1, 1, 3, 0, 2, 3]), row([1, 2, 103, 2, 2, 0]), row([2, 1, 6, 4, 2, 0])],
    );
    assert_eq!(two.cm_fs, (0..3).map(|k| fixed_memory(k, true)).collect::<Vec<G1>>());
    assert_eq!(two.hash_cm_f, chain_cm_f(&config(), &two.cm_fs));
    // without shares
    let built = d.build_statements(&j.vec_words, &j.vec_word_info, &one.steps, &one.pcs, None).unwrap();
    assert_eq!(built[1], [1, 2, 103].map(Fr::from_u64).to_vec());
    // a word without elements has no statement
    let mut empty = job();
    empty.vec_words[0].clear();
    let two = full_passes(&driver(2, &[], true), &empty.vec_words);
    assert_eq!(two.statements.len(), 1);
    assert_eq!(two.statements[0], row([2, 1, 6, 0, 2, 1]));
}

#[test]
fn statements_that_cannot_be_built() {
    let d = driver(2, &[], true);
    let mut j = job();
    j.vec_words[0][2] = Fr::from_u64(666);
    let one = d.pass_one(None::<&ProverKey>, &j.vec_words, &j.vec_word_info, &rands(), 0);
    assert!(matches!(one, Err(Error::Other(s)) if s == "no statement"));
    // a statement without a fixed memory
    let mut j = job();
    j.vec_words[0][2] = Fr::from_u64(664);
    let one = d.pass_one(None::<&ProverKey>, &j.vec_words, &j.vec_word_info, &rands(), 0).unwrap();
    assert!(matches!(d.pass_two(&j.vec_words, &j.vec_word_info, &one), Err(Error::CommitmentFail)));
}

#[test]
fn words_are_planned_with_their_info() {
    let ladder = vec![vec![Segments { max: 2, halo: 1, top: u64::MAX }]];
    let d = Driver::new(config(), ladder, vec![], vec![], vec![2], false, true);
    let info = WordInfo { info: (), halo_nibbles: vec![9] };
    let word: Vec<Fr> = [1, 2, 3].map(Fr::from_u64).to_vec();
    // every segment sees the nibbles of the info
    let plan = d.planner.par_search_best_layer(true, &word, &info, 0, 0).unwrap();
    assert_eq!(plan.vec_adv, vec![(0, vec![9]), (1, vec![9])]);
    // a planner that looks ahead shows the next segment's
    let ahead = CapacityPlanner::new(vec![vec![Segments { max: 2, halo: 1, top: u64::MAX }]]);
    let plan = ahead.par_search_best_layer(true, &word, &info, 0, 0).unwrap();
    assert_eq!(plan.vec_adv, vec![(0, vec![3]), (1, vec![9])]);
}

#[test]
fn steps_of_the_words() {
    let d = driver(2, &[], true);
    let job = job();
    let adv = foldpot::batch_proc::SnarkAdvice::empty(&job.vec_words);
    let (steps, pcs) = d.plan_steps(&job.vec_words, &job.vec_word_info, &adv).unwrap();
    assert_eq!(pcs, vec![0, 0, 0]);
    let f = Fr::from_u64;
    let words: Vec<Fr> = steps.iter().map(|s| s.word_id).collect();
    assert_eq!(words, vec![f(1), f(1), f(2)]);
    let segs: Vec<Fr> = steps.iter().map(|s| s.subseg_id).collect();
    assert_eq!(segs, vec![f(1), f(2), f(1)]);
    let sizes: Vec<Fr> = steps.iter().map(|s| s.act_word_subseg_size).collect();
    assert_eq!(sizes, vec![f(2), f(1), f(2)]);
    let covered: Vec<Fr> = steps.iter().map(|s| s.accumulated_word_len).collect();
    assert_eq!(covered, vec![f(2), f(3), f(2)]);
    assert!(steps.iter().all(|s| s.total_words == f(2) && s.n_circ == f(1)));
    assert_eq!(d.lookup_starts(&pcs), (vec![0, 2, 4], 6));
    assert_eq!(d.batch_key_len(10), 11);
}

#[test]
fn sizes_of_jobs() {
    assert_eq!(job_sizes::<()>(&vec![]), (0, 0));
    let small = FoldPotJob { vec_words: vec![vec![Fr::one(); 9]], ..job() };
    assert_eq!(job_sizes(&vec![job(), small]), (2, 9));
}

#[test]
fn dummies() {
    let d = driver(2, &[], true);
    let v = d.planner.dummy_steps(&no_info()).unwrap();
    assert_eq!(v.len(), 1);
    assert_eq!(v[0].0, dummy_extra_info(0, 1, 2));
    assert_eq!(v[0].1, (0, vec![]));
    let info = dummy_extra_info(3, 4, 7);
    assert_eq!(info.pc_i, Fr::from_u64(3));
    assert_eq!(info.pc_i1, Fr::from_u64(3));
    assert_eq!(info.n_circ, Fr::from_u64(4));
    assert_eq!(info.total_word_len, Fr::from_u64(7));
    assert_eq!(info.word_id, Fr::one());
    assert_eq!(info.batch_r, Fr::zero());
}

#[test]
fn nibbles_of_bytes() {
    let v = read_nibbles(&vec![0xa5, 0x0f]);
    assert_eq!(v, [10, 5, 0, 15].iter().map(|x| Fr::from_u64(*x)).collect::<Vec<_>>());
}
