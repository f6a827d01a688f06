use ark_bn254::Fq as ArkFq;
use ark_bn254::Fr as ArkFr;
use ark_bn254::G1Projective;
use ark_crypto_primitives::sponge::poseidon::find_poseidon_ark_and_mds;
use ark_ec::AffineRepr;
use ark_ec::CurveGroup;
use ark_ff::PrimeField;
use ark_std::UniformRand;
use ark_std::test_rng;
use foldpot::commitment::CommitmentScheme;
use foldpot::commitment::Pedersen;
use foldpot::curve::G1;
use foldpot::error::Error;
use foldpot::field::Field;
use foldpot::field_fq::Fq;
use foldpot::field_fr::Fr;
use foldpot::instance::Blinds;
use foldpot::instance::CommittedInstanceFoldPot;
use foldpot::instance::WitnessFoldPot;
use foldpot::instance::check_instance_relation;
use foldpot::instance::check_relaxed_instance_relation;
use foldpot::instance::dummy_instance_foldpot;
use foldpot::limbs::fr_from_bits;
use foldpot::nifs::ChallengeGadgetFoldPot;
use foldpot::nifs::CommittedInstanceVarFoldPot;
use foldpot::nifs::NIFSFoldPot;
use foldpot::nifs::NIFSGadgetFoldPot;
use foldpot::r1cs::R1CS;
use foldpot::r1cs::SparseMatrix;
use foldpot::sponge::PoseidonConfig;
use foldpot::sponge::Sponge;
use rand::Rng;

fn fr(x: ArkFr) -> Fr {
    Fr::from_limbs(x.into_bigint().0)
}

fn fq(x: ArkFq) -> Fq {
    Fq::from_limbs(x.into_bigint().0)
}

fn g1(p: G1Projective) -> G1 {
    match p.into_affine().xy() {
        None => G1::Infinity,
        Some((x, y)) => G1::Point(fq(x), fq(y)),
    }
}

/// The parameters with rate four and the rounds for 128 bits of security.
fn config() -> PoseidonConfig {
    let (ark, mds) = find_poseidon_ark_and_mds::<ArkFr>(254, 4, 8, 60, 0);
    let rows = |m: Vec<Vec<ArkFr>>| m.into_iter().map(|r| r.into_iter().map(fr).collect()).collect();
    PoseidonConfig { full_rounds: 8, partial_rounds: 60, alpha: 5, ark: rows(ark), mds: rows(mds), rate: 4, capacity: 1 }
}

fn random_instance(rng: &mut impl Rng) -> CommittedInstanceFoldPot {
    CommittedInstanceFoldPot {
        cm_e: g1(G1Projective::rand(rng)),
        u: fr(ArkFr::rand(rng)),
        cm_w: g1(G1Projective::rand(rng)),
        x: vec![fr(ArkFr::rand(rng))],
        cm_f: g1(G1Projective::rand(rng)),
    }
}

fn matrix(rows: &[[u64; 6]]) -> SparseMatrix<Fr> {
    let coeffs = rows
        .iter()
        .map(|r| (0..6).filter(|k| r[*k] != 0).map(|k| (Fr::from_u64(r[k]), k)).collect())
        .collect();
    SparseMatrix { n_rows: rows.len(), n_cols: 6, coeffs }
}

/// The system of `x^3 + x + 5 == y` with the public value `x`.
fn cubic() -> R1CS<Fr> {
    R1CS {
        l: 1,
        a: matrix(&[[0, 1, 0, 0, 0, 0], [0, 0, 0, 1, 0, 0], [0, 1, 0, 0, 1, 0], [5, 0, 0, 0, 0, 1]]),
        b: matrix(&[[0, 1, 0, 0, 0, 0], [0, 1, 0, 0, 0, 0], [1, 0, 0, 0, 0, 0], [1, 0, 0, 0, 0, 0]]),
        c: matrix(&[[0, 0, 0, 1, 0, 0], [0, 0, 0, 0, 1, 0], [0, 0, 0, 0, 0, 1], [0, 0, 1, 0, 0, 0]]),
    }
}

/// The secret and the public values for `x`.
fn cubic_values(x: u64) -> (Vec<Fr>, Vec<Fr>) {
    let w = [x * x * x + x + 5, x * x, x * x * x, x * x * x + x].iter().map(|v| Fr::from_u64(*v)).collect();
    (w, vec![Fr::from_u64(x)])
}

fn generators(n: usize, rng: &mut impl Rng) -> Vec<G1> {
    (0..n).map(|_| g1(G1Projective::rand(rng))).collect()
}

fn blinds(rng: &mut impl Rng) -> Blinds {
    Blinds { r_w: fr(ArkFr::rand(rng)), r_e: fr(ArkFr::rand(rng)), r_f: fr(ArkFr::rand(rng)) }
}

fn text(ci: &CommittedInstanceFoldPot) -> String {
    format!("{:?}", ci)
}

struct Fold {
    r1cs: R1CS<Fr>,
    cs: Pedersen,
    w1: WitnessFoldPot,
    ci1: CommittedInstanceFoldPot,
    w2: WitnessFoldPot,
    ci2: CommittedInstanceFoldPot,
    t: Vec<Fr>,
    cm_t: G1,
}

/// Two satisfied instances and the cross term between them.
fn simple_fold(hiding: bool) -> Fold {
    let mut rng = test_rng();
    let r1cs = cubic();
    let cs = Pedersen { hiding, h: g1(G1Projective::rand(&mut rng)), generators: generators(6, &mut rng) };
    let make = |x: u64, b: &Blinds| {
        let (w, x) = cubic_values(x);
        let wit = WitnessFoldPot::new(&w, 4, hiding, b, 2, 1);
        let ci = wit.commit(&cs, &x).unwrap();
        (wit, ci)
    };
    let (w1, ci1) = make(3, &blinds(&mut rng));
    let (w2, ci2) = make(4, &blinds(&mut rng));
    let (t, cm_t) = NIFSFoldPot::compute_cmT(&cs, &r1cs, &w2, &ci2, &w1, &ci1);
    Fold { r1cs, cs, w1, ci1, w2, ci2, t, cm_t: cm_t.unwrap() }
}

#[test]
fn test_committed_instance_var() {
    let mut rng = test_rng();
    let ci = random_instance(&mut rng);
    let var = CommittedInstanceVarFoldPot::new_variable(&ci);
    assert_eq!(var.value.u, ci.u);
    assert_eq!(var.value.x, ci.x);
}

#[test]
fn test_nifs_gadget() {
    let f = simple_fold(false);
    let r = Fr::from_u64(7);
    let (_w3, ci3) = NIFSFoldPot::fold_instances(&r, &f.w1, &f.ci1, &f.w2, &f.ci2, &f.t, &f.cm_t);
    let ci3_verifier = NIFSFoldPot::verify(&r, &f.ci1, &f.ci2, &f.cm_t);
    assert_eq!(text(&ci3_verifier), text(&ci3));

    let ci1_var = CommittedInstanceVarFoldPot::new_variable(&f.ci1);
    let ci2_var = CommittedInstanceVarFoldPot::new_variable(&f.ci2);
    let ci3_var = CommittedInstanceVarFoldPot::new_variable(&ci3);
    assert!(NIFSGadgetFoldPot::verify(&r, &ci1_var, &ci2_var, &ci3_var).is_ok());
    assert!(NIFSGadgetFoldPot::verify(&Fr::from_u64(8), &ci1_var, &ci2_var, &ci3_var).is_err());
}

#[test]
fn test_committed_instance_hash() {
    let mut rng = test_rng();
    let sponge = Sponge::new(&config());
    let pp_hash = Fr::from_u64(42);
    let i = Fr::from_u64(3);
    let z_0 = vec![Fr::from_u64(3)];
    let z_i = vec![Fr::from_u64(3)];
    let ci = random_instance(&mut rng);
    let h = ci.hash(&sponge, &pp_hash, &i, &z_0, &z_i);
    let var = CommittedInstanceVarFoldPot::new_variable(&ci);
    let (h_var, elems) = var.hash(&sponge, &pp_hash, &i, &z_0, &z_i);
    assert_eq!(h_var, h);
    assert_eq!(elems, ci.to_sponge_field_elements());
    assert_ne!(ci.hash(&sponge, &pp_hash, &Fr::from_u64(4), &z_0, &z_i), h);
}

#[test]
fn test_challenge_gadget() {
    let mut rng = test_rng();
    let c = config();
    let u_i = random_instance(&mut rng);
    let big_u_i = random_instance(&mut rng);
    let cm_t = g1(G1Projective::rand(&mut rng));
    let pp_hash = Fr::from_u64(42);

    let mut transcript = Sponge::new(&c);
    let bits = ChallengeGadgetFoldPot::get_challenge_native(&mut transcript, &pp_hash, &big_u_i, &u_i, &cm_t);
    let r = fr_from_bits(&bits).unwrap();

    let big_u_var = CommittedInstanceVarFoldPot::new_variable(&big_u_i);
    let u_var = CommittedInstanceVarFoldPot::new_variable(&u_i);
    let mut transcript_var = Sponge::new(&c);
    let bits_var = ChallengeGadgetFoldPot::get_challenge_gadget(
        &mut transcript_var,
        &pp_hash,
        &big_u_var.to_sponge_field_elements(),
        &u_var,
        &cm_t,
    );
    assert_eq!(bits_var, bits);
    assert_eq!(fr_from_bits(&bits_var).unwrap(), r);
    assert_eq!(bits.len(), 128);
}

#[test]
fn challenges_of_one_transcript_differ() {
    let mut rng = test_rng();
    let u_i = random_instance(&mut rng);
    let big_u_i = random_instance(&mut rng);
    let cm_t = g1(G1Projective::rand(&mut rng));
    let pp_hash = Fr::from_u64(42);
    let mut transcript = Sponge::new(&config());
    let first = ChallengeGadgetFoldPot::get_challenge_native(&mut transcript, &pp_hash, &big_u_i, &u_i, &cm_t);
    let second = ChallengeGadgetFoldPot::get_challenge_native(&mut transcript, &pp_hash, &big_u_i, &u_i, &cm_t);
    assert_ne!(first, second);
}

#[test]
fn folding_keeps_satisfaction() {
    for hiding in [false, true] {
        let f = simple_fold(hiding);
        assert!(check_instance_relation(&f.r1cs, &f.w1, &f.ci1).is_ok());
        assert!(check_instance_relation(&f.r1cs, &f.w2, &f.ci2).is_ok());
        let r = Fr::from_u64(1234567);
        let (w3, ci3) = NIFSFoldPot::fold_instances(&r, &f.w1, &f.ci1, &f.w2, &f.ci2, &f.t, &f.cm_t);
        assert!(check_relaxed_instance_relation(&f.r1cs, &w3, &ci3).is_ok());
        assert!(check_instance_relation(&f.r1cs, &w3, &ci3).is_err());
        // the folded witness opens the folded commitments
        assert_eq!(f.cs.commit(&w3.w, &w3.r_w).unwrap(), ci3.cm_w);
        let mut broken = w3.dup();
        broken.w[0] = broken.w[0].plus(&Fr::one());
        assert!(check_relaxed_instance_relation(&f.r1cs, &broken, &ci3).is_err());
    }
}

#[test]
fn selected_variable() {
    let mut rng = test_rng();
    let mut var = || {
        let mut ci = random_instance(&mut rng);
        ci.x.push(Fr::one());
        CommittedInstanceVarFoldPot::new_variable(&ci)
    };
    let (a, b) = (var(), var());
    let first = CommittedInstanceVarFoldPot::conditionally_select(true, &a, &b);
    let second = CommittedInstanceVarFoldPot::conditionally_select(false, &a, &b);
    assert!(first.enforce_equal(&a).is_ok() && first.enforce_equal(&b).is_err());
    assert!(second.enforce_equal(&b).is_ok() && second.enforce_equal(&a).is_err());
    // each commitment is compared
    let with = |change: fn(&mut CommittedInstanceFoldPot)| {
        let mut ci = a.value.dup();
        change(&mut ci);
        CommittedInstanceVarFoldPot { value: ci }
    };
    assert!(matches!(a.enforce_equal(&with(|ci| ci.cm_w = G1::Infinity)), Err(Error::NotSatisfied)));
    assert!(a.enforce_equal(&with(|ci| ci.cm_e = G1::Infinity)).is_err());
    assert!(a.enforce_equal(&with(|ci| ci.cm_f = G1::Infinity)).is_err());
    assert!(a.enforce_equal(&with(|ci| ci.u = Fr::zero())).is_err());
    assert!(a.enforce_equal(&with(|ci| ci.x[1] = Fr::zero())).is_err());
    assert!(a.enforce_equal(&with(|_| ())).is_ok());
}

#[test]
fn full_fold_of_variables() {
    let mut rng = test_rng();
    let (a, b) = (random_instance(&mut rng), random_instance(&mut rng));
    let cm_t = g1(G1Projective::rand(&mut rng));
    let r = Fr::from_u64(6);
    let var = CommittedInstanceVarFoldPot::new_variable;
    let c = NIFSGadgetFoldPot::fold_committed_instance_full(&r, &var(&a), &var(&b), &cm_t);
    assert_eq!(text(&c.value), text(&NIFSFoldPot::verify(&r, &a, &b, &cm_t)));
    // the commitments are left to the other curve
    let d = NIFSGadgetFoldPot::fold_committed_instance(&r, &var(&a), &var(&b));
    assert_eq!((d.value.u, d.value.cm_w), (c.value.u, G1::Infinity));
    assert_eq!(d.value.x, c.value.x);
}

#[test]
fn dummies_satisfy_the_relaxed_system() {
    let r1cs = cubic();
    let (w, u) = dummy_instance_foldpot(&r1cs, 2, 1);
    assert!(check_relaxed_instance_relation(&r1cs, &w, &u).is_ok());
    assert_eq!((u.u, u.cm_w, u.x.len()), (Fr::zero(), G1::Infinity, 1));
}

#[test]
fn folding_values() {
    let mut rng = test_rng();
    let a = random_instance(&mut rng);
    let b = random_instance(&mut rng);
    let cm_t = g1(G1Projective::rand(&mut rng));
    let r = Fr::from_u64(5);
    let c = NIFSFoldPot::verify(&r, &a, &b, &cm_t);
    assert_eq!(c.u, a.u.plus(&r.times(&b.u)));
    assert_eq!(c.x[0], a.x[0].plus(&r.times(&b.x[0])));
    assert_eq!(c.cm_w, a.cm_w.plus(&b.cm_w.times(&r)));
    assert_eq!(c.cm_f, a.cm_f.plus(&b.cm_f.times(&r)));
    assert_eq!(
        c.cm_e,
        a.cm_e.plus(&b.cm_e.times(&r)).plus(&cm_t.times(&r)),
    );
}
