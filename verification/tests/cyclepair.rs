use ark_bn254::Bn254;
use ark_bn254::Fq as ArkFq;
use ark_bn254::Fr as ArkFr;
use ark_bn254::G1Projective;
use ark_bn254::G2Projective;
use ark_crypto_primitives::sponge::poseidon::find_poseidon_ark_and_mds;
use ark_ec::AffineRepr;
use ark_ec::CurveGroup;
use ark_ec::pairing::Pairing;
use ark_ff::Field as ArkField;
use ark_ff::PrimeField;
use ark_std::UniformRand;
use ark_std::test_rng;
use foldpot::curve::Fq2;
use foldpot::curve::G1;
use foldpot::curve::G2;
use foldpot::curve::Grumpkin;
use foldpot::cyclepair::CyclePairChallengeGadget;
use foldpot::cyclepair::CyclePairCircuit;
use foldpot::cyclepair::CyclePairCommittedInstanceVar;
use foldpot::cyclepair::NIFSFullGadgetCyclePair;
use foldpot::cyclepair::cp_io_len;
use foldpot::cyclepair::g1_to_field_elements;
use foldpot::cyclepair::g2_to_field_elements;
use foldpot::cyclepair::is_slice_zero;
use foldpot::cyclepair::projective_from_field_elements;
use foldpot::cyclepair::projective_from_field_elements_g2;
use foldpot::error::Error;
use foldpot::field::Field;
use foldpot::field_fq::Fq;
use foldpot::field_fr::Fr;
use foldpot::limbs::fq_from_bits;
use foldpot::nova::CommittedInstance;
use foldpot::nova::fold_pair_instances;
use foldpot::sponge::PoseidonConfig;
use foldpot::sponge::Sponge;
use rand::Rng;

fn fr(x: ArkFr) -> Fr {
    Fr::from_limbs(x.into_bigint().0)
}

fn fq(x: ArkFq) -> Fq {
    Fq::from_limbs(x.into_bigint().0)
}

fn g1(p: G1Projective) -> G1 {
    match p.into_affine().xy() {
        None => G1::Infinity,
        Some((x, y)) => G1::Point(fq(x), fq(y)),
    }
}

fn g2(p: G2Projective) -> G2 {
    match p.into_affine().xy() {
        None => G2::Infinity,
        Some((x, y)) => G2::Point(Fq2 { c0: fq(x.c0), c1: fq(x.c1) }, Fq2 { c0: fq(y.c0), c1: fq(y.c1) }),
    }
}

fn grumpkin(p: ark_grumpkin::Projective) -> Grumpkin {
    match p.into_affine().xy() {
        None => Grumpkin::Infinity,
        Some((x, y)) => Grumpkin::Point(fr(x), fr(y)),
    }
}

/// The parameters with rate four and the rounds for 128 bits of security.
fn config() -> PoseidonConfig {
    let (ark, mds) = find_poseidon_ark_and_mds::<ArkFr>(254, 4, 8, 60, 0);
    let rows = |m: Vec<Vec<ArkFr>>| m.into_iter().map(|r| r.into_iter().map(fr).collect()).collect();
    PoseidonConfig { full_rounds: 8, partial_rounds: 60, alpha: 5, ark: rows(ark), mds: rows(mds), rate: 4, capacity: 1 }
}

struct RealInstance {
    gt1: Vec<Fq>,
    a: G1,
    b: G2,
    gt2: Vec<Fq>,
}

fn target(e: ark_bn254::Fq12) -> Vec<Fq> {
    e.to_base_prime_field_elements().map(fq).collect()
}

/// A pairing, and target elements whose quotient it is.
fn rand_real_inst() -> RealInstance {
    let mut rng = test_rng();
    let a = G1Projective::rand(&mut rng);
    let b = G2Projective::rand(&mut rng);
    let t1 = G1Projective::rand(&mut rng);
    let t2 = G2Projective::rand(&mut rng);
    let gt1 = Bn254::pairing(t1, t2).0;
    let gt2 = gt1 * Bn254::pairing(a, b).0;
    RealInstance { gt1: target(gt1), a: g1(a), b: g2(b), gt2: target(gt2) }
}

fn elements(i: &RealInstance) -> Vec<Fq> {
    [i.gt1.clone(), g1_to_field_elements(&i.a), g2_to_field_elements(&i.b), i.gt2.clone()].concat()
}

fn random_instance(n: usize, rng: &mut impl Rng) -> CommittedInstance {
    CommittedInstance {
        cm_e: grumpkin(ark_grumpkin::Projective::rand(rng)),
        u: fq(ArkFq::rand(rng)),
        cm_w: grumpkin(ark_grumpkin::Projective::rand(rng)),
        x: (0..n).map(|_| fq(ArkFq::rand(rng))).collect(),
    }
}

#[test]
#[allow(non_snake_case)]
fn test_CyclePairCircuit_constraints() {
    let i = rand_real_inst();
    let x = elements(&i);
    let circuit = CyclePairCircuit { gt1: i.gt1, a: i.a, b: i.b, gt2: i.gt2, x };
    assert!(circuit.generate_constraints().is_ok());
    let empty = CyclePairCircuit::empty();
    assert!(empty.generate_constraints().is_ok());
}

#[test]
fn cyclepair_wrong_product() {
    let i = rand_real_inst();
    let x = elements(&i);
    let wrong = CyclePairCircuit { gt1: i.gt2.clone(), a: i.a, b: i.b, gt2: i.gt2, x };
    assert!(matches!(wrong.generate_constraints(), Err(Error::NotSatisfied)));
}

#[test]
fn test_cyclepair_from_to() {
    let i = rand_real_inst();
    let vec_fq = CyclePairCircuit::real_inst_to_fq(&i.gt1, &i.a, &i.b, &i.gt2);
    assert!(vec_fq == elements(&i));
    assert_eq!(vec_fq.len(), cp_io_len());
    let c = CyclePairCircuit::from_vec_fq(&vec_fq);
    assert!(c.gt1 == i.gt1 && c.gt2 == i.gt2 && c.a == i.a && c.b == i.b);
    assert_eq!(c.x, vec_fq);
    assert!(c.generate_constraints().is_ok());
}

#[test]
fn point_elements() {
    let i = rand_real_inst();
    let a = g1_to_field_elements(&i.a);
    assert_eq!(a.len(), 3);
    assert_eq!(projective_from_field_elements(&a), i.a);
    let mut b = g2_to_field_elements(&i.b);
    assert_eq!(b.len(), 5);
    b.push(Fq::zero());
    assert_eq!(projective_from_field_elements_g2(&b), i.b);
    let o = g1_to_field_elements(&G1::Infinity);
    assert_eq!(projective_from_field_elements(&o), G1::Infinity);
    assert_eq!(is_slice_zero(&vec![Fq::zero(), Fq::zero()]), Fq::one());
    assert_eq!(is_slice_zero(&vec![Fq::zero(), Fq::one()]), Fq::zero());
}

#[test]
fn test_nifs_full_gadget() {
    let mut rng = test_rng();
    let ci1 = random_instance(1, &mut rng);
    let mut ci2 = random_instance(1, &mut rng);
    ci2.cm_e = Grumpkin::Infinity;
    ci2.u = Fq::one();
    let cm_t = grumpkin(ark_grumpkin::Projective::rand(&mut rng));
    let r = Fq::from_u64(91);
    let ci3 = fold_pair_instances(&r, &cm_t, &ci1, &ci2);
    let var = CyclePairCommittedInstanceVar::new_variable;
    assert!(NIFSFullGadgetCyclePair::verify(&r, &cm_t, &var(&ci1), &var(&ci2), &var(&ci3)).is_ok());
    let res = NIFSFullGadgetCyclePair::verify(&Fq::from_u64(92), &cm_t, &var(&ci1), &var(&ci2), &var(&ci3));
    assert!(matches!(res, Err(Error::NotSatisfied)));
    assert_eq!(ci3.u, ci1.u.plus(&r));
    assert_eq!(ci3.cm_w, ci1.cm_w.plus(&ci2.cm_w.times(&r)));
}

#[test]
fn test_cyclepair_challenge_gadget() {
    let mut rng = test_rng();
    let c = config();
    let u_i = CommittedInstance {
        cm_e: Grumpkin::Infinity,
        u: Fq::zero(),
        cm_w: grumpkin(ark_grumpkin::Projective::rand(&mut rng)),
        x: (0..7).map(|_| fq(ArkFq::rand(&mut rng))).collect(),
    };
    let big_u_i = random_instance(16, &mut rng);
    let cm_t = grumpkin(ark_grumpkin::Projective::rand(&mut rng));
    let pp_hash = Fr::from_u64(42);
    let mut transcript = Sponge::new(&c);
    let r_bits =
        CyclePairChallengeGadget::get_challenge_native(&mut transcript, &pp_hash, &big_u_i, &u_i, &cm_t);
    let mut transcript_var = Sponge::new(&c);
    let r_bits_var = CyclePairChallengeGadget::get_challenge_gadget(
        &mut transcript_var,
        &pp_hash,
        &CyclePairCommittedInstanceVar::new_variable(&big_u_i).to_native_sponge_field_elements(),
        &CyclePairCommittedInstanceVar::new_variable(&u_i),
        &cm_t,
    );
    assert_eq!(r_bits_var, r_bits);
    assert_eq!(fq_from_bits(&r_bits_var), fq_from_bits(&r_bits));
    assert!(fq_from_bits(&r_bits).is_some());
}

#[test]
fn test_cyclepair_hash_gadget() {
    let mut rng = test_rng();
    let sponge = Sponge::new(&config());
    let u_i = random_instance(7, &mut rng);
    let pp_hash = Fr::from_u64(42);
    let h = u_i.hash_cyclefold(&sponge, &pp_hash);
    let (h_var, _) = CyclePairCommittedInstanceVar::new_variable(&u_i).hash(&sponge, &pp_hash);
    assert_eq!(h_var, h);
    assert_ne!(u_i.hash_cyclefold(&sponge, &Fr::from_u64(43)), h);
}
