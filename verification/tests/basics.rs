use ark_bn254::Fq as ArkFq;
use ark_bn254::Fr as ArkFr;
use ark_bn254::G1Projective;
use ark_crypto_primitives::sponge::CryptographicSponge;
use ark_crypto_primitives::sponge::FieldBasedCryptographicSponge;
use ark_crypto_primitives::sponge::poseidon::PoseidonConfig as ArkConfig;
use ark_crypto_primitives::sponge::poseidon::PoseidonSponge;
use ark_crypto_primitives::sponge::poseidon::find_poseidon_ark_and_mds;
use ark_ec::AffineRepr;
use ark_ec::CurveGroup;
use ark_ff::BigInt;
use ark_ff::BigInteger;
use ark_ff::PrimeField;
use ark_std::UniformRand;
use ark_std::test_rng;
use foldpot::batch_proc::QaNizkProver;
use foldpot::batch_proc::QaNizkProverParams;
use foldpot::commitment::CommitmentScheme;
use foldpot::commitment::Pedersen;
use foldpot::commitment::PedersenGrumpkin;
use foldpot::curve::G1;
use foldpot::curve::Grumpkin;
use foldpot::field::Field;
use foldpot::field_fq::Fq;
use foldpot::field_fr::Fr;
use foldpot::foldpot_super::field_to_usize;
use foldpot::limbs::absorb_fq;
use foldpot::limbs::absorb_fr;
use foldpot::limbs::absorb_g1;
use foldpot::limbs::f1_limbs_to_f2;
use foldpot::limbs::f1_to_f2_limbs;
use foldpot::limbs::fq_from_bits;
use foldpot::limbs::fr_from_bits;
use foldpot::limbs::inputize;
use foldpot::nova::Witness;
use foldpot::nova::is_zero_vec;
use foldpot::part_two::ZiPartTwoInst;
use foldpot::part_two::chain;
use foldpot::part_two::compute_step_hc;
use foldpot::part_two::digest_of;
use foldpot::sponge::PoseidonConfig;
use foldpot::sponge::Sponge;
use foldpot::r1cs::R1CS;
use foldpot::r1cs::SparseMatrix;
use foldpot::super_setup::CircuitSize;
use foldpot::super_setup::KeyRow;
use foldpot::super_setup::PreprocessorParamFoldPotSuper;
use foldpot::super_setup::build_key_row;
use foldpot::super_setup::preprocess_layout;
use foldpot::vecs::join_rows;
use foldpot::vecs::reversed;
use foldpot::vecs::same_elements;

fn fr(x: ArkFr) -> Fr {
    Fr::from_limbs(x.into_bigint().0)
}

fn fq(x: ArkFq) -> Fq {
    Fq::from_limbs(x.into_bigint().0)
}

fn g1(p: G1Projective) -> G1 {
    match p.into_affine().xy() {
        None => G1::Infinity,
        Some((x, y)) => G1::Point(fq(x), fq(y)),
    }
}

fn grumpkin(p: ark_grumpkin::Projective) -> Grumpkin {
    match p.into_affine().xy() {
        None => Grumpkin::Infinity,
        Some((x, y)) => Grumpkin::Point(fr(x), fr(y)),
    }
}

/// The parameters with rate four and the rounds for 128 bits of security.
fn config() -> PoseidonConfig {
    let (ark, mds) = find_poseidon_ark_and_mds::<ArkFr>(254, 4, 8, 60, 0);
    let rows = |m: Vec<Vec<ArkFr>>| m.into_iter().map(|r| r.into_iter().map(fr).collect()).collect();
    PoseidonConfig { full_rounds: 8, partial_rounds: 60, alpha: 5, ark: rows(ark), mds: rows(mds), rate: 4, capacity: 1 }
}

fn ark(x: &Fr) -> ArkFr {
    ArkFr::new(BigInt(x.limbs()))
}

#[test]
fn field_operations() {
    let rng = &mut test_rng();
    for _ in 0..20 {
        let (a, b) = (ArkFr::rand(rng), ArkFr::rand(rng));
        assert_eq!(fr(a).plus(&fr(b)), fr(a + b));
        assert_eq!(fr(a).minus(&fr(b)), fr(a - b));
        assert_eq!(fr(a).times(&fr(b)), fr(a * b));
        assert_eq!(fr(a).less(&fr(b)), a.into_bigint() < b.into_bigint());
        let (c, d) = (ArkFq::rand(rng), ArkFq::rand(rng));
        assert_eq!(fq(c).plus(&fq(d)), fq(c + d));
        assert_eq!(fq(c).minus(&fq(d)), fq(c - d));
        assert_eq!(fq(c).times(&fq(d)), fq(c * d));
        assert_eq!(fq(c).less(&fq(d)), c.into_bigint() < d.into_bigint());
    }
    // minus one is the largest element
    let top = Fr::zero().minus(&Fr::one());
    assert_eq!(top.plus(&Fr::one()), Fr::zero());
    assert!(!top.less(&top) && Fr::one().less(&top));
    assert!(top.same(&top) && !top.same(&Fr::one()));
    assert_eq!(Fr::from_u64(77).low_u64(), 77);
    assert_eq!(field_to_usize(&Fr::from_u64(77)), 77);
}

#[test]
fn bits_to_elements() {
    assert_eq!(fr_from_bits(&vec![true, false, true]), Some(Fr::from_u64(5)));
    assert_eq!(fq_from_bits(&vec![false, true]), Some(Fq::from_u64(2)));
    let modulus = ArkFr::MODULUS.to_bits_le();
    assert_eq!(fr_from_bits(&modulus), None);
    // the base field is larger than the scalar field
    assert!(fq_from_bits(&modulus).is_some());
    assert_eq!(fq_from_bits(&ArkFq::MODULUS.to_bits_le()), None);
}

#[test]
fn limbs_of_elements() {
    let rng = &mut test_rng();
    let x = ArkFq::rand(rng);
    let limbs = f1_to_f2_limbs(&fq(x));
    assert_eq!(limbs.len(), 5);
    assert_eq!(f1_limbs_to_f2(&limbs), fq(x));
    // the limbs have 55 bits
    let mut sum = ArkFq::from(0u64);
    for l in limbs.iter().rev() {
        assert!(l.low_u64() < 1 << 55);
        sum = sum * ArkFq::from(1u64 << 55) + ArkFq::from(l.low_u64());
    }
    assert_eq!(fq(sum), fq(x));
    assert_eq!(f1_to_f2_limbs(&Fq::from_u64((1 << 55) + 3))[..2], [Fr::from_u64(3), Fr::one()]);
    let p = g1(G1Projective::rand(rng));
    let (px, py) = p.coordinates();
    assert_eq!(inputize(&p), [f1_to_f2_limbs(&px), f1_to_f2_limbs(&py)].concat());
    assert_eq!(inputize(&G1::Infinity), vec![Fr::zero(); 10]);
}

#[test]
fn absorbed_elements() {
    let two = absorb_fq(&Fq::from_u64(9));
    assert_eq!(two, vec![Fr::from_u64(9), Fr::zero()]);
    // the top bits of a large element go to the second
    let top = ArkFq::from(0u64) - ArkFq::from(1u64);
    let v = absorb_fq(&fq(top));
    assert_eq!(v[1], Fr::one());
    assert_eq!(fq(ArkFq::from_le_bytes_mod_order(&ark(&v[0]).into_bigint().to_bytes_le()) + high_bit()), fq(top));
    assert_eq!(absorb_fr(&Fr::from_u64(4))[0], Fq::from_u64(4));
    assert_eq!(absorb_g1(&G1::Infinity).len(), 4);
}

/// `2^253` in the base field.
fn high_bit() -> ArkFq {
    (0..253).fold(ArkFq::from(1u64), |x, _| x + x)
}

#[test]
fn curve_operations() {
    let rng = &mut test_rng();
    let (a, b, s) = (G1Projective::rand(rng), G1Projective::rand(rng), ArkFr::rand(rng));
    assert_eq!(g1(a).plus(&g1(b)), g1(a + b));
    assert_eq!(g1(a).minus(&g1(b)), g1(a - b));
    assert_eq!(g1(a).minus(&g1(a)), G1::Infinity);
    assert_eq!(g1(a).times(&fr(s)), g1(a * s));
    assert_eq!(G1::Infinity.plus(&g1(a)), g1(a));
    let (x, y) = g1(a).coordinates();
    assert_eq!(G1::from_coordinates(&x, &y), g1(a));
    let (c, d, t) = (ark_grumpkin::Projective::rand(rng), ark_grumpkin::Projective::rand(rng), ArkFq::rand(rng));
    assert_eq!(grumpkin(c).plus(&grumpkin(d)), grumpkin(c + d));
    assert_eq!(grumpkin(c).times(&fq(t)), grumpkin(c * t));
    assert_eq!(grumpkin(c).times(&Fq::zero()), Grumpkin::Infinity);
}

fn ark_sponge() -> PoseidonSponge<ArkFr> {
    let (ark, mds) = find_poseidon_ark_and_mds::<ArkFr>(254, 4, 8, 60, 0);
    PoseidonSponge::new(&ArkConfig::new(8, 60, 5, mds, ark, 4, 1))
}

#[test]
fn sponge_is_the_outside_one() {
    let mut expected = ark_sponge();
    let mut s = Sponge::new(&config());
    let v: Vec<ArkFr> = (1..8u64).map(ArkFr::from).collect();
    let ours: Vec<Fr> = v.iter().map(|x| fr(*x)).collect();
    expected.absorb(&v);
    s.absorb(&ours);
    let first: Vec<Fr> = expected.squeeze_native_field_elements(3).into_iter().map(fr).collect();
    assert_eq!(s.squeeze(3), first);
    expected.absorb(&v[0]);
    s.absorb_one(&ours[0]);
    let other = s.dup();
    let bits = expected.squeeze_bits(128);
    assert_eq!(s.squeeze_bits(128), bits);
    let next = fr(expected.squeeze_native_field_elements(1)[0]);
    assert_eq!(s.squeeze_one(), next);
    // a copy goes its own way
    let mut other = other;
    assert_eq!(other.squeeze_bits(128), bits);
}

#[test]
fn digests_and_chains() {
    let c = config();
    let v = vec![Fr::from_u64(1), Fr::from_u64(2)];
    let mut expected = ark_sponge();
    expected.absorb(&vec![ArkFr::from(1u64), ArkFr::from(2u64)]);
    assert_eq!(digest_of(&c, &v), fr(expected.squeeze_native_field_elements(1)[0]));
    assert_eq!(chain(&c, &v[0], &vec![v[1]]), digest_of(&c, &v));
    let p = g1(G1Projective::rand(&mut test_rng()));
    assert_eq!(compute_step_hc(&c, &v[0], &p), chain(&c, &v[0], &absorb_g1(&p)));
}

#[test]
fn second_parts() {
    let c = config();
    let f = Fr::from_u64;
    let a = ZiPartTwoInst::new(&f(1), &f(2), false, 3);
    assert_eq!((a.ch, a.rc, a.n_words), (f(1), f(2), f(3)));
    assert!(a.cyclepair_input.is_none());
    let b = ZiPartTwoInst::new(&f(1), &f(2), true, 3);
    assert_eq!(b.cyclepair_input, Some(vec![Fr::zero(); 160]));
    assert_ne!(a.hash(&c), b.hash(&c));
    let mut d = a.dup();
    assert_eq!(d.hash(&c), a.hash(&c));
    d.f_result = f(9);
    assert_ne!(d.hash(&c), a.hash(&c));
}

#[test]
fn pedersen_commitments() {
    let rng = &mut test_rng();
    let points: Vec<G1Projective> = (0..3).map(|_| G1Projective::rand(rng)).collect();
    let h = G1Projective::rand(rng);
    let f = Fr::from_u64;
    let make = |hiding| Pedersen { hiding, h: g1(h), generators: points.iter().map(|p| g1(*p)).collect() };
    let sum = points[0] * ArkFr::from(4u64) + points[1] * ArkFr::from(5u64);
    assert_eq!(make(false).commit(&vec![f(4), f(5)], &f(6)), Some(g1(sum)));
    assert_eq!(make(true).commit(&vec![f(4), f(5)], &f(6)), Some(g1(sum + h * ArkFr::from(6u64))));
    assert_eq!(make(true).commit(&vec![f(1); 4], &f(6)), None);
    assert_eq!(make(true).msm(&vec![f(4), f(5)]), g1(sum));
    let q = QaNizkProverParams { key: make(false).generators };
    assert_eq!(q.prove(&vec![f(4)], &f(5)), g1(sum));
    assert_eq!(q.prove(&vec![f(4), f(5), f(0), f(1), f(1)], &f(7)), g1(sum));

    let gr: Vec<ark_grumpkin::Projective> = (0..2).map(|_| ark_grumpkin::Projective::rand(rng)).collect();
    let b = ark_grumpkin::Projective::rand(rng);
    let e = |x: u64| Fq::from_u64(x);
    let p = PedersenGrumpkin { hiding: false, h: grumpkin(b), generators: gr.iter().map(|p| grumpkin(*p)).collect() };
    let sum = gr[0] * ArkFq::from(2u64) + gr[1] * ArkFq::from(3u64);
    assert_eq!(p.commit(&vec![e(2), e(3)], &e(9)), Some(grumpkin(sum)));
    assert_eq!(p.commit_blinded(&vec![e(2), e(3)], &e(9)), Some(grumpkin(sum + b * ArkFq::from(9u64))));
    assert_eq!(p.commit_blinded(&vec![e(2); 3], &e(9)), None);
    let w = Witness { e: vec![e(0)], r_e: e(0), w: vec![e(2), e(3)], r_w: e(0) };
    let u = w.commit(&p, &vec![e(8)]).unwrap();
    assert_eq!((u.cm_w, u.cm_e, u.u), (grumpkin(sum), Grumpkin::Infinity, e(1)));
    assert_eq!(u.x, vec![e(8)]);
}

#[test]
fn commitments_to_zeros() {
    let rng = &mut test_rng();
    let (p, h) = (G1Projective::rand(rng), G1Projective::rand(rng));
    for hiding in [false, true] {
        let key = Pedersen { hiding, h: g1(h), generators: vec![g1(p), g1(h)] };
        assert_eq!(key.commit(&vec![Fr::zero(); 2], &Fr::zero()), Some(G1::Infinity));
    }
    assert_eq!(g1(p).times(&Fr::zero()), g1(p * ark_bn254::Fr::from(0u64)));
    assert_eq!(G1::Infinity.times(&Fr::from_u64(7)), G1::Infinity);
    assert_eq!(G1::Infinity.plus(&G1::Infinity), G1::Infinity);
    assert_eq!(G1::Infinity.plus(&g1(p)), g1(p));
    assert_eq!(g1(p).plus(&G1::Infinity), g1(p));
    assert_eq!(Grumpkin::Infinity.plus(&Grumpkin::Infinity), Grumpkin::Infinity);
    assert_eq!(Grumpkin::Infinity.times(&Fq::one()), Grumpkin::Infinity);
}

#[test]
fn vectors() {
    assert_eq!(join_rows(&vec![vec![1, 2], vec![], vec![3]]), vec![1, 2, 3]);
    assert_eq!(reversed(&vec![1, 2, 3]), vec![3, 2, 1]);
    let (zero, one) = (Fr::zero(), Fr::one());
    assert!(same_elements(&vec![zero, one], &vec![zero, one]));
    assert!(!same_elements(&vec![zero], &vec![zero, one]));
    assert!(is_zero_vec(&vec![zero, zero]) && !is_zero_vec(&vec![zero, one]));
}

#[test]
fn keys_of_two_circuits() {
    let size = |n_cols, n_rows, size_f, start_f| CircuitSize { n_cols, n_rows, cmf_len: 2, size_f, start_f };
    let sizes = vec![size(7, 2, 2, 1), size(5, 6, 1, 1)];
    let layout = preprocess_layout(&sizes, false);
    assert_eq!(layout.key_lens, vec![7, 6]);
    assert_eq!(layout.max_key_len, 7);
    assert_eq!((layout.total_w, layout.total_e, layout.total), (6, 8, 15));
    let row = |col, key, len| KeyRow { col, key, len };
    let expected = vec![
        row(0, 0, 15),
        row(0, 0, 4),
        row(6, 6, 2),
        row(1, 0, 2),
        row(4, 4, 2),
        row(8, 8, 6),
        row(5, 4, 1),
    ];
    assert_eq!(layout.rows, expected);
    let rng = &mut test_rng();
    let key = |n: usize, rng: &mut _| (0..n).map(|_| g1(G1Projective::rand(rng))).collect::<Vec<G1>>();
    let keys = vec![key(7, rng), key(6, rng)];
    let last = g1(G1Projective::rand(rng));
    let all = build_key_row(&keys, &sizes, false, &last);
    assert_eq!(all, [&keys[0][..4], &keys[1][..2], &keys[0][..2], &keys[1][..6], &[last]].concat());
    let prep = PreprocessorParamFoldPotSuper::new(&vec![2, 1], 9, false);
    assert_eq!(prep.sizes_f, vec![2, 1]);
    assert_eq!(prep.starts_f.len(), 2);

    let empty = |n_rows, n_cols| SparseMatrix { n_rows, n_cols, coeffs: vec![vec![]; n_rows] };
    let system = |n_rows: usize, n_cols: usize| R1CS::<Fr> {
        l: 2,
        a: empty(n_rows, n_cols),
        b: empty(n_rows, n_cols),
        c: empty(n_rows, n_cols),
    };
    let prep =
        PreprocessorParamFoldPotSuper { sizes_f: vec![2, 1], starts_f: vec![1, 1], lk_size: 9, b_full_mode: false };
    let found = prep.circuit_sizes(&vec![system(2, 7), system(6, 5)], &vec![2, 2]);
    let fields = |s: &CircuitSize| (s.n_cols, s.n_rows, s.cmf_len, s.size_f, s.start_f);
    assert_eq!(found.iter().map(fields).collect::<Vec<_>>(), sizes.iter().map(fields).collect::<Vec<_>>());
    let mut kzg_row = key(14, rng);
    kzg_row.push(last);
    let matrix = prep.preprocess(&found, &keys, &kzg_row);
    assert_eq!(matrix.rows, expected);
    assert_eq!(matrix.ped_row, all);
    assert_eq!(matrix.kzg_row, kzg_row);
}
