use ark_bn254::Fq as ArkFq;
use ark_bn254::Fr as ArkFr;
use ark_bn254::G1Projective;
use ark_crypto_primitives::crh::CRHScheme;
use ark_crypto_primitives::crh::CRHSchemeGadget;
use ark_crypto_primitives::crh::sha256::Sha256;
use ark_crypto_primitives::crh::sha256::constraints::Sha256Gadget;
use ark_crypto_primitives::crh::sha256::constraints::UnitVar;
use ark_ec::AffineRepr;
use ark_ec::CurveGroup;
use ark_ff::BigInteger;
use ark_ff::PrimeField;
use ark_poly::DenseUVPolynomial;
use ark_poly::Polynomial;
use ark_poly::univariate::DensePolynomial;
use ark_r1cs_std::alloc::AllocVar;
use ark_r1cs_std::eq::EqGadget;
use ark_r1cs_std::fields::fp::FpVar;
use ark_r1cs_std::uint8::UInt8;
use ark_relations::r1cs::ConstraintSynthesizer;
use ark_relations::r1cs::ConstraintSystem;
use ark_relations::r1cs::ConstraintSystemRef;
use ark_relations::r1cs::SynthesisError;
use ark_std::UniformRand;
use ark_std::test_rng;
use foldpot::curve::G1;
use foldpot::error::Error;
use foldpot::field::Field;
use foldpot::field_fq::Fq;
use foldpot::field_fr::Fr;
use foldpot::poly::evaluate_gadget;
use foldpot::poly::evaluate_padded_gadget;
use foldpot::r1cs::R1CS;
use foldpot::r1cs::RelaxedR1CSGadget;
use foldpot::r1cs::SparseMatrix;
use foldpot::r1cs::fold_vectors;
use foldpot::two_phase::TwoPhaseCircInput;

fn fr(x: ArkFr) -> Fr {
    Fr::from_limbs(x.into_bigint().0)
}

fn fq(x: ArkFq) -> Fq {
    Fq::from_limbs(x.into_bigint().0)
}

fn g1(p: G1Projective) -> G1 {
    match p.into_affine().xy() {
        None => G1::Infinity,
        Some((x, y)) => G1::Point(fq(x), fq(y)),
    }
}

fn matrix(rows: &[[u64; 6]]) -> SparseMatrix<Fr> {
    let coeffs = rows
        .iter()
        .map(|r| (0..6).filter(|k| r[*k] != 0).map(|k| (Fr::from_u64(r[k]), k)).collect())
        .collect();
    SparseMatrix { n_rows: rows.len(), n_cols: 6, coeffs }
}

/// The system of `x^3 + x + 5 == y`.
fn get_test_r1cs() -> R1CS<Fr> {
    R1CS {
        l: 1,
        a: matrix(&[[0, 1, 0, 0, 0, 0], [0, 0, 0, 1, 0, 0], [0, 1, 0, 0, 1, 0], [5, 0, 0, 0, 0, 1]]),
        b: matrix(&[[0, 1, 0, 0, 0, 0], [0, 1, 0, 0, 0, 0], [1, 0, 0, 0, 0, 0], [1, 0, 0, 0, 0, 0]]),
        c: matrix(&[[0, 0, 0, 1, 0, 0], [0, 0, 0, 0, 1, 0], [0, 0, 0, 0, 0, 1], [0, 0, 1, 0, 0, 0]]),
    }
}

fn get_test_z(x: u64) -> Vec<Fr> {
    [1, x, x * x * x + x + 5, x * x, x * x * x, x * x * x + x].iter().map(|v| Fr::from_u64(*v)).collect()
}

/// A system of constraints with its assignment.
struct Synthesized<F> {
    l: usize,
    n_cols: usize,
    a: Vec<Vec<(F, usize)>>,
    b: Vec<Vec<(F, usize)>>,
    c: Vec<Vec<(F, usize)>>,
    z: Vec<F>,
}

fn synthesize<F: PrimeField>(circuit: impl ConstraintSynthesizer<F>) -> Synthesized<F> {
    let cs = ConstraintSystem::<F>::new_ref();
    circuit.generate_constraints(cs.clone()).unwrap();
    cs.finalize();
    assert!(cs.is_satisfied().unwrap());
    let m = cs.to_matrices().unwrap();
    let cs = cs.into_inner().unwrap();
    let z = [cs.instance_assignment.clone(), cs.witness_assignment.clone()].concat();
    Synthesized { l: cs.instance_assignment.len() - 1, n_cols: z.len(), a: m.a, b: m.b, c: m.c, z }
}

fn sparse<F, L: Field>(rows: &[Vec<(F, usize)>], n_cols: usize, conv: impl Fn(&F) -> L) -> SparseMatrix<L> {
    let coeffs = rows.iter().map(|r| r.iter().map(|(v, k)| (conv(v), *k)).collect()).collect();
    SparseMatrix { n_rows: rows.len(), n_cols, coeffs }
}

fn system<F, L: Field>(s: &Synthesized<F>, conv: impl Fn(&F) -> L) -> R1CS<L> {
    R1CS {
        l: s.l,
        a: sparse(&s.a, s.n_cols, &conv),
        b: sparse(&s.b, s.n_cols, &conv),
        c: sparse(&s.c, s.n_cols, &conv),
    }
}

/// A circuit's assignment satisfies its relaxed system with no error, and not with an
/// error or another scale.
fn check_relaxed_gadget(circuit: impl ConstraintSynthesizer<ArkFr>) {
    let s = synthesize(circuit);
    let r1cs = system(&s, |x| fr(*x));
    let z: Vec<Fr> = s.z.iter().map(|x| fr(*x)).collect();
    let mut e = vec![Fr::zero(); r1cs.a.n_rows];
    let u = Fr::one();
    assert!(r1cs.check_relaxed(&e, &u, &z).is_ok());
    assert!(RelaxedR1CSGadget::check_native(&r1cs, &e, &u, &z).is_ok());
    e[0] = Fr::one();
    assert!(RelaxedR1CSGadget::check_native(&r1cs, &e, &u, &z).is_err());
}

/// A step from one element to the next, and the values around it.
struct Step<F> {
    z_i: F,
    z_i1: F,
    n: usize,
    cubic: bool,
}

impl<F: PrimeField> Step<F> {
    /// `x^3 + x + 5`.
    fn cubic(x: u64) -> Step<F> {
        let z = F::from(x);
        Step { z_i: z, z_i1: z * z * z + z + F::from(5u64), n: 0, cubic: true }
    }

    /// The power `n - 1`, a factor at a time.
    fn custom(n: usize, x: u64) -> Step<F> {
        let z = F::from(x);
        Step { z_i: z, z_i1: z.pow([n as u64 - 1]), n, cubic: false }
    }
}

impl<F: PrimeField> ConstraintSynthesizer<F> for Step<F> {
    fn generate_constraints(self, cs: ConstraintSystemRef<F>) -> Result<(), SynthesisError> {
        let z_i = FpVar::new_witness(cs.clone(), || Ok(self.z_i))?;
        let z_i1 = FpVar::new_witness(cs.clone(), || Ok(self.z_i1))?;
        if self.cubic {
            let five = FpVar::new_constant(cs, F::from(5u64))?;
            let computed = &z_i * &z_i * &z_i + &z_i + &five;
            return computed.enforce_equal(&z_i1);
        }
        let mut computed = FpVar::new_witness(cs, || Ok(F::one()))?;
        for _ in 1..self.n {
            computed *= &z_i;
        }
        computed.enforce_equal(&z_i1)
    }
}

struct Sha256Circuit {
    x: Vec<u8>,
    y: Vec<u8>,
}

impl ConstraintSynthesizer<ArkFr> for Sha256Circuit {
    fn generate_constraints(self, cs: ConstraintSystemRef<ArkFr>) -> Result<(), SynthesisError> {
        let x = Vec::<UInt8<ArkFr>>::new_witness(cs.clone(), || Ok(self.x))?;
        let y = Vec::<UInt8<ArkFr>>::new_input(cs.clone(), || Ok(self.y))?;
        let unit = UnitVar::default();
        let computed = <Sha256Gadget<ArkFr> as CRHSchemeGadget<Sha256, ArkFr>>::evaluate(&unit, &x)?;
        computed.0.enforce_equal(&y)
    }
}

fn small_handcrafted() {
    let r1cs = get_test_r1cs();
    let z = get_test_z(3);
    let e = vec![Fr::zero(); 4];
    assert!(RelaxedR1CSGadget::check_native(&r1cs, &e, &Fr::one(), &z).is_ok());
    let mut wrong = z.clone();
    wrong[2] = wrong[2].plus(&Fr::one());
    assert!(RelaxedR1CSGadget::check_native(&r1cs, &e, &Fr::one(), &wrong).is_err());
}

fn medium() {
    let x = ArkFr::from(5u32).into_bigint().to_bytes_le();
    let y = <Sha256 as CRHScheme>::evaluate(&(), x.clone()).unwrap();
    check_relaxed_gadget(Sha256Circuit { x, y });
}

fn nonnative() {
    let s = synthesize(Step::<ArkFq>::custom(10, 5));
    let r1cs = system(&s, |x| fq(*x));
    let mut z: Vec<Fq> = s.z.iter().map(|x| fq(*x)).collect();
    let e = vec![Fq::zero(); r1cs.a.n_rows];
    assert!(RelaxedR1CSGadget::check_nonnative(&r1cs, &e, &Fq::one(), &z).is_ok());
    z[1] = z[1].plus(&Fq::one());
    assert!(RelaxedR1CSGadget::check_nonnative(&r1cs, &e, &Fq::one(), &z).is_err());
}

fn interpolation() {
    let mut rng = test_rng();
    let l = 1 << 12;
    let v: Vec<ArkFr> = (0..l).map(|_| ArkFr::rand(&mut rng)).collect();
    let challenge = ArkFr::rand(&mut rng);
    let polynomial = DensePolynomial::from_coefficients_vec(v.clone());
    let eval = polynomial.evaluate(&challenge);
    let values = v.iter().map(|x| fr(*x)).collect();
    assert_eq!(evaluate_gadget(&values, &fr(challenge), &Fr::one()), fr(eval));
}

#[test]
fn test_phase2_input() {
    let mut rng = test_rng();
    let inp = TwoPhaseCircInput {
        ch1: fr(ArkFr::rand(&mut rng)),
        rc1: fr(ArkFr::rand(&mut rng)),
        kzg_sum1: fr(ArkFr::rand(&mut rng)),
        kzg_all_com_ch1: fr(ArkFr::rand(&mut rng)),
        eval_w_e1: fr(ArkFr::rand(&mut rng)),
        kzg_all_com_ch2: fr(ArkFr::rand(&mut rng)),
        eval_w_e2: fr(ArkFr::rand(&mut rng)),
        qa_nizk_vkey_hash: fr(ArkFr::rand(&mut rng)),
        comE2: g1(G1Projective::rand(&mut rng)),
        comW2: g1(G1Projective::rand(&mut rng)),
        comF2: g1(G1Projective::rand(&mut rng)),
    };
    let vec = inp.to_vec();
    assert_eq!(vec.len(), 38);
    let inp2 = TwoPhaseCircInput::from_vec(&vec);
    let vec2 = inp2.to_vec();
    assert!(vec == vec2);
    assert!(inp == inp2);
}

#[test]
fn copy2_decider_eth_circuit_super_test_relaxed_r1cs_small_gadget_handcrafted() {
    small_handcrafted();
}

#[test]
fn copy2_decider_eth_circuit_super_test_relaxed_r1cs_small_gadget_arkworks() {
    check_relaxed_gadget(Step::<ArkFr>::cubic(3));
}

#[test]
fn copy2_decider_eth_circuit_super_test_relaxed_r1cs_medium_gadget_arkworks() {
    medium();
}

#[test]
fn copy2_decider_eth_circuit_super_test_relaxed_r1cs_custom_circuit() {
    check_relaxed_gadget(Step::<ArkFr>::custom(10_000, 5));
}

#[test]
fn copy2_decider_eth_circuit_super_test_relaxed_r1cs_nonnative_circuit() {
    nonnative();
}

#[test]
fn copy2_decider_eth_circuit_super_test_polynomial_interpolation() {
    interpolation();
}

#[test]
fn decider_eth_circuit_super_test_relaxed_r1cs_small_gadget_handcrafted() {
    small_handcrafted();
}

#[test]
fn decider_eth_circuit_super_test_relaxed_r1cs_small_gadget_arkworks() {
    check_relaxed_gadget(Step::<ArkFr>::cubic(3));
}

#[test]
fn decider_eth_circuit_super_test_relaxed_r1cs_medium_gadget_arkworks() {
    medium();
}

#[test]
fn decider_eth_circuit_super_test_relaxed_r1cs_custom_circuit() {
    check_relaxed_gadget(Step::<ArkFr>::custom(10_000, 5));
}

#[test]
fn decider_eth_circuit_super_test_relaxed_r1cs_nonnative_circuit() {
    nonnative();
}

#[test]
fn decider_eth_circuit_super_test_polynomial_interpolation() {
    interpolation();
}

#[test]
fn relaxed_values() {
    // 2 * 3 == 1 * 5 + 1 with the scale 1, and an error of one
    let row = |c: u64, k: usize| SparseMatrix { n_rows: 1, n_cols: 4, coeffs: vec![vec![(Fr::from_u64(c), k)]] };
    let r1cs = R1CS { l: 0, a: row(1, 1), b: row(1, 2), c: row(1, 3) };
    let z: Vec<Fr> = [1, 2, 3, 5].iter().map(|x| Fr::from_u64(*x)).collect();
    assert!(r1cs.check_relaxed(&vec![Fr::one()], &Fr::one(), &z).is_ok());
    assert!(r1cs.check_relaxed(&vec![Fr::zero()], &Fr::one(), &z).is_err());
    assert!(r1cs.check_relaxed(&vec![Fr::zero()], &Fr::from_u64(2), &z).is_err());
    assert_eq!(R1CS::assemble(&Fr::one(), &vec![Fr::from_u64(2)], &vec![Fr::from_u64(3)]), z[..3].to_vec());
    assert_eq!(
        fold_vectors(&z, &Fr::from_u64(10), &z),
        [11, 22, 33, 55].iter().map(|x| Fr::from_u64(*x)).collect::<Vec<_>>(),
    );
}

#[test]
fn padded_polynomial() {
    let v: Vec<Fr> = [1, 2, 3].iter().map(|x| Fr::from_u64(*x)).collect();
    // 1 + 2 * 10 + 3 * 100
    let ten = Fr::from_u64(10);
    assert_eq!(evaluate_gadget(&v, &ten, &Fr::one()), Fr::from_u64(321));
    assert!(matches!(evaluate_padded_gadget(&v, &ten, &Fr::one()), Err(Error::NotSatisfied)));
    let mut padded = v.clone();
    padded.push(Fr::zero());
    assert_eq!(evaluate_padded_gadget(&padded, &ten, &Fr::one()).unwrap(), Fr::from_u64(321));
    assert!(evaluate_padded_gadget(&vec![], &ten, &Fr::one()).is_err());
}
