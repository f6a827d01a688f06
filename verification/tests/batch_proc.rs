use ark_bn254::Bn254;
use ark_bn254::Fq as ArkFq;
use ark_bn254::Fr as ArkFr;
use ark_bn254::G1Affine;
use ark_bn254::G1Projective;
use ark_bn254::G2Projective;
use ark_crypto_primitives::sponge::poseidon::find_poseidon_ark_and_mds;
use ark_ec::AffineRepr;
use ark_ec::CurveGroup;
use ark_ec::PrimeGroup;
use ark_ec::pairing::Pairing;
use ark_ff::BigInt;
use ark_ff::PrimeField;
use ark_std::UniformRand;
use ark_std::test_rng;
use foldpot::batch_proc::BatchClaim;
use foldpot::batch_proc::BatchProcessor;
use foldpot::batch_proc::BatchProcessorProverParams;
use foldpot::batch_proc::BatchProcessorVerifierParams;
use foldpot::batch_proc::ClaimRands;
use foldpot::batch_proc::IndividualClaim;
use foldpot::batch_proc::QaNizkProverParams;
use foldpot::batch_proc::SnarkAdvice;
use foldpot::batch_proc::SnarkRandInput;
use foldpot::batch_proc::low32_element;
use foldpot::commitment::BatchOpeningProver;
use foldpot::commitment::CommitmentScheme;
use foldpot::commitment::Elements;
use foldpot::commitment::KZGProof;
use foldpot::commitment::OpeningProver;
use foldpot::commitment::OpeningVerifier;
use foldpot::curve::Fq2;
use foldpot::curve::G1;
use foldpot::curve::G2;
use foldpot::error::Error;
use foldpot::error::ErrorView;
use foldpot::field::Field;
use foldpot::field_fq::Fq;
use foldpot::field_fr::Fr;
use foldpot::instance_super::QaNizkVerifierParams;
use foldpot::sponge::PoseidonConfig;
use rand::Rng;

fn fr(x: ArkFr) -> Fr {
    Fr::from_limbs(x.into_bigint().0)
}

fn fq(x: ArkFq) -> Fq {
    Fq::from_limbs(x.into_bigint().0)
}

fn g1(p: G1Projective) -> G1 {
    match p.into_affine().xy() {
        None => G1::Infinity,
        Some((x, y)) => G1::Point(fq(x), fq(y)),
    }
}

fn g2(p: G2Projective) -> G2 {
    match p.into_affine().xy() {
        None => G2::Infinity,
        Some((x, y)) => G2::Point(Fq2 { c0: fq(x.c0), c1: fq(x.c1) }, Fq2 { c0: fq(y.c0), c1: fq(y.c1) }),
    }
}

fn ark(x: &Fr) -> ArkFr {
    ArkFr::new(BigInt(x.limbs()))
}

fn ark_point(p: &G1) -> G1Affine {
    let base = |x: &Fq| ArkFq::new(BigInt(x.limbs()));
    match p {
        G1::Infinity => G1Affine::identity(),
        G1::Point(x, y) => G1Affine::new_unchecked(base(x), base(y)),
    }
}

/// The parameters with rate four and the rounds for 128 bits of security.
fn config() -> PoseidonConfig {
    let (ark, mds) = find_poseidon_ark_and_mds::<ArkFr>(254, 4, 8, 60, 0);
    let rows = |m: Vec<Vec<ArkFr>>| m.into_iter().map(|r| r.into_iter().map(fr).collect()).collect();
    PoseidonConfig { full_rounds: 8, partial_rounds: 60, alpha: 5, ark: rows(ark), mds: rows(mds), rate: 4, capacity: 1 }
}

/// Polynomial commitments with the powers of a secret in both groups.
struct Kzg {
    powers: Vec<G1Affine>,
    tau_g2: G2Projective,
}

impl Kzg {
    fn new(n: usize, rng: &mut impl Rng) -> Kzg {
        let tau = ArkFr::rand(rng);
        let mut t = ArkFr::from(1u64);
        let mut powers = Vec::new();
        for _ in 0..n {
            powers.push((G1Projective::generator() * t).into_affine());
            t *= tau;
        }
        Kzg { powers, tau_g2: G2Projective::generator() * tau }
    }

    fn dup(&self) -> Kzg {
        Kzg { powers: self.powers.clone(), tau_g2: self.tau_g2 }
    }

    fn point(&self, v: &[ArkFr]) -> Option<G1Projective> {
        if v.len() > self.powers.len() {
            return None;
        }
        Some(v.iter().zip(self.powers.iter()).map(|(a, p)| *p * *a).sum())
    }

    fn open(&self, z: ArkFr, v: &[ArkFr]) -> Result<KZGProof, Error> {
        // the quotient by synthetic division, and the value as what is left
        let mut quotient = vec![ArkFr::from(0u64); v.len()];
        let mut acc = ArkFr::from(0u64);
        for k in (0..v.len()).rev() {
            quotient[k] = acc;
            acc = acc * z + v[k];
        }
        match self.point(&quotient) {
            None => Err(Error::CommitmentFail),
            Some(p) => Ok(KZGProof { eval: fr(acc), proof: g1(p) }),
        }
    }
}

impl CommitmentScheme<Fr, G1> for Kzg {
    fn commit_spec(&self, _v: Elements<Fr>, _blind: Fr) -> Option<G1> {
        unreachable!()
    }

    fn commit(&self, v: &Vec<Fr>, _blind: &Fr) -> Option<G1> {
        self.point(&v.iter().map(ark).collect::<Vec<_>>()).map(g1)
    }
}

impl OpeningProver<KZGProof> for Kzg {
    fn prove_spec(&self, _challenge: Fr, _v: Elements<Fr>) -> Result<KZGProof, ErrorView> {
        unreachable!()
    }

    fn prove_with_challenge(&self, challenge: &Fr, v: &Vec<Fr>) -> Result<KZGProof, Error> {
        self.open(ark(challenge), &v.iter().map(ark).collect::<Vec<_>>())
    }
}

impl BatchOpeningProver<KZGProof> for Kzg {
    fn batch_prove_spec(&self, _challenge: Fr, _v: Elements<Elements<Fr>>, _rc: Fr) -> Result<KZGProof, ErrorView> {
        unreachable!()
    }

    fn batch_prove_with_challenge(&self, challenge: &Fr, v: &Vec<Vec<Fr>>, rc: &Fr) -> Result<KZGProof, Error> {
        let n = v.iter().map(|p| p.len()).max().unwrap_or(0);
        let mut sum = vec![ArkFr::from(0u64); n];
        let mut factor = ArkFr::from(1u64);
        for p in v {
            for k in 0..p.len() {
                sum[k] += factor * ark(&p[k]);
            }
            factor *= ark(rc);
        }
        self.open(ark(challenge), &sum)
    }
}

impl OpeningVerifier<KZGProof> for Kzg {
    fn verify_spec(&self, _challenge: Fr, _cm: G1, _proof: KZGProof) -> Result<(), ErrorView> {
        unreachable!()
    }

    fn verify_with_challenge(&self, challenge: &Fr, cm: &G1, proof: &KZGProof) -> Result<(), Error> {
        let left = ark_point(cm).into_group() - G1Projective::generator() * ark(&proof.eval);
        let right = self.tau_g2 - G2Projective::generator() * ark(challenge);
        if Bn254::pairing(left, G2Projective::generator()) == Bn254::pairing(ark_point(&proof.proof), right) {
            Ok(())
        } else {
            Err(Error::NotEqual)
        }
    }
}

/// Commitments to vectors; a proof shows the vector.
struct VecCom {
    generators: Vec<G1Affine>,
}

impl VecCom {
    fn new(n: usize, rng: &mut impl Rng) -> VecCom {
        VecCom { generators: (0..n).map(|_| G1Projective::rand(rng).into_affine()).collect() }
    }
}

impl CommitmentScheme<Fr, G1> for VecCom {
    fn commit_spec(&self, _v: Elements<Fr>, _blind: Fr) -> Option<G1> {
        unreachable!()
    }

    fn commit(&self, v: &Vec<Fr>, _blind: &Fr) -> Option<G1> {
        if v.len() > self.generators.len() {
            return None;
        }
        Some(g1(v.iter().zip(self.generators.iter()).map(|(a, p)| *p * ark(a)).sum()))
    }
}

impl OpeningProver<Vec<Fr>> for VecCom {
    fn prove_spec(&self, _challenge: Fr, _v: Elements<Fr>) -> Result<Vec<Fr>, ErrorView> {
        unreachable!()
    }

    fn prove_with_challenge(&self, _challenge: &Fr, v: &Vec<Fr>) -> Result<Vec<Fr>, Error> {
        Ok(v.clone())
    }
}

impl OpeningVerifier<Vec<Fr>> for VecCom {
    fn verify_spec(&self, _challenge: Fr, _cm: G1, _proof: Vec<Fr>) -> Result<(), ErrorView> {
        unreachable!()
    }

    fn verify_with_challenge(&self, _challenge: &Fr, cm: &G1, proof: &Vec<Fr>) -> Result<(), Error> {
        if self.commit(proof, &Fr::from_u64(0)) == Some(*cm) {
            Ok(())
        } else {
            Err(Error::NotEqual)
        }
    }
}

/// The keys with which commitments by the rows of the matrix are proved to be for one
/// vector.
fn qa_nizk_setup(matrix: &[Vec<G1>], rng: &mut impl Rng) -> (QaNizkProverParams, QaNizkVerifierParams) {
    let k: Vec<ArkFr> = matrix.iter().map(|_| ArkFr::rand(rng)).collect();
    let a = G2Projective::rand(rng);
    let key = (0..matrix[0].len())
        .map(|j| g1(matrix.iter().zip(k.iter()).map(|(row, s)| ark_point(&row[j]) * *s).sum()))
        .collect();
    let c = k.iter().map(|s| g2(a * *s)).collect();
    (QaNizkProverParams { key }, QaNizkVerifierParams { c, a: g2(a) })
}

type ProverKey = BatchProcessorProverParams<Kzg, VecCom, QaNizkProverParams>;
type VerifierKey = BatchProcessorVerifierParams<Kzg, VecCom>;

fn setup(max_total_n: usize, n_words: usize, rng: &mut impl Rng) -> (ProverKey, VerifierKey) {
    let kzg = Kzg::new(max_total_n + 2, rng);
    let vec = VecCom::new(n_words + 1, rng);
    let points = |v: &[G1Affine]| v.iter().map(|p| g1(p.into_group())).collect::<Vec<G1>>();
    let lg = g1(kzg.powers[n_words + 1].into_group());
    let matrix = BatchProcessor::key_matrix(&points(&kzg.powers[..n_words + 1]), &points(&vec.generators), &lg);
    let (pk_qa_nizk, vk_qa_nizk) = qa_nizk_setup(&matrix, rng);
    let generators = vec.generators.clone();
    let vkey = BatchProcessorVerifierParams {
        kzg: kzg.dup(),
        vec: VecCom { generators },
        poseidon_config: config(),
        vk_qa_nizk,
        qa_nizk_vkey_hash: Fr::from_u64(9),
    };
    (BatchProcessorProverParams { kzg, vec, poseidon_config: config(), pk_qa_nizk }, vkey)
}

fn random_words(n_words: usize, rng: &mut impl Rng) -> Vec<Vec<Fr>> {
    (0..n_words).map(|_| (0..2).map(|_| fr(ArkFr::rand(rng))).collect()).collect()
}

fn lookup() -> (Vec<Fr>, Vec<Fr>) {
    let col = |v: [u64; 3]| v.iter().map(|x| Fr::from_u64(*x)).collect();
    (col([0, 1, 1]), col([0, 0, 1]))
}

fn rands(rng: &mut impl Rng) -> ClaimRands {
    ClaimRands {
        word: fr(ArkFr::rand(rng)),
        all_words: fr(ArkFr::rand(rng)),
        length: fr(ArkFr::rand(rng)),
        vectors: fr(ArkFr::rand(rng)),
    }
}

struct Claimed {
    pk: ProverKey,
    vk: VerifierKey,
    words: Vec<Vec<Fr>>,
    claim: BatchClaim,
    claims: Vec<IndividualClaim>,
    adv: SnarkAdvice,
}

fn claimed() -> Claimed {
    let rng = &mut test_rng();
    let n_words = 20;
    let words = random_words(n_words, rng);
    let (lk1, lk2) = lookup();
    let key_size = BatchProcessor::key_size(&words);
    assert_eq!(key_size, 40);
    let (pk, vk) = setup(key_size, n_words, rng);
    let (claim, claims, adv) = BatchProcessor::gen_claims(&pk, &words, &lk1, &lk2, &rands(rng)).unwrap();
    Claimed { pk, vk, words, claim, claims, adv }
}

fn partial_input(claim: &BatchClaim) -> SnarkRandInput {
    let generator = g1(G1Projective::generator());
    SnarkRandInput {
        kzg_all_words: claim.kzg_all_words,
        kzg_length: claim.kzg_length,
        kzg_lk_col1: claim.kzg_lk_col1,
        kzg_lk_col2: claim.kzg_lk_col2,
        hash_cmF: Fr::zero(),
        kzg_vec_r: generator,
        kzg_vec_v: generator,
        poseidon_config: config(),
    }
}

#[test]
fn batch_proc() {
    let c = claimed();
    let (lk1, lk2) = lookup();
    let i = 2;
    let (batch_proof, rand_inp) =
        BatchProcessor::prove_batch(&c.pk, &c.adv, &c.words, &lk1, &lk2, &partial_input(&c.claim)).unwrap();
    assert!(BatchProcessor::verify_batch(&c.vk, None, &c.claim, &batch_proof, &config(), &None));
    assert_eq!(rand_inp.gen_challenge(), (batch_proof.ch, batch_proof.rc));
    let ind_prf = BatchProcessor::prove_individual(&c.pk, &c.adv, &c.words, &c.claims[i], i).unwrap();
    let res = BatchProcessor::verify_individual(&c.vk, i, &c.claims[i], &batch_proof, &ind_prf);
    assert!(res, "verify indidivudal proof failed");
}

#[test]
fn batch_proof_for_another_claim() {
    let c = claimed();
    let (lk1, lk2) = lookup();
    let (mut prf, _) =
        BatchProcessor::prove_batch(&c.pk, &c.adv, &c.words, &lk1, &lk2, &partial_input(&c.claim)).unwrap();
    let other = BatchClaim { kzg_length: c.claim.kzg_all_words, ..c.claim };
    assert!(!BatchProcessor::verify_batch(&c.vk, None, &other, &prf, &config(), &None));
    prf.agg_kzg_prf.eval = prf.agg_kzg_prf.eval.plus(&Fr::one());
    assert!(!BatchProcessor::verify_batch(&c.vk, None, &c.claim, &prf, &config(), &None));
    prf.agg_kzg_prf.eval = prf.agg_kzg_prf.eval.minus(&Fr::one());
    assert!(BatchProcessor::verify_batch(&c.vk, None, &c.claim, &prf, &config(), &None));
    prf.prf_qa_nizk = prf.prf_qa_nizk.plus(&prf.kzg_vec_r);
    assert!(!BatchProcessor::verify_batch(&c.vk, None, &c.claim, &prf, &config(), &None));
}

#[test]
fn individual_proof_for_another_word() {
    let c = claimed();
    let (lk1, lk2) = lookup();
    let (prf, _) =
        BatchProcessor::prove_batch(&c.pk, &c.adv, &c.words, &lk1, &lk2, &partial_input(&c.claim)).unwrap();
    let ind = BatchProcessor::prove_individual(&c.pk, &c.adv, &c.words, &c.claims[3], 3).unwrap();
    assert!(BatchProcessor::verify_individual(&c.vk, 3, &c.claims[3], &prf, &ind));
    assert!(!BatchProcessor::verify_individual(&c.vk, 4, &c.claims[4], &prf, &ind));
}

#[test]
fn claims_are_the_commitments() {
    let c = claimed();
    let zero = Fr::zero();
    let mut w = c.words[5].clone();
    w.push(c.adv.rands[5]);
    w.reverse();
    assert_eq!(c.pk.kzg.commit(&w, &zero).unwrap(), c.claims[5].kzg_word);
    assert_eq!(c.claims[5].i, 5);
    assert_eq!(c.claims[5].batch_claim, c.claim);
    // the value of the word's polynomial at its point
    let point = ark(&c.adv.vec_r[5]);
    let value = w.iter().rev().fold(ArkFr::from(0u64), |acc, x| acc * point + ark(x));
    assert_eq!(c.adv.vec_v[5], fr(value));
    let (_, mut lk2) = lookup();
    lk2.reverse();
    assert_eq!(c.pk.kzg.commit(&lk2, &zero).unwrap(), c.claim.kzg_lk_col2);
}

#[test]
fn claims_need_a_long_key() {
    let rng = &mut test_rng();
    let words = random_words(4, rng);
    let (lk1, lk2) = lookup();
    let (pk, _) = setup(5, 4, rng);
    let res = BatchProcessor::gen_claims(&pk, &words, &lk1, &lk2, &rands(rng));
    assert!(matches!(res, Err(Error::CommitmentFail)));
}

#[test]
fn low_bits() {
    assert_eq!(low32_element(7), Fr::from_u64(7));
    assert_eq!(low32_element(0x1_0000_0005), Fr::from_u64(5));
}

#[test]
fn empty_advice() {
    let adv = SnarkAdvice::empty(&vec![vec![Fr::one()], vec![]]);
    assert_eq!(adv.vec_r, vec![Fr::zero(), Fr::zero()]);
    assert_eq!(adv.vec_v, vec![Fr::zero(), Fr::zero()]);
    assert_eq!(adv.rands, vec![Fr::zero(), Fr::zero()]);
}
