//! Batch processing: one proof that a word commitment is for the concatenation of
//! words that all fulfil the statement, and for each word a proof that it is one of
//! them.
use vstd::prelude::*;
use crate::commitment::BatchOpeningProver;
use crate::commitment::g1_msm;
use crate::commitment::CommitmentScheme;
use crate::commitment::Elements;
use crate::commitment::KZGProof;
use crate::commitment::OpeningProver;
use crate::commitment::OpeningVerifier;
use crate::curve::ark_gt_mul;
use crate::curve::ark_pairing;
use crate::curve::g1_plus;
use crate::curve::g1_times;
use crate::curve::g1_sub;
use crate::curve::G1;
use crate::curve::GT_LEN;
use crate::decider::check_snark;
use crate::decider::snark_outcome;
use crate::error::Error;
use crate::error::ErrorView;
use crate::field::f_add;
use crate::field::f_mul;
use crate::field::f_one;
use crate::field::f_pow;
use crate::field::f_zero;
use crate::field::Field;
use crate::field::FieldModel;
use crate::field_fq::Fq;
use crate::field_fr::Fr;
use crate::instance_super::gt_one;
use crate::instance_super::lemma_product_fails;
use crate::instance_super::pairing_product;
use crate::instance_super::QaNizkVerifierParams;
use crate::limbs::absorb_g1;
use crate::limbs::g1_absorbed;
use crate::limbs::g1_limbs;
use crate::limbs::inputize;
use crate::poly::evaluate_gadget;
use crate::poly::poly_eval;
use crate::r1cs::fold_vectors;
use crate::r1cs::folded;
use crate::sponge::PoseidonConfig;
use crate::sponge::PoseidonConfigView;
use crate::sponge::Sponge;
use crate::sponge::SpongeView;
use crate::vecs::copy_of;
use crate::vecs::filled;
use crate::vecs::join_rows;
use crate::vecs::joined;
use crate::vecs::push_all;
use crate::vecs::repeated;
use crate::vecs::reversed;
use crate::vecs::rows;
use crate::vecs::same_elements;

verus! {

/// What a sponge absorbs of the points behind each other.
pub open spec fn points_elements(pts: Seq<G1>) -> Seq<Fr>
    decreases pts.len(),
{
    if pts.len() == 0 {
        Seq::empty()
    } else {
        points_elements(pts.drop_last()) + g1_absorbed(pts.last())
    }
}

/// What a sponge absorbs of the points behind each other.
fn absorb_points(pts: &Vec<G1>) -> (r: Vec<Fr>)
    ensures
        r@ == points_elements(pts@),
{
    let mut r: Vec<Fr> = Vec::new();
    let mut i: usize = 0;
    assert(pts@.take(0) =~= Seq::empty());
    while i < pts.len()
        invariant
            i <= pts@.len(),
            r@ == points_elements(pts@.take(i as int)),
        decreases pts.len() - i,
    {
        push_all(&mut r, &absorb_g1(&pts[i]));
        assert(pts@.take(i + 1).drop_last() =~= pts@.take(i as int));
        i = i + 1;
    }
    assert(pts@.take(i as int) =~= pts@);
    r
}

/// What the challenge and the combination coefficient are drawn from.
#[allow(non_snake_case)]
#[derive(Debug)]
pub struct SnarkRandInput {
    /// The commitments to all words, to their lengths and to the lookup columns.
    pub kzg_all_words: G1,
    pub kzg_length: G1,
    pub kzg_lk_col1: G1,
    pub kzg_lk_col2: G1,
    /// The hash chain of the fixed memory commitments.
    pub hash_cmF: Fr,
    /// The commitments to the evaluation points and to the values.
    pub kzg_vec_r: G1,
    pub kzg_vec_v: G1,
    pub poseidon_config: PoseidonConfig,
}

/// The challenge and the combination coefficient that belong to the claim, the chain
/// of the fixed memory commitments and the commitments to points and values.
pub open spec fn batch_challenges(
    config: PoseidonConfigView,
    claim: BatchClaim,
    hash_cm_f: Fr,
    kzg_vec_r: G1,
    kzg_vec_v: G1,
) -> (Fr, Fr) {
    let pts = seq![
        claim.kzg_all_words,
        claim.kzg_length,
        claim.kzg_lk_col1,
        claim.kzg_lk_col2,
        kzg_vec_r,
        kzg_vec_v,
    ];
    let out = SpongeView::fresh(config).absorbed(points_elements(pts) + seq![hash_cm_f]).output(2);
    (out[0], out[1])
}

impl SnarkRandInput {
    /// The claim in it.
    pub open spec fn claim(self) -> BatchClaim {
        BatchClaim {
            kzg_all_words: self.kzg_all_words,
            kzg_length: self.kzg_length,
            kzg_lk_col1: self.kzg_lk_col1,
            kzg_lk_col2: self.kzg_lk_col2,
        }
    }

    /// Draws the challenge and the combination coefficient.
    pub fn gen_challenge(&self) -> (r: (Fr, Fr))
        requires
            self.poseidon_config@.wf(),
        ensures
            r == batch_challenges(
                self.poseidon_config@,
                self.claim(),
                self.hash_cmF,
                self.kzg_vec_r,
                self.kzg_vec_v,
            ),
    {
        let mut pts: Vec<G1> = Vec::new();
        pts.push(self.kzg_all_words);
        pts.push(self.kzg_length);
        pts.push(self.kzg_lk_col1);
        pts.push(self.kzg_lk_col2);
        pts.push(self.kzg_vec_r);
        pts.push(self.kzg_vec_v);
        assert(pts@ =~= seq![
            self.kzg_all_words,
            self.kzg_length,
            self.kzg_lk_col1,
            self.kzg_lk_col2,
            self.kzg_vec_r,
            self.kzg_vec_v,
        ]);
        let mut elems = absorb_points(&pts);
        elems.push(self.hash_cmF);
        assert(elems@ =~= points_elements(pts@) + seq![self.hash_cmF]);
        let mut sponge = Sponge::new(&self.poseidon_config);
        sponge.absorb(&elems);
        let v = sponge.squeeze(2);
        (v[0], v[1])
    }
}

/// The claim on all words: the commitments to their concatenation and to their lengths,
/// and those to the lookup columns.
#[derive(Debug, Clone, Copy, PartialEq, Eq, Structural)]
pub struct BatchClaim {
    pub kzg_all_words: G1,
    pub kzg_length: G1,
    pub kzg_lk_col1: G1,
    pub kzg_lk_col2: G1,
}

/// The claim that the word behind `kzg_word` is the `i`-th of the words.
#[derive(Debug, Clone, Copy, PartialEq, Eq, Structural)]
pub struct IndividualClaim {
    pub i: usize,
    pub kzg_word: G1,
    pub batch_claim: BatchClaim,
}

/// The proof of an individual claim.
#[derive(Debug)]
pub struct IndividualProof<P> {
    /// The proof of the entry of the combined vector of points and values.
    pub vcom_prf: P,
    /// The value of the word's polynomial.
    pub v_i: Fr,
    /// The proof of that value.
    pub kzg_prf: KZGProof,
}

/// The second part of a batch proof, after the decider's circuits are proved.
#[allow(non_snake_case)]
#[derive(Debug)]
pub struct BatchPartTwo {
    /// The commitment to all witnesses of the first computation, where it is opened,
    /// and the proof.
    pub kzg_all_com1: G1,
    pub kzg_all_com_ch1: Fr,
    pub kzg_all_com_prf1: KZGProof,
    /// The same for the second computation.
    pub kzg_all_com2: G1,
    pub kzg_all_com_ch2: Fr,
    pub kzg_all_com_prf2: KZGProof,
    /// The commitments of the folded instance of the second computation, and the proof
    /// that they are for the same vector as the one to all witnesses.
    pub comE2: G1,
    pub comW2: G1,
    pub comF2: G1,
    pub qa_nizk_prf2: G1,
    /// The proofs of the main and of the CyclePair circuit.
    pub snark_proof_main: Vec<u8>,
    pub snark_proof_cp: Vec<u8>,
    /// The digest of what the main circuit gives.
    pub mainres_hash: Fr,
}

/// The proof of the claim on all words.
#[allow(non_snake_case)]
#[derive(Debug)]
pub struct BatchProof {
    /// The commitments to the values and to the points, as vectors and as polynomials.
    pub vcom_vec_v: G1,
    pub kzg_vec_v: G1,
    pub vcom_vec_r: G1,
    pub kzg_vec_r: G1,
    /// The proof that the two commitments to each are for the same vector.
    pub prf_qa_nizk: G1,
    /// The challenge and the combination coefficient.
    pub ch: Fr,
    pub rc: Fr,
    /// The proof of the value of the combined polynomial.
    pub agg_kzg_prf: KZGProof,
    pub part2: Option<BatchPartTwo>,
    /// The hash chain of the fixed memory commitments.
    pub hash_cmF: Fr,
}

impl BatchProof {
    /// Adds the second part.
    pub fn add_part2(&mut self, part2: BatchPartTwo)
        ensures
            *final(self) == (BatchProof { part2: Some(part2), ..*old(self) }),
    {
        self.part2 = Some(part2);
    }
}

/// The secret input of the computation.
#[derive(Debug)]
pub struct SnarkAdvice {
    /// The blinding value of each word.
    pub rands: Vec<Fr>,
    /// The blinding values of the concatenation and of the lengths.
    pub r_all_words: Fr,
    pub r_kzg_len: Fr,
    /// The blinding values of the points and of the values, as vectors and as
    /// polynomials.
    pub r_vec_r: Fr,
    pub r_vec_r_kzg: Fr,
    pub r_vec_v: Fr,
    pub r_vec_v_kzg: Fr,
    /// The values, and the points at which the words have them.
    pub vec_v: Vec<Fr>,
    pub vec_r: Vec<Fr>,
}

impl SnarkAdvice {
    /// Zeros for the given words.
    pub fn empty(words: &Vec<Vec<Fr>>) -> (r: SnarkAdvice)
        ensures
            r.rands@ == repeated(f_zero::<Fr>(), words@.len()),
            r.vec_v@ == repeated(f_zero::<Fr>(), words@.len()),
            r.vec_r@ == repeated(f_zero::<Fr>(), words@.len()),
            r.r_all_words == f_zero::<Fr>(),
            r.r_kzg_len == f_zero::<Fr>(),
            r.r_vec_r == f_zero::<Fr>(),
            r.r_vec_r_kzg == f_zero::<Fr>(),
            r.r_vec_v == f_zero::<Fr>(),
            r.r_vec_v_kzg == f_zero::<Fr>(),
    {
        let zero = Fr::zero();
        let n = words.len();
        SnarkAdvice {
            rands: filled(zero, n),
            r_all_words: zero,
            r_kzg_len: zero,
            r_vec_r: zero,
            r_vec_r_kzg: zero,
            r_vec_v: zero,
            r_vec_v_kzg: zero,
            vec_v: filled(zero, n),
            vec_r: filled(zero, n),
        }
    }
}

/// The lowest 32 bits of a number as a field element.
pub open spec fn low32(n: nat) -> Fr {
    Fr::of(n % 0x1_0000_0000)
}

/// The lowest 32 bits of a number as a field element.
pub fn low32_element(n: usize) -> (r: Fr)
    ensures
        r == low32(n as nat),
{
    Fr::from_u64(n as u64 % 0x1_0000_0000)
}

/// A vector with its blinding value behind it, last entry first: the coefficients that
/// its polynomial commitment is for.
pub open spec fn hidden(v: Seq<Fr>, r: Fr) -> Seq<Fr> {
    v.push(r).reverse()
}

/// A vector with its blinding value behind it, last entry first.
fn hide_reversed(v: &Vec<Fr>, r: &Fr) -> (res: Vec<Fr>)
    ensures
        res@ == hidden(v@, *r),
{
    let mut w = copy_of(v);
    w.push(*r);
    reversed(&w)
}

/// The lengths of the words.
pub open spec fn lengths(words: Seq<Seq<Fr>>) -> Seq<Fr> {
    words.map_values(|w: Seq<Fr>| low32(w.len()))
}

/// The lengths of the words.
fn word_lengths(words: &Vec<Vec<Fr>>) -> (r: Vec<Fr>)
    ensures
        r@ == lengths(rows(words@)),
{
    let mut r: Vec<Fr> = Vec::new();
    let mut i: usize = 0;
    while i < words.len()
        invariant
            i <= words@.len(),
            r@ == lengths(rows(words@)).take(i as int),
        decreases words.len() - i,
    {
        r.push(low32_element(words[i].len()));
        assert(rows(words@)[i as int] == words@[i as int]@);
        assert(r@ =~= lengths(rows(words@)).take(i + 1));
        i = i + 1;
    }
    assert(r@ =~= lengths(rows(words@)));
    r
}

/// The point at which the `i`-th word's polynomial is evaluated.
pub open spec fn word_point(config: PoseidonConfigView, claim: BatchClaim, kzg_word: G1, i: nat) -> Fr {
    SpongeView::fresh(config).absorbed(seq![low32(i)]).absorbed(
        points_elements(seq![claim.kzg_all_words, claim.kzg_length, kzg_word]),
    ).output(1)[0]
}

/// The point at which the `i`-th word's polynomial is evaluated.
fn draw_word_point(config: &PoseidonConfig, claim: &BatchClaim, kzg_word: &G1, i: usize) -> (r: Fr)
    requires
        config@.wf(),
    ensures
        r == word_point(config@, *claim, *kzg_word, i as nat),
{
    let mut pts: Vec<G1> = Vec::new();
    pts.push(claim.kzg_all_words);
    pts.push(claim.kzg_length);
    pts.push(*kzg_word);
    assert(pts@ =~= seq![claim.kzg_all_words, claim.kzg_length, *kzg_word]);
    let mut sponge = Sponge::new(config);
    sponge.absorb_one(&low32_element(i));
    sponge.absorb(&absorb_points(&pts));
    sponge.squeeze_one()
}

/// The coefficient that combines a word's point and value.
pub open spec fn entry_challenge(config: PoseidonConfigView, r_i: Fr, v_i: Fr) -> Fr {
    SpongeView::fresh(config).absorbed(seq![r_i, v_i]).output(1)[0]
}

/// The coefficient that combines a word's point and value.
fn draw_entry_challenge(config: &PoseidonConfig, r_i: &Fr, v_i: &Fr) -> (r: Fr)
    requires
        config@.wf(),
    ensures
        r == entry_challenge(config@, *r_i, *v_i),
{
    let mut elems: Vec<Fr> = Vec::new();
    elems.push(*r_i);
    elems.push(*v_i);
    assert(elems@ =~= seq![*r_i, *v_i]);
    let mut sponge = Sponge::new(config);
    sponge.absorb(&elems);
    sponge.squeeze_one()
}

/// The random values of the claims: one blinds all words each, one the concatenation,
/// one the lengths, and one the points and values.
#[derive(Debug, Clone, Copy, PartialEq, Eq, Structural)]
pub struct ClaimRands {
    pub word: Fr,
    pub all_words: Fr,
    pub length: Fr,
    pub vectors: Fr,
}

/// The prover's parameters. The commitments to polynomials are by `K`, those to
/// vectors by `V`, and `Q` proves that two commitments are for the same vector.
pub struct BatchProcessorProverParams<K, V, Q> {
    pub kzg: K,
    pub vec: V,
    pub poseidon_config: PoseidonConfig,
    pub pk_qa_nizk: Q,
}

/// The verifier's parameters.
pub struct BatchProcessorVerifierParams<K, V> {
    pub kzg: K,
    pub vec: V,
    pub poseidon_config: PoseidonConfig,
    pub vk_qa_nizk: QaNizkVerifierParams,
    pub qa_nizk_vkey_hash: Fr,
}

/// The keys for the second part of a batch proof.
pub struct PartTwoKeys<K> {
    /// The keys for the commitments to all witnesses of the two computations.
    pub kzg_driver1: K,
    pub kzg_driver2: K,
    /// The digest of the first computation's key for equal commitments.
    pub nova1_qa_nizk_vkey_hash: Fr,
    /// The second computation's key for equal commitments.
    pub nova2_qa_nizk_vkey: QaNizkVerifierParams,
    /// The keys of the main and of the CyclePair circuit.
    pub snark_vk_main: Vec<u8>,
    pub snark_vk_cp: Vec<u8>,
}

/// A key with which commitments are proved to be for the same vector.
pub trait QaNizkProver {
    /// The proof for the vector `w` with the blinding value `r`.
    spec fn prove_spec(&self, w: Elements<Fr>, r: Fr) -> G1;

    fn prove(&self, w: &Vec<Fr>, r: &Fr) -> (p: G1)
        ensures
            p == self.prove_spec(w@, *r),
    ;
}

/// The key of the matrix with which the commitments are made: a combination of its rows.
#[derive(Debug)]
pub struct QaNizkProverParams {
    pub key: Vec<G1>,
}

impl QaNizkProver for QaNizkProverParams {
    /// The combination of the key's elements with the vector and the blinding value, as
    /// far as the key goes.
    open spec fn prove_spec(&self, w: Seq<Fr>, r: Fr) -> G1 {
        let v = w.push(r);
        g1_msm(
            self.key@,
            if v.len() <= self.key@.len() {
                v
            } else {
                v.take(self.key@.len() as int)
            },
        )
    }

    fn prove(&self, w: &Vec<Fr>, r: &Fr) -> (p: G1) {
        let ghost v = w@.push(*r);
        let ghost cut = if v.len() <= self.key@.len() {
            v
        } else {
            v.take(self.key@.len() as int)
        };
        let mut acc: G1 = G1::Infinity;
        let mut i: usize = 0;
        assert(cut.take(0) =~= Seq::empty());
        while i < self.key.len() && i < w.len()
            invariant
                i <= cut.len(),
                i <= w@.len(),
                cut.len() <= self.key@.len(),
                cut.len() == self.key@.len() || cut.len() == w@.len() + 1,
                cut == w@.push(*r).take(cut.len() as int),
                cut.len() <= w@.len() + 1,
                acc == g1_msm(self.key@, cut.take(i as int)),
            decreases w.len() - i,
        {
            acc = acc.plus(&self.key[i].times(&w[i]));
            assert(cut.take(i + 1).drop_last() =~= cut.take(i as int));
            i = i + 1;
        }
        if i < self.key.len() {
            acc = acc.plus(&self.key[i].times(r));
            assert(cut.take(i + 1).drop_last() =~= cut.take(i as int));
            i = i + 1;
        }
        assert(cut.take(i as int) =~= cut);
        acc
    }
}

impl QaNizkVerifierParams {
    /// Whether the proof that the commitments `x` are for one vector holds: the pairings
    /// of the commitments with the key, and of the negated proof, have the product one.
    pub open spec fn accepts(self, x: Seq<G1>, prf: G1) -> bool {
        let a = x.push(g1_sub(G1::Infinity, prf));
        pairing_product(a, self.c@.push(self.a), a.len()) == Some(gt_one())
    }

    /// Verifies the proof that the commitments `x` are for one vector.
    pub fn verify(&self, x: &Vec<G1>, prf: &G1) -> (b: bool)
        requires
            x@.len() == self.c@.len(),
        ensures
            b == self.accepts(x@, *prf),
    {
        let mut a = copy_of(x);
        let zero = G1::Infinity;
        a.push(zero.minus(prf));
        let mut b = copy_of(&self.c);
        b.push(self.a);
        let ghost n = a@.len();
        let mut one = filled(Fq::zero(), GT_LEN);
        one.set(0, Fq::one());
        assert(one@ =~= gt_one());
        let mut acc = copy_of(&one);
        let mut i: usize = 0;
        while i < a.len()
            invariant
                i <= a@.len(),
                n == a@.len(),
                a@ == x@.push(g1_sub(G1::Infinity, *prf)),
                b@ == self.c@.push(self.a),
                a@.len() == b@.len(),
                acc@.len() == GT_LEN,
                pairing_product(a@, b@, i as nat) == Some(acc@),
            decreases a.len() - i,
        {
            match ark_pairing(&a[i], &b[i]) {
                None => {
                    proof {
                        lemma_product_fails(a@, b@, (i + 1) as nat, n);
                    }
                    return false;
                },
                Some(e) => {
                    acc = ark_gt_mul(&acc, &e);
                },
            }
            i = i + 1;
        }
        same_elements(&acc, &one)
    }
}

/// The public inputs of the CyclePair circuit.
#[allow(non_snake_case)]
#[derive(Debug, Clone, Copy, PartialEq, Eq, Structural)]
pub struct CircPubInput {
    pub ch1: Fr,
    pub rc1: Fr,
    pub kzg_sum1: Fr,
    pub kzg_all_com_ch1: Fr,
    pub eval_w_e1: Fr,
    pub mainres_hash: Fr,
    pub kzg_all_com_ch2: Fr,
    pub eval_w_e2: Fr,
    pub qa_nizk_vkey_hash: Fr,
    pub comE2: G1,
    pub comW2: G1,
    pub comF2: G1,
}

impl CircPubInput {
    /// The inputs as one vector.
    pub open spec fn vector(self) -> Seq<Fr> {
        seq![
            self.ch1,
            self.rc1,
            self.kzg_sum1,
            self.kzg_all_com_ch1,
            self.eval_w_e1,
            self.mainres_hash,
            self.kzg_all_com_ch2,
            self.eval_w_e2,
            self.qa_nizk_vkey_hash,
        ] + g1_limbs(self.comE2) + g1_limbs(self.comW2) + g1_limbs(self.comF2)
    }

    /// The inputs as one vector: the nine values, then the limbs of the coordinates of
    /// the commitments to errors, witnesses and fixed memory.
    pub fn to_vec(&self) -> (v: Vec<Fr>)
        ensures
            v@ == self.vector(),
    {
        let mut v: Vec<Fr> = Vec::new();
        v.push(self.ch1);
        v.push(self.rc1);
        v.push(self.kzg_sum1);
        v.push(self.kzg_all_com_ch1);
        v.push(self.eval_w_e1);
        v.push(self.mainres_hash);
        v.push(self.kzg_all_com_ch2);
        v.push(self.eval_w_e2);
        v.push(self.qa_nizk_vkey_hash);
        assert(v@ =~= seq![
            self.ch1,
            self.rc1,
            self.kzg_sum1,
            self.kzg_all_com_ch1,
            self.eval_w_e1,
            self.mainres_hash,
            self.kzg_all_com_ch2,
            self.eval_w_e2,
            self.qa_nizk_vkey_hash,
        ]);
        push_all(&mut v, &inputize(&self.comE2));
        push_all(&mut v, &inputize(&self.comW2));
        push_all(&mut v, &inputize(&self.comF2));
        v
    }
}

/// The combination of the first `n` points with the powers of `rc`.
pub open spec fn combined_point(coms: Seq<G1>, rc: Fr, n: nat) -> G1
    decreases n,
{
    if n == 0 {
        G1::Infinity
    } else {
        g1_plus(combined_point(coms, rc, (n - 1) as nat), g1_times(coms[n - 1], f_pow(rc, (n - 1) as nat)))
    }
}

/// The commitments whose polynomials are combined.
pub open spec fn combined_coms(claim: BatchClaim, prf: BatchProof) -> Seq<G1> {
    seq![
        claim.kzg_lk_col1,
        claim.kzg_lk_col2,
        claim.kzg_all_words,
        claim.kzg_length,
        prf.kzg_vec_r,
        prf.kzg_vec_v,
    ]
}

/// The polynomials that are combined, in the order of their commitments.
pub open spec fn combined_polys(words: Seq<Seq<Fr>>, lk1: Seq<Fr>, lk2: Seq<Fr>, inp: SnarkAdvice) -> Seq<Seq<Fr>> {
    seq![
        lk1.reverse(),
        lk2.reverse(),
        hidden(joined(words), inp.r_all_words),
        hidden(lengths(words), inp.r_kzg_len),
        hidden(inp.vec_r@, inp.r_vec_r_kzg),
        hidden(inp.vec_v@, inp.r_vec_v_kzg),
    ]
}

/// The functions of batch processing.
#[derive(Debug, Clone, Copy)]
pub struct BatchProcessor {}

impl BatchProcessor {
    pub fn new() -> (r: BatchProcessor) {
        BatchProcessor {  }
    }

    /// How long the polynomial commitments' key has to be for the words.
    pub fn key_size(words: &Vec<Vec<Fr>>) -> (n: usize)
        requires
            joined(rows(words@)).len() <= usize::MAX,
        ensures
            n == joined(rows(words@)).len(),
    {
        let ghost all = rows(words@);
        let mut n: usize = 0;
        let mut i: usize = 0;
        assert(all.take(0) =~= Seq::empty());
        assert(all.take(all.len() as int) =~= all);
        while i < words.len()
            invariant
                i <= words@.len(),
                all == rows(words@),
                n == joined(all.take(i as int)).len(),
                joined(all).len() <= usize::MAX,
            decreases words.len() - i,
        {
            assert(all.take(i + 1).drop_last() =~= all.take(i as int));
            proof {
                lemma_joined_prefix(all, (i + 1) as nat);
            }
            assert(all[i as int] == words@[i as int]@);
            n = n + words[i].len();
            i = i + 1;
        }
        assert(all.take(i as int) =~= all);
        n
    }

    /// The matrix of keys that says which vectors the commitments are for: the points'
    /// polynomial commitment and vector commitment, then those of the values. `kzg` and
    /// `vec` are the first `n_words + 1` elements of the two keys, and `lg` is the next
    /// element of the first, for the blinding value.
    pub fn key_matrix(kzg: &Vec<G1>, vec: &Vec<G1>, lg: &G1) -> (m: Vec<Vec<G1>>)
        requires
            kzg@.len() == vec@.len(),
        ensures
            rows(m@) == ({
                let z = repeated(G1::Infinity, kzg@.len());
                seq![
                    kzg@ + z + seq![*lg],
                    vec@.reverse() + z + seq![*lg],
                    z + kzg@ + seq![*lg],
                    z + vec@.reverse() + seq![*lg],
                ]
            }),
    {
        let z = filled(G1::Infinity, kzg.len());
        let rev = reversed(vec);
        let mut m: Vec<Vec<G1>> = Vec::new();
        m.push(key_row(kzg, &z, lg));
        m.push(key_row(&rev, &z, lg));
        m.push(key_row(&z, kzg, lg));
        m.push(key_row(&z, &rev, lg));
        assert(rows(m@) =~= seq![
            kzg@ + z@ + seq![*lg],
            vec@.reverse() + z@ + seq![*lg],
            z@ + kzg@ + seq![*lg],
            z@ + vec@.reverse() + seq![*lg],
        ]);
        m
    }
}

/// Two parts of a row and its last element.
fn key_row(a: &Vec<G1>, b: &Vec<G1>, lg: &G1) -> (r: Vec<G1>)
    ensures
        r@ == a@ + b@ + seq![*lg],
{
    let mut r = copy_of(a);
    push_all(&mut r, b);
    let ghost head = r@;
    r.push(*lg);
    assert(r@ =~= head + seq![*lg]);
    r
}

/// The first rows together are no longer than all of them.
proof fn lemma_joined_prefix(v: Seq<Seq<Fr>>, n: nat)
    requires
        n <= v.len(),
    ensures
        joined(v.take(n as int)).len() <= joined(v).len(),
    decreases v.len(),
{
    if n == v.len() {
        assert(v.take(n as int) =~= v);
    } else {
        lemma_joined_prefix(v.drop_last(), n);
        assert(v.drop_last().take(n as int) =~= v.take(n as int));
    }
}

/// The claim on all words, none where a commitment fails.
pub open spec fn claim_spec<K: CommitmentScheme<Fr, G1>>(
    kzg: K,
    words: Seq<Seq<Fr>>,
    lk1: Seq<Fr>,
    lk2: Seq<Fr>,
    rands: ClaimRands,
) -> Option<BatchClaim> {
    let zero = f_zero::<Fr>();
    let all = kzg.commit_spec(hidden(joined(words), rands.all_words), zero);
    let len = kzg.commit_spec(hidden(lengths(words), rands.length), zero);
    let col1 = kzg.commit_spec(lk1.reverse(), zero);
    let col2 = kzg.commit_spec(lk2.reverse(), zero);
    if all is Some && len is Some && col1 is Some && col2 is Some {
        Some(
            BatchClaim { kzg_all_words: all->0, kzg_length: len->0, kzg_lk_col1: col1->0, kzg_lk_col2: col2->0 },
        )
    } else {
        None
    }
}

/// The commitment to a word.
pub open spec fn word_com<K: CommitmentScheme<Fr, G1>>(kzg: K, word: Seq<Fr>, rand: Fr) -> Option<G1> {
    kzg.commit_spec(hidden(word, rand), f_zero::<Fr>())
}

/// Whether the advice belongs to the words and their claims.
pub open spec fn advice_fits(
    config: PoseidonConfigView,
    words: Seq<Seq<Fr>>,
    claims: Seq<IndividualClaim>,
    adv: SnarkAdvice,
    rands: ClaimRands,
) -> bool {
    &&& adv.rands@ == repeated(rands.word, words.len())
    &&& adv.r_all_words == rands.all_words
    &&& adv.r_kzg_len == rands.length
    &&& adv.r_vec_r == rands.vectors
    &&& adv.r_vec_r_kzg == rands.vectors
    &&& adv.r_vec_v == rands.vectors
    &&& adv.r_vec_v_kzg == rands.vectors
    &&& adv.vec_r@.len() == words.len()
    &&& adv.vec_v@.len() == words.len()
    &&& forall|i: int|
        0 <= i < words.len() ==> {
            &&& #[trigger] adv.vec_r@[i] == word_point(
                config,
                claims[i].batch_claim,
                claims[i].kzg_word,
                i as nat,
            )
            &&& adv.vec_v@[i] == poly_eval(hidden(words[i], rands.word), adv.vec_r@[i])
        }
}

/// Whether the proof of the claim on all words is the one that the keys give.
pub open spec fn batch_proved<
    K: CommitmentScheme<Fr, G1> + BatchOpeningProver<KZGProof>,
    V: CommitmentScheme<Fr, G1>,
    Q: QaNizkProver,
>(
    pkey: BatchProcessorProverParams<K, V, Q>,
    config: PoseidonConfigView,
    claim: BatchClaim,
    adv: SnarkAdvice,
    words: Seq<Seq<Fr>>,
    lk1: Seq<Fr>,
    lk2: Seq<Fr>,
    hash_cm_f: Fr,
    prf: BatchProof,
) -> bool {
    &&& BatchProcessor::vector_coms(pkey.kzg, pkey.vec, adv) == Some(
        (prf.vcom_vec_r, prf.vcom_vec_v, prf.kzg_vec_r, prf.kzg_vec_v),
    )
    &&& prf.hash_cmF == hash_cm_f
    &&& (prf.ch, prf.rc) == batch_challenges(config, claim, hash_cm_f, prf.kzg_vec_r, prf.kzg_vec_v)
    &&& prf.prf_qa_nizk == pkey.pk_qa_nizk.prove_spec(
        hidden(adv.vec_r@, adv.r_vec_r_kzg) + hidden(adv.vec_v@, adv.r_vec_v_kzg),
        f_zero::<Fr>(),
    )
    &&& pkey.kzg.batch_prove_spec(prf.ch, combined_polys(words, lk1, lk2, adv), prf.rc) == Ok::<
        KZGProof,
        ErrorView,
    >(prf.agg_kzg_prf)
    &&& prf.part2 is None
}

/// The outcomes of the two openings of an individual proof.
pub open spec fn individual_openings<K: OpeningProver<KZGProof>, P, V: OpeningProver<P>, Q>(
    pkey: BatchProcessorProverParams<K, V, Q>,
    adv: SnarkAdvice,
    words: Seq<Vec<Fr>>,
    i: int,
) -> (Result<P, ErrorView>, Result<KZGProof, ErrorView>) {
    let (r_i, v_i) = (adv.vec_r@[i], adv.vec_v@[i]);
    let ch = entry_challenge(pkey.poseidon_config@, r_i, v_i);
    (
        pkey.vec.prove_spec(ch, BatchProcessor::entry_vector(adv, ch)),
        pkey.kzg.prove_spec(r_i, hidden(words[i]@, adv.rands@[i])),
    )
}

/// The claims and the advice that are made for the words.
pub open spec fn claims_given<K: CommitmentScheme<Fr, G1>, V, Q>(
    pkey: BatchProcessorProverParams<K, V, Q>,
    words: Seq<Vec<Fr>>,
    lk1: Seq<Fr>,
    lk2: Seq<Fr>,
    rands: ClaimRands,
    claim: BatchClaim,
    claims: Seq<IndividualClaim>,
    adv: SnarkAdvice,
) -> bool {
    &&& Some(claim) == claim_spec(pkey.kzg, rows(words), lk1, lk2, rands)
    &&& claims.len() == words.len()
    &&& forall|i: int|
        0 <= i < words.len() ==> {
            &&& (#[trigger] word_com(pkey.kzg, words[i]@, rands.word)) is Some
            &&& claims[i] == (IndividualClaim {
                i: i as usize,
                kzg_word: word_com(pkey.kzg, words[i]@, rands.word)->0,
                batch_claim: claim,
            })
        }
    &&& advice_fits(pkey.poseidon_config@, rows(words), claims, adv, rands)
}

impl BatchProcessor {
    /// The claim on all words.
    fn gen_batch_claim<K: CommitmentScheme<Fr, G1>>(
        kzg: &K,
        words: &Vec<Vec<Fr>>,
        lk1: &Vec<Fr>,
        lk2: &Vec<Fr>,
        rands: &ClaimRands,
    ) -> (r: Option<BatchClaim>)
        ensures
            r == claim_spec(*kzg, rows(words@), lk1@, lk2@, *rands),
    {
        let zero = Fr::zero();
        let all = kzg.commit(&hide_reversed(&join_rows(words), &rands.all_words), &zero);
        let len = kzg.commit(&hide_reversed(&word_lengths(words), &rands.length), &zero);
        let col1 = kzg.commit(&reversed(lk1), &zero);
        let col2 = kzg.commit(&reversed(lk2), &zero);
        match (all, len, col1, col2) {
            (Some(kzg_all_words), Some(kzg_length), Some(kzg_lk_col1), Some(kzg_lk_col2)) => Some(
                BatchClaim { kzg_all_words, kzg_length, kzg_lk_col1, kzg_lk_col2 },
            ),
            _ => None,
        }
    }

    /// The claim on all words, the claims on each, and the advice, with the given
    /// random values. All polynomials have the vectors' entries in reverse.
    pub fn gen_claims<K: CommitmentScheme<Fr, G1>, V, Q>(
        pkey: &BatchProcessorProverParams<K, V, Q>,
        words: &Vec<Vec<Fr>>,
        lk1: &Vec<Fr>,
        lk2: &Vec<Fr>,
        rands: &ClaimRands,
    ) -> (r: Result<(BatchClaim, Vec<IndividualClaim>, SnarkAdvice), Error>)
        requires
            pkey.poseidon_config@.wf(),
        ensures
            r is Ok <==> claim_spec(pkey.kzg, rows(words@), lk1@, lk2@, *rands) is Some && forall|i: int|
                0 <= i < words@.len() ==> (#[trigger] word_com(pkey.kzg, words@[i]@, rands.word)) is Some,
            r matches Err(e) ==> e@ == ErrorView::CommitmentFail,
            r matches Ok((claim, claims, adv)) ==> claims_given(
                *pkey,
                words@,
                lk1@,
                lk2@,
                *rands,
                claim,
                claims@,
                adv,
            ),
    {
        let claim = match BatchProcessor::gen_batch_claim(&pkey.kzg, words, lk1, lk2, rands) {
            None => { return Err(Error::CommitmentFail); },
            Some(c) => c,
        };
        let zero = Fr::zero();
        let one = Fr::one();
        let n = words.len();
        let mut claims: Vec<IndividualClaim> = Vec::new();
        let mut vec_r: Vec<Fr> = Vec::new();
        let mut vec_v: Vec<Fr> = Vec::new();
        let mut i: usize = 0;
        while i < n
            invariant
                i <= n,
                n == words@.len(),
                pkey.poseidon_config@.wf(),
                zero == f_zero::<Fr>(),
                one == f_one::<Fr>(),
                claims@.len() == i,
                vec_r@.len() == i,
                vec_v@.len() == i,
                forall|k: int|
                    0 <= k < i ==> (#[trigger] word_com(pkey.kzg, words@[k]@, rands.word)) is Some,
                forall|k: int|
                    0 <= k < i ==> #[trigger] claims@[k] == (IndividualClaim {
                        i: k as usize,
                        kzg_word: word_com(pkey.kzg, words@[k]@, rands.word)->0,
                        batch_claim: claim,
                    }),
                forall|k: int|
                    0 <= k < i ==> {
                        &&& #[trigger] vec_r@[k] == word_point(
                            pkey.poseidon_config@,
                            claim,
                            word_com(pkey.kzg, words@[k]@, rands.word)->0,
                            k as nat,
                        )
                        &&& vec_v@[k] == poly_eval(hidden(words@[k]@, rands.word), vec_r@[k])
                    },
            decreases n - i,
        {
            let w = hide_reversed(&words[i], &rands.word);
            let kzg_word = match pkey.kzg.commit(&w, &zero) {
                None => {
                    assert(word_com(pkey.kzg, words@[i as int]@, rands.word) is None);
                    return Err(Error::CommitmentFail);
                },
                Some(c) => c,
            };
            claims.push(IndividualClaim { i, kzg_word, batch_claim: claim });
            let r_i = draw_word_point(&pkey.poseidon_config, &claim, &kzg_word, i);
            vec_r.push(r_i);
            vec_v.push(evaluate_gadget(&w, &r_i, &one));
            i = i + 1;
        }
        let adv = SnarkAdvice {
            rands: filled(rands.word, n),
            r_all_words: rands.all_words,
            r_kzg_len: rands.length,
            r_vec_r: rands.vectors,
            r_vec_r_kzg: rands.vectors,
            r_vec_v: rands.vectors,
            r_vec_v_kzg: rands.vectors,
            vec_v,
            vec_r,
        };
        proof {
            let all = rows(words@);
            assert forall|k: int| 0 <= k < all.len() implies {
                &&& #[trigger] adv.vec_r@[k] == word_point(
                    pkey.poseidon_config@,
                    claims@[k].batch_claim,
                    claims@[k].kzg_word,
                    k as nat,
                )
                &&& adv.vec_v@[k] == poly_eval(hidden(all[k], rands.word), adv.vec_r@[k])
            } by {
                assert(all[k] == words@[k]@);
                assert(claims@[k].batch_claim == claim);
            }
        }
        Ok((claim, claims, adv))
    }

    /// The vector whose entry the individual proof opens: the points, and the values
    /// times the coefficient, with the blinding values behind them.
    pub open spec fn entry_vector(adv: SnarkAdvice, ch: Fr) -> Seq<Fr> {
        folded(adv.vec_r@, ch, adv.vec_v@).push(f_add(adv.r_vec_r, f_mul(ch, adv.r_vec_v)))
    }

    /// Proves the `i`-th claim.
    pub fn prove_individual<K: OpeningProver<KZGProof>, P, V: OpeningProver<P>, Q>(
        pkey: &BatchProcessorProverParams<K, V, Q>,
        snark_input: &SnarkAdvice,
        words: &Vec<Vec<Fr>>,
        ind_claim: &IndividualClaim,
        i: usize,
    ) -> (r: Result<IndividualProof<P>, Error>)
        requires
            pkey.poseidon_config@.wf(),
            i == ind_claim.i,
            i < words@.len(),
            snark_input.vec_r@.len() == words@.len(),
            snark_input.vec_v@.len() == words@.len(),
            snark_input.rands@.len() == words@.len(),
        ensures
            ({
                let (entry, word) = individual_openings::<K, P, V, Q>(*pkey, *snark_input, words@, i as int);
                match r {
                    Ok(p) => {
                        &&& entry == Ok::<P, ErrorView>(p.vcom_prf)
                        &&& word == Ok::<KZGProof, ErrorView>(p.kzg_prf)
                        &&& p.v_i == snark_input.vec_v@[i as int]
                    },
                    Err(e) => entry == Err::<P, ErrorView>(e@) || (entry is Ok && word == Err::<KZGProof, ErrorView>(
                        e@,
                    )),
                }
            }),
    {
        let r_i = snark_input.vec_r[i];
        let v_i = snark_input.vec_v[i];
        let ch = draw_entry_challenge(&pkey.poseidon_config, &r_i, &v_i);
        let mut vec = fold_vectors(&snark_input.vec_r, &ch, &snark_input.vec_v);
        vec.push(snark_input.r_vec_r.plus(&ch.times(&snark_input.r_vec_v)));
        let vcom_prf = match pkey.vec.prove_with_challenge(&ch, &vec) {
            Err(e) => { return Err(e); },
            Ok(p) => p,
        };
        let w = hide_reversed(&words[i], &snark_input.rands[i]);
        let kzg_prf = match pkey.kzg.prove_with_challenge(&r_i, &w) {
            Err(e) => { return Err(e); },
            Ok(p) => p,
        };
        Ok(IndividualProof { vcom_prf, v_i, kzg_prf })
    }

    /// Whether an individual proof holds.
    pub open spec fn individual_ok<K: OpeningVerifier<KZGProof>, P, V: OpeningVerifier<P>>(
        vkey: BatchProcessorVerifierParams<K, V>,
        claim: IndividualClaim,
        batch_proof: BatchProof,
        ind_proof: IndividualProof<P>,
    ) -> bool {
        let r_i = word_point(vkey.poseidon_config@, claim.batch_claim, claim.kzg_word, claim.i as nat);
        let ch = entry_challenge(vkey.poseidon_config@, r_i, ind_proof.v_i);
        let cm = g1_plus(batch_proof.vcom_vec_r, g1_times(batch_proof.vcom_vec_v, ch));
        &&& vkey.vec.verify_spec(ch, cm, ind_proof.vcom_prf) is Ok
        &&& vkey.kzg.verify_spec(r_i, claim.kzg_word, ind_proof.kzg_prf) is Ok
    }

    /// Verifies an individual proof.
    pub fn verify_individual<K: OpeningVerifier<KZGProof>, P, V: OpeningVerifier<P>>(
        vkey: &BatchProcessorVerifierParams<K, V>,
        i: usize,
        claim: &IndividualClaim,
        batch_proof: &BatchProof,
        ind_proof: &IndividualProof<P>,
    ) -> (b: bool)
        requires
            vkey.poseidon_config@.wf(),
            i == claim.i,
        ensures
            b == BatchProcessor::individual_ok(*vkey, *claim, *batch_proof, *ind_proof),
    {
        let r_i = draw_word_point(&vkey.poseidon_config, &claim.batch_claim, &claim.kzg_word, i);
        let ch = draw_entry_challenge(&vkey.poseidon_config, &r_i, &ind_proof.v_i);
        let cm = batch_proof.vcom_vec_r.plus(&batch_proof.vcom_vec_v.times(&ch));
        if vkey.vec.verify_with_challenge(&ch, &cm, &ind_proof.vcom_prf).is_err() {
            return false;
        }
        vkey.kzg.verify_with_challenge(&r_i, &claim.kzg_word, &ind_proof.kzg_prf).is_ok()
    }

    /// The polynomials that are combined.
    fn build_polys(words: &Vec<Vec<Fr>>, lk1: &Vec<Fr>, lk2: &Vec<Fr>, inp: &SnarkAdvice) -> (v: Vec<Vec<Fr>>)
        ensures
            rows(v@) == combined_polys(rows(words@), lk1@, lk2@, *inp),
    {
        let mut v: Vec<Vec<Fr>> = Vec::new();
        v.push(reversed(lk1));
        v.push(reversed(lk2));
        v.push(hide_reversed(&join_rows(words), &inp.r_all_words));
        v.push(hide_reversed(&word_lengths(words), &inp.r_kzg_len));
        v.push(hide_reversed(&inp.vec_r, &inp.r_vec_r_kzg));
        v.push(hide_reversed(&inp.vec_v, &inp.r_vec_v_kzg));
        assert(rows(v@) =~= combined_polys(rows(words@), lk1@, lk2@, *inp));
        v
    }

    /// The commitments to the points and values: as vectors, then as polynomials.
    pub open spec fn vector_coms<K: CommitmentScheme<Fr, G1>, V: CommitmentScheme<Fr, G1>>(
        kzg: K,
        vec: V,
        inp: SnarkAdvice,
    ) -> Option<(G1, G1, G1, G1)> {
        let zero = f_zero::<Fr>();
        let vr = vec.commit_spec(inp.vec_r@.push(inp.r_vec_r), zero);
        let kr = kzg.commit_spec(hidden(inp.vec_r@, inp.r_vec_r_kzg), zero);
        let vv = vec.commit_spec(inp.vec_v@.push(inp.r_vec_v), zero);
        let kv = kzg.commit_spec(hidden(inp.vec_v@, inp.r_vec_v_kzg), zero);
        if vr is Some && kr is Some && vv is Some && kv is Some {
            Some((vr->0, vv->0, kr->0, kv->0))
        } else {
            None
        }
    }

    /// The commitments to the points and values.
    fn commit_vectors<K: CommitmentScheme<Fr, G1>, V: CommitmentScheme<Fr, G1>>(
        kzg: &K,
        vec: &V,
        inp: &SnarkAdvice,
    ) -> (r: Option<(G1, G1, G1, G1)>)
        ensures
            r == BatchProcessor::vector_coms(*kzg, *vec, *inp),
    {
        let zero = Fr::zero();
        let mut vec_r = copy_of(&inp.vec_r);
        vec_r.push(inp.r_vec_r);
        let mut vec_v = copy_of(&inp.vec_v);
        vec_v.push(inp.r_vec_v);
        let vr = vec.commit(&vec_r, &zero);
        let kr = kzg.commit(&hide_reversed(&inp.vec_r, &inp.r_vec_r_kzg), &zero);
        let vv = vec.commit(&vec_v, &zero);
        let kv = kzg.commit(&hide_reversed(&inp.vec_v, &inp.r_vec_v_kzg), &zero);
        match (vr, kr, vv, kv) {
            (Some(vr), Some(kr), Some(vv), Some(kv)) => Some((vr, vv, kr, kv)),
            _ => None,
        }
    }

    /// Proves the claim on all words, but for the second part. Hands out the random
    /// input with the commitments to points and values too.
    pub fn prove_batch<
        K: CommitmentScheme<Fr, G1> + BatchOpeningProver<KZGProof>,
        V: CommitmentScheme<Fr, G1>,
        Q: QaNizkProver,
    >(
        pkey: &BatchProcessorProverParams<K, V, Q>,
        snark_input: &SnarkAdvice,
        words: &Vec<Vec<Fr>>,
        lk1: &Vec<Fr>,
        lk2: &Vec<Fr>,
        partial_rand_inp: &SnarkRandInput,
    ) -> (r: Result<(BatchProof, SnarkRandInput), Error>)
        requires
            partial_rand_inp.poseidon_config@.wf(),
        ensures
            ({
                let coms = BatchProcessor::vector_coms(pkey.kzg, pkey.vec, *snark_input);
                match r {
                    Ok((prf, inp)) => {
                        &&& batch_proved(
                            *pkey,
                            partial_rand_inp.poseidon_config@,
                            partial_rand_inp.claim(),
                            *snark_input,
                            rows(words@),
                            lk1@,
                            lk2@,
                            partial_rand_inp.hash_cmF,
                            prf,
                        )
                        &&& inp.claim() == partial_rand_inp.claim()
                        &&& inp.hash_cmF == partial_rand_inp.hash_cmF
                        &&& inp.kzg_vec_r == prf.kzg_vec_r
                        &&& inp.kzg_vec_v == prf.kzg_vec_v
                        &&& inp.poseidon_config@ == partial_rand_inp.poseidon_config@
                    },
                    Err(e) => if coms is None {
                        e@ == ErrorView::CommitmentFail
                    } else {
                        let (ch, rc) = batch_challenges(
                            partial_rand_inp.poseidon_config@,
                            partial_rand_inp.claim(),
                            partial_rand_inp.hash_cmF,
                            (coms->0).2,
                            (coms->0).3,
                        );
                        pkey.kzg.batch_prove_spec(
                            ch,
                            combined_polys(rows(words@), lk1@, lk2@, *snark_input),
                            rc,
                        ) == Err::<KZGProof, ErrorView>(e@)
                    },
                }
            }),
    {
        let (vcom_vec_r, vcom_vec_v, kzg_vec_r, kzg_vec_v) = match BatchProcessor::commit_vectors(
            &pkey.kzg,
            &pkey.vec,
            snark_input,
        ) {
            None => { return Err(Error::CommitmentFail); },
            Some(c) => c,
        };
        let rand_inp = SnarkRandInput {
            kzg_all_words: partial_rand_inp.kzg_all_words,
            kzg_length: partial_rand_inp.kzg_length,
            kzg_lk_col1: partial_rand_inp.kzg_lk_col1,
            kzg_lk_col2: partial_rand_inp.kzg_lk_col2,
            hash_cmF: partial_rand_inp.hash_cmF,
            kzg_vec_r,
            kzg_vec_v,
            poseidon_config: partial_rand_inp.poseidon_config.clone(),
        };
        let mut w = hide_reversed(&snark_input.vec_r, &snark_input.r_vec_r_kzg);
        push_all(&mut w, &hide_reversed(&snark_input.vec_v, &snark_input.r_vec_v_kzg));
        let zero = Fr::zero();
        let prf_qa_nizk = pkey.pk_qa_nizk.prove(&w, &zero);
        let (ch, rc) = rand_inp.gen_challenge();
        let polys = BatchProcessor::build_polys(words, lk1, lk2, snark_input);
        let agg_kzg_prf = match pkey.kzg.batch_prove_with_challenge(&ch, &polys, &rc) {
            Err(e) => { return Err(e); },
            Ok(p) => p,
        };
        let prf = BatchProof {
            vcom_vec_v,
            kzg_vec_v,
            vcom_vec_r,
            kzg_vec_r,
            prf_qa_nizk,
            ch,
            rc,
            agg_kzg_prf,
            part2: None,
            hash_cmF: rand_inp.hash_cmF,
        };
        Ok((prf, rand_inp))
    }

    /// Whether the first part of a batch proof holds.
    pub open spec fn part_one_ok<K: OpeningVerifier<KZGProof>, V>(
        vkey: BatchProcessorVerifierParams<K, V>,
        claim: BatchClaim,
        prf: BatchProof,
        config: PoseidonConfigView,
    ) -> bool {
        let x = seq![prf.kzg_vec_r, prf.vcom_vec_r, prf.kzg_vec_v, prf.vcom_vec_v];
        let coms = combined_coms(claim, prf);
        &&& vkey.vk_qa_nizk.accepts(x, prf.prf_qa_nizk)
        &&& (prf.ch, prf.rc) == batch_challenges(config, claim, prf.hash_cmF, prf.kzg_vec_r, prf.kzg_vec_v)
        &&& vkey.kzg.verify_spec(prf.ch, combined_point(coms, prf.rc, coms.len()), prf.agg_kzg_prf) is Ok
    }

    /// The public inputs of the CyclePair circuit that belong to a batch proof.
    pub open spec fn cp_input<K>(prf: BatchProof, p: BatchPartTwo, keys: PartTwoKeys<K>, kzg_sum1: Option<Fr>) -> CircPubInput {
        CircPubInput {
            ch1: prf.ch,
            rc1: prf.rc,
            kzg_sum1: match kzg_sum1 {
                Some(s) => s,
                None => prf.agg_kzg_prf.eval,
            },
            kzg_all_com_ch1: p.kzg_all_com_ch1,
            eval_w_e1: p.kzg_all_com_prf1.eval,
            mainres_hash: p.mainres_hash,
            kzg_all_com_ch2: p.kzg_all_com_ch2,
            eval_w_e2: p.kzg_all_com_prf2.eval,
            qa_nizk_vkey_hash: keys.nova1_qa_nizk_vkey_hash,
            comE2: p.comE2,
            comW2: p.comW2,
            comF2: p.comF2,
        }
    }

    /// Whether the second part of a batch proof holds.
    pub open spec fn part_two_ok<K: OpeningVerifier<KZGProof>>(
        keys: PartTwoKeys<K>,
        prf: BatchProof,
        p: BatchPartTwo,
        kzg_sum1: Option<Fr>,
    ) -> bool {
        let x = seq![p.kzg_all_com2, p.comW2, p.comE2, p.comF2];
        let input = BatchProcessor::cp_input(prf, p, keys, kzg_sum1).vector();
        &&& keys.kzg_driver1.verify_spec(p.kzg_all_com_ch1, p.kzg_all_com1, p.kzg_all_com_prf1) is Ok
        &&& keys.kzg_driver2.verify_spec(p.kzg_all_com_ch2, p.kzg_all_com2, p.kzg_all_com_prf2) is Ok
        &&& keys.nova2_qa_nizk_vkey.accepts(x, p.qa_nizk_prf2)
        &&& snark_outcome(keys.snark_vk_main@, seq![p.mainres_hash], p.snark_proof_main@) is Ok
        &&& snark_outcome(keys.snark_vk_cp@, input, p.snark_proof_cp@) is Ok
    }

    /// Checks the first part of a batch proof.
    fn check_part_one<K: OpeningVerifier<KZGProof>, V>(
        vkey: &BatchProcessorVerifierParams<K, V>,
        claim: &BatchClaim,
        prf: &BatchProof,
        poseidon_config: &PoseidonConfig,
    ) -> (b: bool)
        requires
            poseidon_config@.wf(),
            vkey.vk_qa_nizk.c@.len() == 4,
        ensures
            b == BatchProcessor::part_one_ok(*vkey, *claim, *prf, poseidon_config@),
    {
        let rand_inp = SnarkRandInput {
            kzg_all_words: claim.kzg_all_words,
            kzg_length: claim.kzg_length,
            kzg_lk_col1: claim.kzg_lk_col1,
            kzg_lk_col2: claim.kzg_lk_col2,
            hash_cmF: prf.hash_cmF,
            kzg_vec_r: prf.kzg_vec_r,
            kzg_vec_v: prf.kzg_vec_v,
            poseidon_config: poseidon_config.clone(),
        };
        assert(rand_inp.claim() == *claim);
        let x = four_points(&prf.kzg_vec_r, &prf.vcom_vec_r, &prf.kzg_vec_v, &prf.vcom_vec_v);
        if !vkey.vk_qa_nizk.verify(&x, &prf.prf_qa_nizk) {
            return false;
        }
        let (ch, rc) = rand_inp.gen_challenge();
        if !ch.same(&prf.ch) || !rc.same(&prf.rc) {
            return false;
        }
        let mut coms: Vec<G1> = Vec::new();
        coms.push(claim.kzg_lk_col1);
        coms.push(claim.kzg_lk_col2);
        coms.push(claim.kzg_all_words);
        coms.push(claim.kzg_length);
        coms.push(prf.kzg_vec_r);
        coms.push(prf.kzg_vec_v);
        assert(coms@ =~= combined_coms(*claim, *prf));
        let com_all = combine_points(&coms, &rc);
        vkey.kzg.verify_with_challenge(&ch, &com_all, &prf.agg_kzg_prf).is_ok()
    }

    /// Checks the second part of a batch proof.
    fn check_part_two<K: OpeningVerifier<KZGProof>>(
        keys: &PartTwoKeys<K>,
        prf: &BatchProof,
        p: &BatchPartTwo,
        opt_kzg_sum1: &Option<Fr>,
    ) -> (b: bool)
        requires
            keys.nova2_qa_nizk_vkey.c@.len() == 4,
        ensures
            b == BatchProcessor::part_two_ok(*keys, *prf, *p, *opt_kzg_sum1),
    {
        if keys.kzg_driver1.verify_with_challenge(&p.kzg_all_com_ch1, &p.kzg_all_com1, &p.kzg_all_com_prf1).is_err() {
            return false;
        }
        if keys.kzg_driver2.verify_with_challenge(&p.kzg_all_com_ch2, &p.kzg_all_com2, &p.kzg_all_com_prf2).is_err() {
            return false;
        }
        let x = four_points(&p.kzg_all_com2, &p.comW2, &p.comE2, &p.comF2);
        if !keys.nova2_qa_nizk_vkey.verify(&x, &p.qa_nizk_prf2) {
            return false;
        }
        let kzg_sum1 = match opt_kzg_sum1 {
            Some(s) => *s,
            None => prf.agg_kzg_prf.eval,
        };
        let mut main_input: Vec<Fr> = Vec::new();
        main_input.push(p.mainres_hash);
        assert(main_input@ =~= seq![p.mainres_hash]);
        if check_snark(&keys.snark_vk_main, &main_input, &p.snark_proof_main).is_err() {
            return false;
        }
        let inp = CircPubInput {
            ch1: prf.ch,
            rc1: prf.rc,
            kzg_sum1,
            kzg_all_com_ch1: p.kzg_all_com_ch1,
            eval_w_e1: p.kzg_all_com_prf1.eval,
            mainres_hash: p.mainres_hash,
            kzg_all_com_ch2: p.kzg_all_com_ch2,
            eval_w_e2: p.kzg_all_com_prf2.eval,
            qa_nizk_vkey_hash: keys.nova1_qa_nizk_vkey_hash,
            comE2: p.comE2,
            comW2: p.comW2,
            comF2: p.comF2,
        };
        assert(inp == BatchProcessor::cp_input(*prf, *p, *keys, *opt_kzg_sum1));
        check_snark(&keys.snark_vk_cp, &inp.to_vec(), &p.snark_proof_cp).is_ok()
    }

    /// Verifies the claim on all words. With the keys for it, the second part is
    /// verified too. Where the lookup table is not looked up as a whole, `opt_kzg_sum1`
    /// takes the place of the value of the combined polynomial in the circuit's inputs.
    pub fn verify_batch<K: OpeningVerifier<KZGProof>, V>(
        vkey: &BatchProcessorVerifierParams<K, V>,
        part2_keys: Option<&PartTwoKeys<K>>,
        claim: &BatchClaim,
        prf: &BatchProof,
        poseidon_config: &PoseidonConfig,
        opt_kzg_sum1: &Option<Fr>,
    ) -> (b: bool)
        requires
            poseidon_config@.wf(),
            vkey.vk_qa_nizk.c@.len() == 4,
            part2_keys matches Some(keys) ==> prf.part2 is Some && keys.nova2_qa_nizk_vkey.c@.len() == 4,
        ensures
            b == (BatchProcessor::part_one_ok(*vkey, *claim, *prf, poseidon_config@) && match part2_keys {
                None => true,
                Some(keys) => BatchProcessor::part_two_ok(*keys, *prf, prf.part2->0, *opt_kzg_sum1),
            }),
    {
        if !BatchProcessor::check_part_one(vkey, claim, prf, poseidon_config) {
            return false;
        }
        match (part2_keys, &prf.part2) {
            (None, _) => true,
            (Some(keys), Some(p)) => BatchProcessor::check_part_two(keys, prf, p, opt_kzg_sum1),
            (Some(_), None) => false,
        }
    }
}

/// Four points as a vector.
fn four_points(a: &G1, b: &G1, c: &G1, d: &G1) -> (v: Vec<G1>)
    ensures
        v@ == seq![*a, *b, *c, *d],
{
    let mut v: Vec<G1> = Vec::new();
    v.push(*a);
    v.push(*b);
    v.push(*c);
    v.push(*d);
    assert(v@ =~= seq![*a, *b, *c, *d]);
    v
}

/// The combination of the points with the powers of `rc`.
fn combine_points(coms: &Vec<G1>, rc: &Fr) -> (r: G1)
    ensures
        r == combined_point(coms@, *rc, coms@.len()),
{
    let mut acc = G1::Infinity;
    let mut factor = Fr::one();
    let mut i: usize = 0;
    while i < coms.len()
        invariant
            i <= coms@.len(),
            acc == combined_point(coms@, *rc, i as nat),
            factor == f_pow(*rc, i as nat),
        decreases coms.len() - i,
    {
        acc = acc.plus(&coms[i].times(&factor));
        factor = factor.times(rc);
        i = i + 1;
    }
    acc
}

} // verus!
