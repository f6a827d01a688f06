//! The decider for Ethereum: what is proved of the end of a computation, how it is
//! verified, and how the proof is laid out for a contract.
use vstd::prelude::*;
use ark_bn254::Bn254;
use ark_ec::AffineRepr;
use ark_ff::BigInt;
use ark_ff::PrimeField;
use ark_groth16::Groth16;
use ark_serialize::CanonicalDeserialize;
use ark_snark::SNARK;
use crate::bigint::ark_to_bytes_be;
use crate::bigint::le_digits;
use crate::bigint::le_value;
use crate::bigint::lemma_le_digits;
use crate::commitment::CommitmentScheme;
use crate::commitment::KZGProof;
use crate::commitment::OpeningProver;
use crate::commitment::OpeningVerifier;
use crate::curve::Fq2;
use crate::curve::G1;
use crate::curve::G2;
use crate::decider_circuit::join_parts;
use crate::decider_circuit::joined_f;
use crate::decider_circuit::DeciderEthCircuitSuper;
use crate::error::outcome;
use crate::error::Error;
use crate::error::ErrorView;
use crate::field::f_zero;
use crate::field::Field;
use crate::field::FieldModel;
use crate::field::lemma_units;
use crate::field_fq::Fq;
use crate::field_fr::Fr;
use crate::foldpot_super::field_to_usize;
use crate::instance::CommittedInstanceFoldPot;
use crate::instance::InstanceView;
use crate::instance_super::inst_views;
use crate::instance_super::joined_e;
use crate::instance_super::joined_w;
use crate::instance_super::wit_views;
use crate::instance_super::CommittedInstanceFoldPotSuper;
use crate::instance_super::InstanceSuperView;
use crate::limbs::g1_limbs;
use crate::limbs::inputize;
use crate::nifs::NIFSFoldPot;
use crate::vecs::push_all;

verus! {

/// The verdict of `ark_groth16::Groth16` on BN254, with the key and the proof in
/// `ark_serialize`'s uncompressed form. None where the bytes are no key or no proof, or
/// the key is for another number of inputs.
pub uninterp spec fn groth16_verdict(key: Seq<u8>, input: Seq<Fr>, proof: Seq<u8>) -> Option<bool>;

/// The points of a proof of `ark_groth16` on BN254 in `ark_serialize`'s uncompressed
/// form. None where the bytes are no proof.
pub uninterp spec fn groth16_points(proof: Seq<u8>) -> Option<(G1, G2, G1)>;

/// Where the number of points in a key stands.
pub const KEY_COUNT_AT: usize = 448;

/// How many bytes that number has.
pub const KEY_COUNT_LEN: usize = 8;

/// How many bytes a point of the first group has.
pub const POINT_LEN: usize = 64;

/// Whether a key has as many bytes as its number of points asks for.
pub open spec fn key_framed(key: Seq<u8>) -> bool {
    &&& key.len() >= KEY_COUNT_AT + KEY_COUNT_LEN
    &&& KEY_COUNT_AT + KEY_COUNT_LEN + POINT_LEN * le_value(
        key.subrange(KEY_COUNT_AT as int, KEY_COUNT_AT + KEY_COUNT_LEN),
    ) == key.len()
}

/// `ark_groth16`'s `Groth16::verify`, through `ark_snark`'s `SNARK`, on a key and a
/// proof that `ark_serialize` reads. The number of points is to fit the key's bytes:
/// `ark_serialize` reserves room for as many as the key tells.
#[verifier::external_body]
fn groth16_verify(key: &Vec<u8>, input: &Vec<Fr>, proof: &Vec<u8>) -> (r: Option<bool>)
    requires
        key_framed(key@),
    ensures
        r == groth16_verdict(key@, input@, proof@),
{
    let vk = ark_groth16::VerifyingKey::<Bn254>::deserialize_uncompressed(&key[..]).ok()?;
    let prf = ark_groth16::Proof::<Bn254>::deserialize_uncompressed(&proof[..]).ok()?;
    let x: Vec<ark_bn254::Fr> = input.iter().map(|e| ark_bn254::Fr::new(BigInt(e.limbs()))).collect();
    Groth16::<Bn254>::verify(&vk, &x, &prf).ok()
}

/// `ark_serialize`'s `CanonicalDeserialize::deserialize_uncompressed` for
/// `ark_groth16::Proof`, with the points in coordinates.
#[verifier::external_body]
fn groth16_read(proof: &Vec<u8>) -> (r: Option<(G1, G2, G1)>)
    ensures
        r == groth16_points(proof@),
{
    let prf = ark_groth16::Proof::<Bn254>::deserialize_uncompressed(&proof[..]).ok()?;
    let fq = |e: ark_bn254::Fq| Fq::from_limbs(e.into_bigint().0);
    let fq2 = |e: ark_bn254::Fq2| Fq2 { c0: fq(e.c0), c1: fq(e.c1) };
    let g1 = |p: ark_bn254::G1Affine| match p.xy() {
        None => G1::Infinity,
        Some((x, y)) => G1::Point(fq(x), fq(y)),
    };
    let b = match prf.b.xy() {
        None => G2::Infinity,
        Some((x, y)) => G2::Point(fq2(x), fq2(y)),
    };
    Some((g1(prf.a), b, g1(prf.c)))
}

/// The number that the eight bytes at `KEY_COUNT_AT` hold, least significant first.
fn key_is_framed(key: &Vec<u8>) -> (b: bool)
    ensures
        b == key_framed(key@),
{
    let n = key.len();
    if n < KEY_COUNT_AT + KEY_COUNT_LEN {
        return false;
    }
    let ghost count = key@.subrange(KEY_COUNT_AT as int, KEY_COUNT_AT + KEY_COUNT_LEN);
    let mut value: u128 = 0;
    let mut i: usize = KEY_COUNT_LEN;
    assert(count.skip(KEY_COUNT_LEN as int) =~= Seq::empty());
    while i > 0
        invariant
            i <= KEY_COUNT_LEN,
            key@.len() >= KEY_COUNT_AT + KEY_COUNT_LEN,
            count == key@.subrange(KEY_COUNT_AT as int, KEY_COUNT_AT + KEY_COUNT_LEN),
            value == le_value(count.skip(i as int)),
            i == 8 ==> value < 0x1,
            i == 7 ==> value < 0x100,
            i == 6 ==> value < 0x1_0000,
            i == 5 ==> value < 0x100_0000,
            i == 4 ==> value < 0x1_0000_0000,
            i == 3 ==> value < 0x100_0000_0000,
            i == 2 ==> value < 0x1_0000_0000_0000,
            i == 1 ==> value < 0x100_0000_0000_0000,
            i == 0 ==> value < 0x1_0000_0000_0000_0000,
        decreases i,
    {
        i = i - 1;
        assert(count.skip(i as int).drop_first() =~= count.skip(i + 1));
        assert(count.skip(i as int)[0] == key@[KEY_COUNT_AT + i]);
        value = 256 * value + key[KEY_COUNT_AT + i] as u128;
    }
    assert(count.skip(0) =~= count);
    (KEY_COUNT_AT + KEY_COUNT_LEN) as u128 + POINT_LEN as u128 * value == n as u128
}

/// A proof of the decider.
#[derive(Debug)]
pub struct Proof {
    /// The proof of the circuit, in `ark_serialize`'s uncompressed form.
    pub snark_proof: Vec<u8>,
    /// The openings: of the witness, the error and the fixed memory, and of the lookup
    /// columns.
    pub kzg_proofs: [KZGProof; 5],
    /// The commitment to the cross term and the challenge of the last fold.
    pub cm_t: G1,
    pub r: Fr,
    /// Where the witness, the error and the fixed memory are opened, and where the
    /// lookup columns are.
    pub kzg_challenges: [Fr; 4],
}

/// What the verifier of the decider knows.
pub struct DeciderVerifierParams<V: OpeningVerifier<KZGProof>> {
    /// The digest of the parameters of the computation.
    pub pp_hash: Fr,
    /// The key of the circuit, in `ark_serialize`'s uncompressed form.
    pub snark_vk: Vec<u8>,
    pub cs_vk: V,
    /// The commitments to the lookup columns.
    pub kzg_lk_col1: G1,
    pub kzg_lk_col2: G1,
}

/// The public values of an instance: `u`, `x`, then the limbs of the commitments to
/// the error, the witness and the fixed memory.
pub open spec fn instance_input(u: InstanceView) -> Seq<Fr> {
    seq![u.u] + u.x + g1_limbs(u.cm_e) + g1_limbs(u.cm_w) + g1_limbs(u.cm_f)
}

/// The public values of the instances behind each other.
pub open spec fn instances_input(v: Seq<InstanceView>) -> Seq<Fr>
    decreases v.len(),
{
    if v.len() == 0 {
        Seq::empty()
    } else {
        instances_input(v.drop_last()) + instance_input(v.last())
    }
}

/// The values of the openings in the order of the circuit: error, witness, fixed
/// memory, lookup columns.
pub open spec fn evals_input(p: Seq<KZGProof>) -> Seq<Fr> {
    seq![p[1].eval, p[0].eval, p[2].eval, p[3].eval, p[4].eval]
}

/// The public inputs of the circuit, where `inst` are those of the folded instances.
pub open spec fn public_input(
    pp_hash: Fr,
    i: Fr,
    z_0: Seq<Fr>,
    z_i: Seq<Fr>,
    inst: Seq<Fr>,
    proof: Proof,
) -> Seq<Fr> {
    seq![pp_hash, i] + z_0 + z_i + inst + proof.kzg_challenges@ + evals_input(proof.kzg_proofs@) + g1_limbs(
        proof.cm_t,
    ) + seq![proof.r]
}

/// The public values of an instance.
fn instance_values(u: &CommittedInstanceFoldPot) -> (v: Vec<Fr>)
    ensures
        v@ == instance_input(u@),
{
    let mut v: Vec<Fr> = Vec::new();
    v.push(u.u);
    assert(v@ =~= seq![u.u]);
    push_all(&mut v, &u.x);
    push_all(&mut v, &inputize(&u.cm_e));
    push_all(&mut v, &inputize(&u.cm_w));
    push_all(&mut v, &inputize(&u.cm_f));
    v
}

/// The public inputs of the circuit.
fn build_input(pp_hash: &Fr, i: &Fr, z_0: &Vec<Fr>, z_i: &Vec<Fr>, inst: &Vec<Fr>, proof: &Proof) -> (v: Vec<Fr>)
    ensures
        v@ == public_input(*pp_hash, *i, z_0@, z_i@, inst@, *proof),
{
    let mut v: Vec<Fr> = Vec::new();
    v.push(*pp_hash);
    v.push(*i);
    assert(v@ =~= seq![*pp_hash, *i]);
    push_all(&mut v, z_0);
    push_all(&mut v, z_i);
    push_all(&mut v, inst);
    let ghost head = v@;
    v.push(proof.kzg_challenges[0]);
    v.push(proof.kzg_challenges[1]);
    v.push(proof.kzg_challenges[2]);
    v.push(proof.kzg_challenges[3]);
    assert(v@ =~= head + proof.kzg_challenges@);
    let ghost next = v@;
    v.push(proof.kzg_proofs[1].eval);
    v.push(proof.kzg_proofs[0].eval);
    v.push(proof.kzg_proofs[2].eval);
    v.push(proof.kzg_proofs[3].eval);
    v.push(proof.kzg_proofs[4].eval);
    assert(v@ =~= next + evals_input(proof.kzg_proofs@));
    push_all(&mut v, &inputize(&proof.cm_t));
    let ghost last = v@;
    v.push(proof.r);
    assert(v@ =~= last + seq![proof.r]);
    v
}

/// What the check of the circuit's proof returns.
pub open spec fn snark_outcome(key: Seq<u8>, input: Seq<Fr>, proof: Seq<u8>) -> Result<(), ErrorView> {
    if !key_framed(key) {
        Err(ErrorView::Other("the proof could not be checked"@))
    } else {
        match groth16_verdict(key, input, proof) {
            None => Err(ErrorView::Other("the proof could not be checked"@)),
            Some(false) => Err(ErrorView::SNARKVerificationFail),
            Some(true) => Ok(()),
        }
    }
}

/// Checks the circuit's proof.
pub(crate) fn check_snark(key: &Vec<u8>, input: &Vec<Fr>, proof: &Vec<u8>) -> (r: Result<(), Error>)
    ensures
        outcome(r) == snark_outcome(key@, input@, proof@),
{
    if !key_is_framed(key) {
        return Err(Error::Other("the proof could not be checked".to_owned()));
    }
    match groth16_verify(key, input, proof) {
        None => Err(Error::Other("the proof could not be checked".to_owned())),
        Some(ok) => if ok {
            Ok(())
        } else {
            Err(Error::SNARKVerificationFail)
        },
    }
}

/// The first error of the two outcomes.
pub open spec fn both(a: Result<(), ErrorView>, b: Result<(), ErrorView>) -> Result<(), ErrorView> {
    if a is Err {
        a
    } else {
        b
    }
}

/// What checking the openings of the folded instance's commitments returns: the first
/// error.
pub open spec fn openings_outcome<V: OpeningVerifier<KZGProof>>(vk: V, u: InstanceView, p: Proof) -> Result<(), ErrorView> {
    both(
        vk.verify_spec(p.kzg_challenges@[0], u.cm_w, p.kzg_proofs@[0]),
        both(
            vk.verify_spec(p.kzg_challenges@[1], u.cm_e, p.kzg_proofs@[1]),
            vk.verify_spec(p.kzg_challenges@[2], u.cm_f, p.kzg_proofs@[2]),
        ),
    )
}

/// Checks the openings of the folded instance's commitments.
fn check_openings<V: OpeningVerifier<KZGProof>>(vk: &V, u: &CommittedInstanceFoldPot, p: &Proof) -> (r: Result<(), Error>)
    ensures
        outcome(r) == openings_outcome(*vk, u@, *p),
{
    let w = vk.verify_with_challenge(&p.kzg_challenges[0], &u.cm_w, &p.kzg_proofs[0]);
    if w.is_err() {
        return w;
    }
    let e = vk.verify_with_challenge(&p.kzg_challenges[1], &u.cm_e, &p.kzg_proofs[1]);
    if e.is_err() {
        return e;
    }
    vk.verify_with_challenge(&p.kzg_challenges[2], &u.cm_f, &p.kzg_proofs[2])
}

/// The vectors that are opened, and where.
pub struct Openings {
    pub w: Vec<Fr>,
    pub e: Vec<Fr>,
    pub f: Vec<Fr>,
    pub lkup_col1: Vec<Fr>,
    pub lkup_col2: Vec<Fr>,
    /// Where the witness, the error, the fixed memory and the lookup columns are opened.
    pub challenges: [Fr; 4],
}

impl Openings {
    /// What the proofs of the openings return, in order.
    pub open spec fn results<K: OpeningProver<KZGProof>>(self, pk: K) -> Seq<Result<KZGProof, ErrorView>> {
        let c = self.challenges@;
        seq![
            pk.prove_spec(c[0], self.w@),
            pk.prove_spec(c[1], self.e@),
            pk.prove_spec(c[2], self.f@),
            pk.prove_spec(c[3], self.lkup_col1@),
            pk.prove_spec(c[3], self.lkup_col2@),
        ]
    }

    /// Whether all openings are proved.
    pub open spec fn all_proved<K: OpeningProver<KZGProof>>(self, pk: K) -> bool {
        forall|k: int| 0 <= k < 5 ==> (#[trigger] self.results(pk)[k]) is Ok
    }

    /// The first error of the openings.
    pub open spec fn first_error<K: OpeningProver<KZGProof>>(self, pk: K) -> ErrorView {
        let r = self.results(pk);
        if r[0] is Err {
            r[0]->Err_0
        } else if r[1] is Err {
            r[1]->Err_0
        } else if r[2] is Err {
            r[2]->Err_0
        } else if r[3] is Err {
            r[3]->Err_0
        } else {
            r[4]->Err_0
        }
    }

    /// Proves the openings and puts the decider's proof together.
    pub fn prove<K: OpeningProver<KZGProof>>(&self, pk: &K, snark_proof: Vec<u8>, cm_t: &G1, r: &Fr) -> (res: Result<
        Proof,
        Error,
    >)
        ensures
            res is Ok <==> self.all_proved(*pk),
            res matches Ok(p) ==> {
                &&& p.snark_proof == snark_proof
                &&& p.cm_t == *cm_t
                &&& p.r == *r
                &&& p.kzg_challenges == self.challenges
                &&& forall|k: int| 0 <= k < 5 ==> Ok::<KZGProof, ErrorView>(#[trigger] p.kzg_proofs@[k]) == self.results(*pk)[k]
            },
            res matches Err(e) ==> e@ == self.first_error(*pk),
    {
        let ghost results = self.results(*pk);
        let p0 = match pk.prove_with_challenge(&self.challenges[0], &self.w) {
            Err(e) => {
                assert(results[0] is Err);
                return Err(e);
            },
            Ok(p) => p,
        };
        let p1 = match pk.prove_with_challenge(&self.challenges[1], &self.e) {
            Err(e) => {
                assert(results[1] is Err);
                return Err(e);
            },
            Ok(p) => p,
        };
        let p2 = match pk.prove_with_challenge(&self.challenges[2], &self.f) {
            Err(e) => {
                assert(results[2] is Err);
                return Err(e);
            },
            Ok(p) => p,
        };
        let p3 = match pk.prove_with_challenge(&self.challenges[3], &self.lkup_col1) {
            Err(e) => {
                assert(results[3] is Err);
                return Err(e);
            },
            Ok(p) => p,
        };
        let p4 = match pk.prove_with_challenge(&self.challenges[3], &self.lkup_col2) {
            Err(e) => {
                assert(results[4] is Err);
                return Err(e);
            },
            Ok(p) => p,
        };
        let kzg_proofs = [p0, p1, p2, p3, p4];
        assert(kzg_proofs@ =~= seq![p0, p1, p2, p3, p4]);
        assert forall|k: int| 0 <= k < 5 implies Ok::<KZGProof, ErrorView>(#[trigger] kzg_proofs@[k]) == results[k] by {
            assert(k == 0 || k == 1 || k == 2 || k == 3 || k == 4);
        }
        assert forall|k: int| 0 <= k < 5 implies (#[trigger] results[k]) is Ok by {
            assert(Ok::<KZGProof, ErrorView>(kzg_proofs@[k]) == results[k]);
        }
        Ok(Proof { snark_proof, kzg_proofs, cm_t: *cm_t, r: *r, kzg_challenges: self.challenges })
    }
}

/// The decider of a computation with one step circuit.
#[derive(Debug, Clone, Copy)]
pub struct DeciderFoldPot {}

impl DeciderFoldPot {
    /// What the verification returns.
    pub open spec fn verify_spec<V: OpeningVerifier<KZGProof>>(
        vp: DeciderVerifierParams<V>,
        i: Fr,
        z_0: Seq<Fr>,
        z_i: Seq<Fr>,
        running: InstanceView,
        incoming: InstanceView,
        proof: Proof,
    ) -> Result<(), ErrorView> {
        let u = running.folded(proof.r, incoming, proof.cm_t);
        let input = public_input(vp.pp_hash, i, z_0, z_i, instance_input(u), proof);
        let c = proof.kzg_challenges@[3];
        if i.val() <= 1 {
            Err(ErrorView::NotEnoughSteps)
        } else {
            both(
                snark_outcome(vp.snark_vk@, input, proof.snark_proof@),
                both(
                    openings_outcome(vp.cs_vk, u, proof),
                    both(
                        vp.cs_vk.verify_spec(c, vp.kzg_lk_col1, proof.kzg_proofs@[3]),
                        vp.cs_vk.verify_spec(c, vp.kzg_lk_col2, proof.kzg_proofs@[4]),
                    ),
                ),
            )
        }
    }

    /// Verifies the proof of a computation of `i` steps from `z_0` to `z_i` that ended
    /// with the given instances.
    pub fn verify<V: OpeningVerifier<KZGProof>>(
        vp: &DeciderVerifierParams<V>,
        i: &Fr,
        z_0: &Vec<Fr>,
        z_i: &Vec<Fr>,
        running_instance: &CommittedInstanceFoldPot,
        incoming_instance: &CommittedInstanceFoldPot,
        proof: &Proof,
    ) -> (r: Result<bool, Error>)
        ensures
            ({
                let expected = DeciderFoldPot::verify_spec(
                    *vp,
                    *i,
                    z_0@,
                    z_i@,
                    running_instance@,
                    incoming_instance@,
                    *proof,
                );
                match r {
                    Ok(b) => b && expected is Ok,
                    Err(e) => expected == Err::<(), ErrorView>(e@),
                }
            }),
    {
        let one = Fr::one();
        proof {
            lemma_units::<Fr>();
        }
        if !one.less(i) {
            return Err(Error::NotEnoughSteps);
        }
        let u = NIFSFoldPot::verify(&proof.r, running_instance, incoming_instance, &proof.cm_t);
        let inst = instance_values(&u);
        let input = build_input(&vp.pp_hash, i, z_0, z_i, &inst, proof);
        match check_snark(&vp.snark_vk, &input, &proof.snark_proof) {
            Err(e) => { return Err(e); },
            Ok(_) => {},
        }
        match check_openings(&vp.cs_vk, &u, proof) {
            Err(e) => { return Err(e); },
            Ok(_) => {},
        }
        match vp.cs_vk.verify_with_challenge(&proof.kzg_challenges[3], &vp.kzg_lk_col1, &proof.kzg_proofs[3]) {
            Err(e) => { return Err(e); },
            Ok(_) => {},
        }
        match vp.cs_vk.verify_with_challenge(&proof.kzg_challenges[3], &vp.kzg_lk_col2, &proof.kzg_proofs[4]) {
            Err(e) => Err(e),
            Ok(_) => Ok(true),
        }
    }
}

/// The decider of a computation with several step circuits.
#[derive(Debug, Clone, Copy)]
pub struct DeciderFoldPotSuper {}

impl DeciderFoldPotSuper {
    /// How long the keys have to be for all circuits together and the lookup table.
    pub fn key_size(cs_pp_len: &Vec<usize>, lk_size: usize) -> (n: usize)
        requires
            total(cs_pp_len@) <= usize::MAX,
            lk_size < usize::MAX,
        ensures
            n == (if total(cs_pp_len@) > lk_size + 1 {
                total(cs_pp_len@)
            } else {
                (lk_size + 1) as nat
            }),
    {
        let mut sum: usize = 0;
        let mut k: usize = 0;
        assert(cs_pp_len@.take(0) =~= Seq::empty());
        assert(cs_pp_len@.take(cs_pp_len@.len() as int) =~= cs_pp_len@);
        while k < cs_pp_len.len()
            invariant
                k <= cs_pp_len@.len(),
                sum == total(cs_pp_len@.take(k as int)),
                total(cs_pp_len@) <= usize::MAX,
            decreases cs_pp_len.len() - k,
        {
            assert(cs_pp_len@.take(k + 1).drop_last() =~= cs_pp_len@.take(k as int));
            proof {
                lemma_total_prefix(cs_pp_len@, (k + 1) as nat);
            }
            sum = sum + cs_pp_len[k];
            k = k + 1;
        }
        assert(cs_pp_len@.take(k as int) =~= cs_pp_len@);
        if sum > lk_size + 1 {
            sum
        } else {
            lk_size + 1
        }
    }

    /// Proves the openings of the circuit's witnesses, errors, fixed memories and
    /// lookup columns, and puts the proof together with that of the circuit.
    pub fn prove<CS1: CommitmentScheme<Fr, G1>, K: OpeningProver<KZGProof>>(
        pk: &K,
        circuit: &DeciderEthCircuitSuper<CS1>,
        snark_proof: Vec<u8>,
    ) -> (res: Result<Proof, Error>)
        requires
            forall|k: int|
                0 <= k < circuit.end.next_w.vec_wit@.len() ==> (#[trigger] circuit.end.next_w.vec_wit@[k])@.wf(),
        ensures
            ({
                let wits = wit_views(circuit.end.next_w.vec_wit@);
                let results = seq![
                    pk.prove_spec(circuit.kzg_c_w, joined_w(wits)),
                    pk.prove_spec(circuit.kzg_c_e, joined_e(wits)),
                    pk.prove_spec(circuit.kzg_c_f, joined_f(wits)),
                    pk.prove_spec(circuit.kzg_c_lkup, circuit.lkup_col1_rev@),
                    pk.prove_spec(circuit.kzg_c_lkup, circuit.lkup_col2_rev@),
                ];
                match res {
                    Ok(p) => {
                        &&& p.snark_proof == snark_proof
                        &&& p.cm_t == circuit.end.cm_t
                        &&& p.r == circuit.r
                        &&& p.kzg_challenges@ == seq![
                            circuit.kzg_c_w,
                            circuit.kzg_c_e,
                            circuit.kzg_c_f,
                            circuit.kzg_c_lkup,
                        ]
                        &&& forall|k: int| 0 <= k < 5 ==> Ok::<KZGProof, ErrorView>(#[trigger] p.kzg_proofs@[k]) == results[k]
                    },
                    Err(e) => exists|k: int|
                        0 <= k < 5 && (#[trigger] results[k]) == Err::<KZGProof, ErrorView>(e@) && forall|j: int|
                            0 <= j < k ==> (#[trigger] results[j]) is Ok,
                }
            }),
    {
        let (w, e, f) = join_parts(&circuit.end.next_w.vec_wit);
        let challenges = [circuit.kzg_c_w, circuit.kzg_c_e, circuit.kzg_c_f, circuit.kzg_c_lkup];
        let openings = Openings {
            w,
            e,
            f,
            lkup_col1: crate::vecs::copy_of(&circuit.lkup_col1_rev),
            lkup_col2: crate::vecs::copy_of(&circuit.lkup_col2_rev),
            challenges,
        };
        let res = openings.prove(pk, snark_proof, &circuit.end.cm_t, &circuit.r);
        proof {
            let results = openings.results(*pk);
            assert(challenges@ =~= seq![
                circuit.kzg_c_w,
                circuit.kzg_c_e,
                circuit.kzg_c_f,
                circuit.kzg_c_lkup,
            ]);
            assert(results =~= seq![
                pk.prove_spec(circuit.kzg_c_w, joined_w(wit_views(circuit.end.next_w.vec_wit@))),
                pk.prove_spec(circuit.kzg_c_e, joined_e(wit_views(circuit.end.next_w.vec_wit@))),
                pk.prove_spec(circuit.kzg_c_f, joined_f(wit_views(circuit.end.next_w.vec_wit@))),
                pk.prove_spec(circuit.kzg_c_lkup, circuit.lkup_col1_rev@),
                pk.prove_spec(circuit.kzg_c_lkup, circuit.lkup_col2_rev@),
            ]);
            if res is Err {
                let err = res->Err_0;
                let k: int = if results[0] is Err {
                    0
                } else if results[1] is Err {
                    1
                } else if results[2] is Err {
                    2
                } else if results[3] is Err {
                    3
                } else {
                    4
                };
                if results[k] is Ok {
                    assert forall|j: int| 0 <= j < 5 implies (#[trigger] results[j]) is Ok by {
                        assert(j == 0 || j == 1 || j == 2 || j == 3 || j == 4);
                    }
                    assert(openings.all_proved(*pk));
                }
                assert(results[k] == Err::<KZGProof, ErrorView>(err@));
                assert forall|j: int| 0 <= j < k implies (#[trigger] results[j]) is Ok by {
                    assert(j == 0 || j == 1 || j == 2 || j == 3);
                }
            }
        }
        res
    }

    /// The running instances with the incoming one folded in.
    pub open spec fn next(running: InstanceSuperView, incoming: InstanceView, proof: Proof) -> Seq<InstanceView> {
        let j = running.pc_i.val() as int;
        running.insts.update(j, running.insts[j].folded(proof.r, incoming, proof.cm_t))
    }

    /// What the verification returns.
    pub open spec fn verify_spec<V: OpeningVerifier<KZGProof>>(
        vp: DeciderVerifierParams<V>,
        i: Fr,
        z_0: Seq<Fr>,
        z_i: Seq<Fr>,
        running: InstanceSuperView,
        incoming: InstanceView,
        proof: Proof,
    ) -> Result<(), ErrorView> {
        let next = DeciderFoldPotSuper::next(running, incoming, proof);
        let inst = instances_input(next) + seq![running.x_1, running.pc_i];
        let input = public_input(vp.pp_hash, i, z_0, z_i, inst, proof);
        if i.val() <= 1 {
            Err(ErrorView::NotEnoughSteps)
        } else {
            both(
                snark_outcome(vp.snark_vk@, input, proof.snark_proof@),
                openings_outcome(vp.cs_vk, next[running.pc_i.val() as int], proof),
            )
        }
    }

    /// Verifies the proof of a computation of `i` steps from `z_0` to `z_i` that ended
    /// with the given instances. The lookup columns are not opened.
    pub fn verify<V: OpeningVerifier<KZGProof>>(
        vp: &DeciderVerifierParams<V>,
        i: &Fr,
        z_0: &Vec<Fr>,
        z_i: &Vec<Fr>,
        running_instance: &CommittedInstanceFoldPotSuper,
        incoming_instance: &CommittedInstanceFoldPot,
        proof: &Proof,
    ) -> (r: Result<bool, Error>)
        requires
            running_instance.pc_i.val() < running_instance.vec_inst@.len(),
        ensures
            ({
                let expected = DeciderFoldPotSuper::verify_spec(
                    *vp,
                    *i,
                    z_0@,
                    z_i@,
                    running_instance@,
                    incoming_instance@,
                    *proof,
                );
                match r {
                    Ok(b) => b && expected is Ok,
                    Err(e) => expected == Err::<(), ErrorView>(e@),
                }
            }),
    {
        let one = Fr::one();
        proof {
            lemma_units::<Fr>();
        }
        if !one.less(i) {
            return Err(Error::NotEnoughSteps);
        }
        let n: usize = running_instance.vec_inst.len();
        let j = field_to_usize(&running_instance.pc_i);
        let folded = NIFSFoldPot::verify(&proof.r, &running_instance.vec_inst[j], incoming_instance, &proof.cm_t);
        let ghost next = DeciderFoldPotSuper::next(running_instance@, incoming_instance@, *proof);
        let mut inst: Vec<Fr> = Vec::new();
        let mut k: usize = 0;
        assert(next.take(0) =~= Seq::empty());
        while k < n
            invariant
                k <= n,
                n == running_instance.vec_inst@.len(),
                next == inst_views(running_instance.vec_inst@).update(j as int, folded@),
                j < running_instance.vec_inst@.len(),
                inst@ == instances_input(next.take(k as int)),
            decreases n - k,
        {
            let part = if k == j {
                instance_values(&folded)
            } else {
                instance_values(&running_instance.vec_inst[k])
            };
            assert(next[k as int] == (if k == j { folded@ } else { running_instance.vec_inst@[k as int]@ }));
            push_all(&mut inst, &part);
            assert(next.take(k + 1).drop_last() =~= next.take(k as int));
            k = k + 1;
        }
        assert(next.take(k as int) =~= next);
        inst.push(running_instance.x_1);
        inst.push(running_instance.pc_i);
        assert(inst@ =~= instances_input(next) + seq![running_instance.x_1, running_instance.pc_i]);
        let input = build_input(&vp.pp_hash, i, z_0, z_i, &inst, proof);
        match check_snark(&vp.snark_vk, &input, &proof.snark_proof) {
            Err(e) => { return Err(e); },
            Ok(_) => {},
        }
        match check_openings(&vp.cs_vk, &folded, proof) {
            Err(e) => Err(e),
            Ok(_) => Ok(true),
        }
    }
}

/// The sum of the numbers.
pub open spec fn total(v: Seq<usize>) -> nat
    decreases v.len(),
{
    if v.len() == 0 {
        0
    } else {
        total(v.drop_last()) + v.last() as nat
    }
}

/// A prefix has no larger sum than the whole.
proof fn lemma_total_prefix(v: Seq<usize>, n: nat)
    requires
        n <= v.len(),
    ensures
        total(v.take(n as int)) <= total(v),
    decreases v.len(),
{
    if n == v.len() {
        assert(v.take(n as int) =~= v);
    } else {
        lemma_total_prefix(v.drop_last(), n);
        assert(v.drop_last().take(n as int) =~= v.take(n as int));
    }
}

/// A scalar as a contract reads it: 32 bytes, most significant first.
pub open spec fn fr_word(a: Fr) -> Seq<u8> {
    le_digits(a.val(), 32).reverse()
}

/// A coordinate as a contract reads it: 32 bytes, most significant first.
pub open spec fn fq_word(a: Fq) -> Seq<u8> {
    le_digits(a.val(), 32).reverse()
}

/// Scalars as a contract reads them, behind each other.
pub open spec fn fr_words(v: Seq<Fr>) -> Seq<u8>
    decreases v.len(),
{
    if v.len() == 0 {
        Seq::empty()
    } else {
        fr_words(v.drop_last()) + fr_word(v.last())
    }
}

/// A point of the first group as a contract reads it: its coordinates, zeros for the
/// point at infinity.
pub open spec fn g1_words(p: G1) -> Seq<u8> {
    fq_word(p.xy().0) + fq_word(p.xy().1)
}

/// A point of the second group as a contract reads it: of each coordinate first the
/// coefficient of `u`, zeros for the point at infinity.
pub open spec fn g2_words(p: G2) -> Seq<u8> {
    match p {
        G2::Infinity => fq_word(f_zero::<Fq>()) + fq_word(f_zero::<Fq>()) + fq_word(f_zero::<Fq>()) + fq_word(
            f_zero::<Fq>(),
        ),
        G2::Point(x, y) => fq_word(x.c1) + fq_word(x.c0) + fq_word(y.c1) + fq_word(y.c0),
    }
}

fn fr_to_word(a: &Fr) -> (r: Vec<u8>)
    ensures
        r@ == fr_word(*a),
{
    let r = ark_to_bytes_be(a.limbs());
    proof {
        lemma_le_digits(r@.reverse());
        assert(r@.reverse().reverse() =~= r@);
    }
    r
}

fn fq_to_word(a: &Fq) -> (r: Vec<u8>)
    ensures
        r@ == fq_word(*a),
{
    let r = ark_to_bytes_be(a.limbs());
    proof {
        lemma_le_digits(r@.reverse());
        assert(r@.reverse().reverse() =~= r@);
    }
    r
}

fn frs_to_words(v: &Vec<Fr>) -> (r: Vec<u8>)
    ensures
        r@ == fr_words(v@),
{
    let mut r: Vec<u8> = Vec::new();
    let mut i: usize = 0;
    assert(v@.take(0) =~= Seq::empty());
    while i < v.len()
        invariant
            i <= v@.len(),
            r@ == fr_words(v@.take(i as int)),
        decreases v.len() - i,
    {
        push_all(&mut r, &fr_to_word(&v[i]));
        assert(v@.take(i + 1).drop_last() =~= v@.take(i as int));
        i = i + 1;
    }
    assert(v@.take(i as int) =~= v@);
    r
}

/// A point of the first group as a contract reads it.
pub fn point_to_eth_format(p: &G1) -> (r: Vec<u8>)
    ensures
        r@ == g1_words(*p),
{
    let (x, y) = p.coordinates();
    let mut r = fq_to_word(&x);
    push_all(&mut r, &fq_to_word(&y));
    r
}

/// A point of the second group as a contract reads it.
pub fn point2_to_eth_format(p: &G2) -> (r: Vec<u8>)
    ensures
        r@ == g2_words(*p),
{
    let zero = Fq::zero();
    let zero2 = Fq2 { c0: zero, c1: zero };
    let (x, y) = match p {
        G2::Infinity => (zero2, zero2),
        G2::Point(x, y) => (*x, *y),
    };
    let mut r = fq_to_word(&x.c1);
    push_all(&mut r, &fq_to_word(&x.c0));
    push_all(&mut r, &fq_to_word(&y.c1));
    push_all(&mut r, &fq_to_word(&y.c0));
    r
}

/// The part of the calldata that the instances give: the running instance's
/// commitments, `u` of both, the challenge, and the incoming one's commitments.
pub open spec fn instances_calldata(running: InstanceView, incoming: InstanceView, r: Fr) -> Seq<u8> {
    g1_words(running.cm_w) + g1_words(running.cm_e) + g1_words(running.cm_f) + fr_word(running.u) + fr_word(
        incoming.u,
    ) + fr_word(r) + fr_words(running.x) + g1_words(incoming.cm_w) + g1_words(incoming.cm_f) + fr_words(incoming.x)
}

/// The part of the calldata that the openings give: where, the values, the proofs.
pub open spec fn openings_calldata(c: Seq<Fr>, p: Seq<KZGProof>) -> Seq<u8> {
    fr_word(c[0]) + fr_word(c[1]) + fr_word(c[2]) + fr_word(p[0].eval) + fr_word(p[1].eval) + fr_word(p[2].eval)
        + g1_words(p[0].proof) + g1_words(p[1].proof) + g1_words(p[2].proof)
}

/// The calldata for a contract that verifies the proof, where `points` are those of
/// the circuit's proof.
pub open spec fn calldata(
    signature: Seq<u8>,
    i: Fr,
    z_0: Seq<Fr>,
    z_i: Seq<Fr>,
    running: InstanceView,
    incoming: InstanceView,
    proof: Proof,
    points: (G1, G2, G1),
) -> Seq<u8> {
    signature + fr_word(i) + fr_words(z_0) + fr_words(z_i) + instances_calldata(running, incoming, proof.r) + g1_words(
        proof.cm_t,
    ) + g1_words(points.0) + g2_words(points.1) + g1_words(points.2) + openings_calldata(
        proof.kzg_challenges@,
        proof.kzg_proofs@,
    )
}

fn instances_data(running: &CommittedInstanceFoldPot, incoming: &CommittedInstanceFoldPot, r: &Fr) -> (v: Vec<u8>)
    ensures
        v@ == instances_calldata(running@, incoming@, *r),
{
    let mut v = point_to_eth_format(&running.cm_w);
    push_all(&mut v, &point_to_eth_format(&running.cm_e));
    push_all(&mut v, &point_to_eth_format(&running.cm_f));
    push_all(&mut v, &fr_to_word(&running.u));
    push_all(&mut v, &fr_to_word(&incoming.u));
    push_all(&mut v, &fr_to_word(r));
    push_all(&mut v, &frs_to_words(&running.x));
    push_all(&mut v, &point_to_eth_format(&incoming.cm_w));
    push_all(&mut v, &point_to_eth_format(&incoming.cm_f));
    push_all(&mut v, &frs_to_words(&incoming.x));
    v
}

fn openings_data(proof: &Proof) -> (v: Vec<u8>)
    ensures
        v@ == openings_calldata(proof.kzg_challenges@, proof.kzg_proofs@),
{
    let mut v = fr_to_word(&proof.kzg_challenges[0]);
    push_all(&mut v, &fr_to_word(&proof.kzg_challenges[1]));
    push_all(&mut v, &fr_to_word(&proof.kzg_challenges[2]));
    push_all(&mut v, &fr_to_word(&proof.kzg_proofs[0].eval));
    push_all(&mut v, &fr_to_word(&proof.kzg_proofs[1].eval));
    push_all(&mut v, &fr_to_word(&proof.kzg_proofs[2].eval));
    push_all(&mut v, &point_to_eth_format(&proof.kzg_proofs[0].proof));
    push_all(&mut v, &point_to_eth_format(&proof.kzg_proofs[1].proof));
    push_all(&mut v, &point_to_eth_format(&proof.kzg_proofs[2].proof));
    v
}

/// The calldata for a contract that verifies the proof, where `points` are those of
/// the circuit's proof.
pub fn lay_out_calldata(
    function_signature_check: [u8; 4],
    i: &Fr,
    z_0: &Vec<Fr>,
    z_i: &Vec<Fr>,
    running_instance: &CommittedInstanceFoldPot,
    incoming_instance: &CommittedInstanceFoldPot,
    proof: &Proof,
    points: &(G1, G2, G1),
) -> (v: Vec<u8>)
    ensures
        v@ == calldata(
            function_signature_check@,
            *i,
            z_0@,
            z_i@,
            running_instance@,
            incoming_instance@,
            *proof,
            *points,
        ),
{
    let mut v: Vec<u8> = Vec::new();
    v.push(function_signature_check[0]);
    v.push(function_signature_check[1]);
    v.push(function_signature_check[2]);
    v.push(function_signature_check[3]);
    assert(v@ =~= function_signature_check@);
    push_all(&mut v, &fr_to_word(i));
    push_all(&mut v, &frs_to_words(z_0));
    push_all(&mut v, &frs_to_words(z_i));
    push_all(&mut v, &instances_data(running_instance, incoming_instance, &proof.r));
    push_all(&mut v, &point_to_eth_format(&proof.cm_t));
    push_all(&mut v, &point_to_eth_format(&points.0));
    push_all(&mut v, &point2_to_eth_format(&points.1));
    push_all(&mut v, &point_to_eth_format(&points.2));
    push_all(&mut v, &openings_data(proof));
    v
}

/// The calldata for a contract that verifies the proof, none where the circuit's
/// proof cannot be read.
pub fn prepare_calldata(
    function_signature_check: [u8; 4],
    i: &Fr,
    z_0: &Vec<Fr>,
    z_i: &Vec<Fr>,
    running_instance: &CommittedInstanceFoldPot,
    incoming_instance: &CommittedInstanceFoldPot,
    proof: &Proof,
) -> (r: Option<Vec<u8>>)
    ensures
        crate::curve::opt_view(r) == (match groth16_points(proof.snark_proof@) {
            Some(points) => Some(
                calldata(
                    function_signature_check@,
                    *i,
                    z_0@,
                    z_i@,
                    running_instance@,
                    incoming_instance@,
                    *proof,
                    points,
                ),
            ),
            None => None,
        }),
{
    match groth16_read(&proof.snark_proof) {
        Some(points) => Some(
            lay_out_calldata(
                function_signature_check,
                i,
                z_0,
                z_i,
                running_instance,
                incoming_instance,
                proof,
                &points,
            ),
        ),
        None => None,
    }
}

proof fn lemma_words_len(v: Seq<Fr>)
    ensures
        fr_words(v).len() == 32 * v.len(),
    decreases v.len(),
{
    if v.len() > 0 {
        lemma_words_len(v.drop_last());
        crate::bigint::lemma_le_digits_len(v.last().val(), 32);
    }
}

/// The calldata has 4 bytes, and 32 for each of 36 words and each entry of the states
/// and of the instances' public values: each part stands where a contract expects it.
pub proof fn law_calldata_len(
    signature: Seq<u8>,
    i: Fr,
    z_0: Seq<Fr>,
    z_i: Seq<Fr>,
    running: InstanceView,
    incoming: InstanceView,
    proof: Proof,
    points: (G1, G2, G1),
)
    requires
        signature.len() == 4,
    ensures
        calldata(signature, i, z_0, z_i, running, incoming, proof, points).len() == 4 + 32 * (36 + z_0.len()
            + z_i.len() + running.x.len() + incoming.x.len()),
{
    lemma_words_len(z_0);
    lemma_words_len(z_i);
    lemma_words_len(running.x);
    lemma_words_len(incoming.x);
    assert forall|n: nat| (#[trigger] le_digits(n, 32)).len() == 32 by {
        crate::bigint::lemma_le_digits_len(n, 32);
    }
}

} // verus!
