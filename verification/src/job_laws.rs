//! What the end of a computation and the proof of a job are made of, part by part.
use vstd::prelude::*;
use crate::batch_proc::BatchClaim;
use crate::batch_proc::BatchProcessor;
use crate::batch_proc::BatchProcessorVerifierParams;
use crate::batch_proc::BatchProof;
use crate::batch_proc::IndividualClaim;
use crate::batch_proc::IndividualProof;
use crate::batch_proc::PartTwoKeys;
use crate::batch_proc::QaNizkProver;
use crate::circuit_laws::lemma_three;
use crate::commitment::CommitmentScheme;
use crate::commitment::KZGProof;
use crate::commitment::OpeningProver;
use crate::commitment::OpeningVerifier;
use crate::curve::g1_sub;
use crate::curve::G1;
use crate::curve::G2;
use crate::curve::Grumpkin;
use crate::decider_circuit::kzg_challenges;
use crate::decider_circuits::kzg_challenge;
use crate::decider_laws::list_at;
use crate::error::ErrorView;
use crate::field::lemma_units;
use crate::field::lemma_val_injective;
use crate::field::FieldModel;
use crate::field_fq::Fq;
use crate::field_fr::fr_modulus;
use crate::field_fr::Fr;
use crate::fold_laws::is_instance_fold;
use crate::fold_laws::is_witness_fold;
use crate::fold_laws::law_instance_fold;
use crate::fold_laws::law_witness_fold;
use crate::foldpot_super::FoldPotSuper;
use crate::instance::InstanceView;
use crate::instance::WitnessFoldPotView;
use crate::instance_super::all_values;
use crate::instance_super::cyclepair_row;
use crate::instance_super::joined_e;
use crate::instance_super::joined_w;
use crate::instance_super::pairing_product;
use crate::instance_super::InstanceSuperView;
use crate::instance_super::QaNizkVerifierParams;
use crate::job_phases::circuit_input;
use crate::job_phases::job_ok;
use crate::job_phases::kzg_sum;
use crate::job_phases::pairing_words;
use crate::job_phases::second_part;
use crate::job_phases::CircuitProofs;
use crate::jobs::all_witnesses;
use crate::jobs::folded_u;
use crate::jobs::run_end;
use crate::jobs::AllWitnesses;
use crate::limbs::g1_absorbed;
use crate::pair_laws::law_paired_points;
use crate::part_two::PartTwoView;
use crate::sponge::poseidon_output;
use crate::sponge::PoseidonConfigView;
use crate::sponge::SpongeOpView;
use crate::sponge::SpongeView;
use crate::transcript_laws::told;

verus! {

/// The three places where the decider's commitments are opened: each is drawn from the
/// transcript after it was told, of every instance, first the commitments to the witnesses,
/// behind the first draw those to the errors, and behind the second those to the fixed
/// memories.
pub proof fn law_opening_places(s: SpongeView, insts: Seq<InstanceView>)
    ensures
        ({
            let n = insts.len();
            let w = told(s.log, Seq::new(n, |i: int| g1_absorbed(insts[i].cm_w)));
            let e = told(w.push(SpongeOpView::Squeeze(1)), Seq::new(n, |i: int| g1_absorbed(insts[i].cm_e)));
            let f = told(e.push(SpongeOpView::Squeeze(1)), Seq::new(n, |i: int| g1_absorbed(insts[i].cm_f)));
            let c = kzg_challenges(s, insts);
            &&& c.0 == poseidon_output(s.config, w, 1)[0]
            &&& c.1 == poseidon_output(s.config, e, 1)[0]
            &&& c.2 == poseidon_output(s.config, f, 1)[0]
        }),
{
    let n = insts.len();
    let (cw, ce, cf) = (
        crate::decider_circuits::cms_w(insts),
        crate::decider_circuits::cms_e(insts),
        crate::decider_circuits::cms_f(insts),
    );
    let s_w = crate::decider_circuit::after_points(s, cw);
    lemma_points(s, cw, n);
    let e0 = s_w.squeezed(1);
    let s_e = crate::decider_circuit::after_points(e0, ce);
    lemma_points(e0, ce, n);
    let f0 = s_e.squeezed(1);
    lemma_points(f0, cf, n);
    assert(Seq::new(n, |i: int| g1_absorbed(cw[i])) =~= Seq::new(n, |i: int| g1_absorbed(insts[i].cm_w)));
    assert(Seq::new(n, |i: int| g1_absorbed(ce[i])) =~= Seq::new(n, |i: int| g1_absorbed(insts[i].cm_e)));
    assert(Seq::new(n, |i: int| g1_absorbed(cf[i])) =~= Seq::new(n, |i: int| g1_absorbed(insts[i].cm_f)));
}

proof fn lemma_points(s: SpongeView, pts: Seq<G1>, n: nat)
    requires
        n <= pts.len(),
    ensures
        crate::decider_circuits::points_absorbed(s, pts, n).config == s.config,
        crate::decider_circuits::points_absorbed(s, pts, n).log == told(
            s.log,
            Seq::new(n, |i: int| g1_absorbed(pts[i])),
        ),
    decreases n,
{
    let parts = Seq::new(n, |i: int| g1_absorbed(pts[i]));
    if n == 0 {
        assert(told(s.log, parts) =~= s.log);
    } else {
        lemma_points(s, pts, (n - 1) as nat);
        let before = Seq::new((n - 1) as nat, |i: int| g1_absorbed(pts[i]));
        assert(told(s.log, parts) =~= told(s.log, before).push(SpongeOpView::Absorb(g1_absorbed(pts[n - 1]))));
    }
}

/// What is made of all witnesses: with `v`, which has the witnesses `w`, then the errors
/// `e`, then the blinding value, the commitment to `v`, its opening at the place that is
/// drawn for it and the instances, and the proof that it is for the same vectors as theirs.
pub proof fn law_all_witnesses<K: CommitmentScheme<Fr, G1> + OpeningProver<KZGProof>, Q: QaNizkProver>(
    pkey: Q,
    comkey: K,
    wits: Seq<WitnessFoldPotView>,
    u: InstanceSuperView,
    config: PoseidonConfigView,
    r_all_w: Fr,
    v: Seq<Fr>,
    a: AllWitnesses,
    zero: Fr,
)
    requires
        zero.val() == 0,
        v.len() == joined_w(wits).len() + joined_e(wits).len() + 1,
        list_at(v, 0, joined_w(wits)),
        list_at(v, joined_w(wits).len() as int, joined_e(wits)),
        v.last() == r_all_w,
    ensures
        all_witnesses(pkey, comkey, wits, u, config, r_all_w) == Ok::<AllWitnesses, ErrorView>(a) <==> {
            &&& comkey.commit_spec(v, zero) == Some(a.com_all_w)
            &&& a.kzg_all_com_ch == kzg_challenge(config, u.insts, a.com_all_w)
            &&& comkey.prove_spec(a.kzg_all_com_ch, v) == Ok::<KZGProof, ErrorView>(a.prf_kzg)
            &&& a.prf_qa_nizk == pkey.prove_spec(v.drop_last(), r_all_w)
            &&& a.r_all_w == r_all_w
        },
{
    lemma_units::<Fr>();
    lemma_val_injective(zero, crate::field::f_zero::<Fr>());
    let (w, e) = (joined_w(wits), joined_e(wits));
    let all = all_values(wits, r_all_w);
    assert forall|k: int| 0 <= k < v.len() implies v[k] == all[k] by {
        if k < w.len() {
            assert(v[0 + k] == w[k]);
        } else if k < w.len() + e.len() {
            assert(v[w.len() + (k - w.len())] == e[k - w.len()]);
        }
    }
    assert(v =~= all);
    assert(v.drop_last() =~= w + e);
}

/// The end of a run: the incoming witness and instance are folded into the running ones of
/// the last step's circuit, with the run's challenge, and the others stay, as do the digests
/// and the circuit that the running instances note; what is made of all witnesses belongs
/// to those.
pub proof fn law_run_end<
    CS1: CommitmentScheme<Fr, G1>,
    CS2: CommitmentScheme<Fq, Grumpkin>,
    K: CommitmentScheme<Fr, G1> + OpeningProver<KZGProof>,
    Q: QaNizkProver,
>(nova: FoldPotSuper<CS1, CS2>, comkey: K, pkey: Q, r_all_w: Fr)
    requires
        nova.wf(),
        run_end(nova, comkey, pkey, r_all_w) is Ok,
    ensures
        ({
            let (u, a) = run_end(nova, comkey, pkey, r_all_w)->Ok_0;
            let w = nova.next_w(nova.state@);
            let st = nova.state@;
            let j = st.pc_i.val() as int;
            &&& nova.cm_t(st) is Some
            &&& u.x_1 == st.run_u.x_1
            &&& u.x_2 == st.run_u.x_2
            &&& u.pc_i == st.run_u.pc_i
            &&& u.insts.len() == st.run_u.insts.len()
            &&& w.len() == st.run_w.len()
            &&& is_instance_fold(u.insts[j], st.run_u.insts[j], nova.r(st), st.u_i, nova.cm_t(st)->0)
            &&& is_witness_fold(w[j], st.run_w[j], nova.r(st), st.w_i, nova.cross(st))
            &&& forall|k: int| 0 <= k < u.insts.len() && k != j ==> #[trigger] u.insts[k] == st.run_u.insts[k]
            &&& forall|k: int| 0 <= k < w.len() && k != j ==> #[trigger] w[k] == st.run_w[k]
            &&& all_witnesses(pkey, comkey, w, u, nova.poseidon_config@, r_all_w) == Ok::<AllWitnesses, ErrorView>(a)
        }),
{
    let st = nova.state@;
    let j = st.pc_i.val() as int;
    let (r, cm_t, t) = (nova.r(st), nova.cm_t(st)->0, nova.cross(st));
    let u = folded_u(nova);
    let w = nova.next_w(st);
    assert(nova.circuits@[j].wf(nova.x_len()));
    assert(st.run_w[j].e.len() == nova.circuits@[j].r1cs.a.n_rows);
    assert(t.len() == nova.circuits@[j].r1cs.a.n_rows);
    law_instance_fold(u.insts[j], st.run_u.insts[j], r, st.u_i, cm_t);
    law_witness_fold(w[j], st.run_w[j], r, st.w_i, t);
}

/// The words for the second computation: one for each pairing at the end of the first, in
/// the order of the points: the commitment to all witnesses, of each instance those to the
/// witness, the error and the fixed memory, and the negative of the proof of equality; each
/// with the key's point of the same number, the proof with the key's last one. There are
/// none where a pairing has no value.
pub proof fn law_pairing_words(
    config: PoseidonConfigView,
    vkey: QaNizkVerifierParams,
    end: (InstanceSuperView, AllWitnesses),
    a: Seq<G1>,
    b: Seq<G2>,
)
    requires
        a.len() == 3 * end.0.insts.len() + 2,
        a[0] == end.1.com_all_w,
        forall|k: int|
            0 <= k < end.0.insts.len() ==> {
                &&& a[3 * k + 1] == (#[trigger] end.0.insts[k]).cm_w
                &&& a[3 * k + 2] == end.0.insts[k].cm_e
                &&& a[3 * k + 3] == end.0.insts[k].cm_f
            },
        a.last() == g1_sub(G1::Infinity, end.1.prf_qa_nizk),
        b.len() == vkey.c@.len() + 1,
        forall|k: int| 0 <= k < vkey.c@.len() ==> #[trigger] b[k] == vkey.c@[k],
        b.last() == vkey.a,
    ensures
        pairing_words(config, vkey, end) is Some <==> pairing_product(a, b, a.len()) is Some,
        pairing_words(config, vkey, end) matches Some(w) ==> {
            &&& w.len() == a.len()
            &&& forall|i: int| 0 <= i < w.len() ==> #[trigger] w[i] == cyclepair_row(config, a, b, i)
        },
{
    let insts = end.0.insts;
    law_paired_points(end.1.com_all_w, insts, end.1.prf_qa_nizk);
    let p = crate::instance_super::paired_points(end.1.com_all_w, insts, end.1.prf_qa_nizk);
    assert forall|i: int| 0 <= i < a.len() implies a[i] == p[i] by {
        if 0 < i < a.len() - 1 {
            let k = (i - 1) / 3;
            assert(0 <= k < insts.len());
            assert(insts[k] == insts[k]);
            assert(i == 3 * k + 1 || i == 3 * k + 2 || i == 3 * k + 3);
        }
    }
    assert(a =~= p);
    assert(b =~= vkey.c@.push(vkey.a));
}

/// The sum of the three sums of values in the second part of a state.
pub proof fn law_kzg_sum(p: PartTwoView)
    ensures
        kzg_sum(p).val() == (p.sum_kzg_eval_lk.val() + p.sum_kzg_eval_word.val() + p.sum_kzg_eval_others.val())
            % fr_modulus(),
{
    lemma_three(p.sum_kzg_eval_lk, p.sum_kzg_eval_word, p.sum_kzg_eval_others);
}

/// A job's proof is accepted where both parts of the batch proof and the individual proof
/// are, and there is a second part.
pub proof fn law_job_accepted<K: OpeningVerifier<KZGProof>, P, V: OpeningVerifier<P>>(
    vkey: BatchProcessorVerifierParams<K, V>,
    keys: PartTwoKeys<K>,
    config: PoseidonConfigView,
    claims: (BatchClaim, IndividualClaim),
    prf: BatchProof,
    ind: IndividualProof<P>,
    sum: Option<Fr>,
)
    ensures
        job_ok(vkey, keys, config, claims, prf, ind, sum) <==> {
            &&& BatchProcessor::part_one_ok(vkey, claims.0, prf, config)
            &&& BatchProcessor::individual_ok(vkey, claims.1, prf, ind)
            &&& prf.part2 matches Some(p) && BatchProcessor::part_two_ok(keys, prf, p, sum)
        },
{
}

/// The second part of a batch proof, made of the ends of the two computations and the
/// circuits' proofs, is checked with the inputs that its circuit was proved for, where the
/// first part holds the challenge and the coefficient of the last state, its digest of the
/// key is the circuit's, and the sum of the values is the state's.
pub proof fn law_second_part_fits<K>(
    part2: PartTwoView,
    one: AllWitnesses,
    two: (InstanceSuperView, AllWitnesses),
    circuits: CircuitProofs,
    keys: PartTwoKeys<K>,
    prf: BatchProof,
)
    requires
        prf.ch == part2.ch,
        prf.rc == part2.rc,
    ensures
        ({
            let p = second_part(one, two, circuits);
            let given = circuit_input(part2, one, two, keys.nova1_qa_nizk_vkey_hash, circuits.mainres_hash);
            &&& BatchProcessor::cp_input(prf, p, keys, Some(kzg_sum(part2))) == given
            &&& p.kzg_all_com1 == one.com_all_w
            &&& p.kzg_all_com_ch1 == one.kzg_all_com_ch
            &&& p.kzg_all_com_prf1 == one.prf_kzg
            &&& p.kzg_all_com2 == two.1.com_all_w
            &&& p.kzg_all_com_ch2 == two.1.kzg_all_com_ch
            &&& p.kzg_all_com_prf2 == two.1.prf_kzg
            &&& p.comE2 == two.0.insts[0].cm_e
            &&& p.comW2 == two.0.insts[0].cm_w
            &&& p.comF2 == two.0.insts[0].cm_f
            &&& p.qa_nizk_prf2 == two.1.prf_qa_nizk
            &&& p.snark_proof_main == circuits.snark_proof_main
            &&& p.snark_proof_cp == circuits.snark_proof_cp
            &&& p.mainres_hash == circuits.mainres_hash
        }),
{
}

} // verus!
