//! The decider circuit of one computation, whose witnesses, errors and fixed memories
//! are opened at a point each.
use vstd::prelude::*;
use crate::commitment::CommitmentScheme;
use crate::commitment::PedersenGrumpkin;
use crate::curve::G1;
use crate::decider_circuits::cms_e;
use crate::decider_circuits::cms_f;
use crate::decider_circuits::cms_w;
use crate::decider_circuits::lemma_accepted_end;
use crate::decider_circuits::points_absorbed;
use crate::decider_circuits::KZGChallengesGadgetSuper;
use crate::decider_circuits::Phase1Circuit;
use crate::error::Error;
use crate::error::ErrorView;
use crate::field::f_one;
use crate::field::f_zero;
use crate::field::Field;
use crate::field::FieldModel;
use crate::field_fq::Fq;
use crate::field_fr::Fr;
use crate::foldpot_super::ChallengeGadgetFoldPotSuper;
use crate::foldpot_super::FoldPotSuper;
use crate::foldpot_super::VerifierParamsFoldPotSuper;
use crate::instance::InstanceView;
use crate::instance::WitnessFoldPot;
use crate::instance::WitnessFoldPotView;
use crate::instance_super::inst_views;
use crate::instance_super::joined_e;
use crate::instance_super::joined_w;
use crate::instance_super::wit_views;
use crate::instance_super::CommittedInstanceFoldPotSuper;
use crate::circuits::challenge_to_fr;
use crate::limbs::absorb_g1;
use crate::nifs::step_transcript_after;
use crate::part_two::ZiPartTwoInst;
use crate::poly::evaluate_gadget;
use crate::poly::law_padding_keeps_value;
use crate::poly::next_power;
use crate::poly::padded;
use crate::poly::poly_eval;
use crate::sponge::Sponge;
use crate::sponge::SpongeView;
use crate::vecs::copy_range;
use crate::vecs::push_all;
use crate::vecs::reversed;

verus! {

/// The sponge after the commitments to witnesses, to errors or to fixed memories.
pub open spec fn after_points(s: SpongeView, pts: Seq<G1>) -> SpongeView {
    points_absorbed(s, pts, pts.len())
}

/// The points at which the polynomials of the witnesses, the errors and the fixed
/// memories are evaluated.
pub open spec fn kzg_challenges(s: SpongeView, insts: Seq<InstanceView>) -> (Fr, Fr, Fr) {
    let s_w = after_points(s, cms_w(insts));
    let s_e = after_points(s_w.squeezed(1), cms_e(insts));
    let s_f = after_points(s_e.squeezed(1), cms_f(insts));
    (s_w.output(1)[0], s_e.output(1)[0], s_f.output(1)[0])
}

/// The transcript after the three points were drawn.
pub open spec fn after_kzg_challenges(s: SpongeView, insts: Seq<InstanceView>) -> SpongeView {
    let s_w = after_points(s, cms_w(insts));
    let s_e = after_points(s_w.squeezed(1), cms_e(insts));
    after_points(s_e.squeezed(1), cms_f(insts)).squeezed(1)
}

/// Absorbs the points one by one and hands out one element.
fn challenge_after(t: &mut Sponge, pts: &Vec<G1>) -> (c: Fr)
    requires
        old(t).wf(),
    ensures
        c == after_points(old(t)@, pts@).output(1)[0],
        final(t)@ == after_points(old(t)@, pts@).squeezed(1),
        final(t).wf(),
{
    let ghost s = t@;
    let mut i: usize = 0;
    while i < pts.len()
        invariant
            i <= pts@.len(),
            t.wf(),
            t@ == points_absorbed(s, pts@, i as nat),
        decreases pts.len() - i,
    {
        t.absorb(&absorb_g1(&pts[i]));
        i = i + 1;
    }
    t.squeeze_one()
}

impl KZGChallengesGadgetSuper {
    /// The evaluation points: for the witnesses, then for the errors, then for the
    /// fixed memories, each after the commitments concerned.
    pub fn get_challenges_native(transcript: &mut Sponge, u: &CommittedInstanceFoldPotSuper) -> (r: (Fr, Fr, Fr))
        requires
            old(transcript).wf(),
        ensures
            r == kzg_challenges(old(transcript)@, u@.insts),
            final(transcript)@ == after_kzg_challenges(old(transcript)@, u@.insts),
            final(transcript).wf(),
    {
        let ghost insts = u@.insts;
        let mut ws: Vec<G1> = Vec::new();
        let mut es: Vec<G1> = Vec::new();
        let mut fs: Vec<G1> = Vec::new();
        let mut i: usize = 0;
        while i < u.vec_inst.len()
            invariant
                i <= u.vec_inst@.len(),
                insts == inst_views(u.vec_inst@),
                ws@ == cms_w(insts).take(i as int),
                es@ == cms_e(insts).take(i as int),
                fs@ == cms_f(insts).take(i as int),
            decreases u.vec_inst.len() - i,
        {
            ws.push(u.vec_inst[i].cm_w);
            es.push(u.vec_inst[i].cm_e);
            fs.push(u.vec_inst[i].cm_f);
            assert(ws@ =~= cms_w(insts).take(i + 1));
            assert(es@ =~= cms_e(insts).take(i + 1));
            assert(fs@ =~= cms_f(insts).take(i + 1));
            i = i + 1;
        }
        assert(ws@ =~= cms_w(insts));
        assert(es@ =~= cms_e(insts));
        assert(fs@ =~= cms_f(insts));
        let c_w = challenge_after(transcript, &ws);
        let c_e = challenge_after(transcript, &es);
        let c_f = challenge_after(transcript, &fs);
        (c_w, c_e, c_f)
    }

    /// The evaluation points as a circuit computes them.
    pub fn get_challenges_gadget(transcript: &mut Sponge, u: &CommittedInstanceFoldPotSuper) -> (r: (Fr, Fr, Fr))
        requires
            old(transcript).wf(),
        ensures
            r == kzg_challenges(old(transcript)@, u@.insts),
            final(transcript)@ == after_kzg_challenges(old(transcript)@, u@.insts),
            final(transcript).wf(),
    {
        KZGChallengesGadgetSuper::get_challenges_native(transcript, u)
    }
}

/// The fixed memories behind each other.
pub open spec fn joined_f(wits: Seq<WitnessFoldPotView>) -> Seq<Fr>
    decreases wits.len(),
{
    if wits.len() == 0 {
        Seq::empty()
    } else {
        joined_f(wits.drop_last()) + wits.last().fixed()
    }
}

/// The witnesses, the errors and the fixed memories, each kind behind each other.
pub(crate) fn join_parts(wits: &Vec<WitnessFoldPot>) -> (r: (Vec<Fr>, Vec<Fr>, Vec<Fr>))
    requires
        forall|k: int| 0 <= k < wits@.len() ==> (#[trigger] wits@[k])@.wf(),
    ensures
        r.0@ == joined_w(wit_views(wits@)),
        r.1@ == joined_e(wit_views(wits@)),
        r.2@ == joined_f(wit_views(wits@)),
{
    let ghost views = wit_views(wits@);
    let mut w: Vec<Fr> = Vec::new();
    let mut e: Vec<Fr> = Vec::new();
    let mut f: Vec<Fr> = Vec::new();
    let mut i: usize = 0;
    assert(views.take(0) =~= Seq::empty());
    while i < wits.len()
        invariant
            i <= wits@.len(),
            views == wit_views(wits@),
            forall|k: int| 0 <= k < wits@.len() ==> (#[trigger] wits@[k])@.wf(),
            w@ == joined_w(views.take(i as int)),
            e@ == joined_e(views.take(i as int)),
            f@ == joined_f(views.take(i as int)),
        decreases wits.len() - i,
    {
        let x = &wits[i];
        assert(wits@[i as int]@.wf());
        let n: usize = x.w.len();
        push_all(&mut w, &x.w);
        push_all(&mut e, &x.e);
        push_all(&mut f, &copy_range(&x.w, x.start_f, x.start_f + x.size_f));
        assert(views.take(i + 1).drop_last() =~= views.take(i as int));
        i = i + 1;
    }
    assert(views.take(i as int) =~= views);
    (w, e, f)
}

/// The value at `x` of the polynomial with the coefficients `v`, padded to a power of
/// two.
fn evaluate(v: &Vec<Fr>, x: &Fr) -> (r: Fr)
    ensures
        r == poly_eval(padded(v@), *x),
{
    let one = Fr::one();
    proof {
        law_padding_keeps_value(v@, (next_power(v@.len()) - v@.len()) as nat, *x);
    }
    evaluate_gadget(v, x, &one)
}

/// The decider circuit of one computation.
pub struct DeciderEthCircuitSuper<CS1: CommitmentScheme<Fr, G1>> {
    /// The end of the computation. The commitment to all witnesses in it has no part
    /// in this circuit.
    pub end: Phase1Circuit<CS1>,
    /// The challenge of the last fold.
    pub r: Fr,
    /// Where the polynomials of the witnesses, the errors and the fixed memories are
    /// evaluated, and their values.
    pub kzg_c_w: Fr,
    pub kzg_c_e: Fr,
    pub kzg_c_f: Fr,
    pub eval_w: Fr,
    pub eval_e: Fr,
    pub eval_f: Fr,
    /// Where the polynomials of the lookup columns are evaluated, and their values.
    pub kzg_c_lkup: Fr,
    pub eval_lkup_col1: Fr,
    pub eval_lkup_col2: Fr,
    /// The lookup columns, last entry first.
    pub lkup_col1_rev: Vec<Fr>,
    pub lkup_col2_rev: Vec<Fr>,
}

/// The evaluation points at the end of a computation: the transcript goes on after the
/// challenge of the last fold.
pub open spec fn end_challenges<CS1: CommitmentScheme<Fr, G1>>(c: Phase1Circuit<CS1>) -> (Fr, Fr, Fr) {
    kzg_challenges(
        step_transcript_after(c.sponge(), c.pp_hash, c.run_u@.absorbed(), c.u_i@.absorbed(), c.cm_t),
        c.next_u@.insts,
    )
}

impl<CS1: CommitmentScheme<Fr, G1>> DeciderEthCircuitSuper<CS1> {
    /// Whether the circuit has the end of the given computation, with the challenge of
    /// its last fold and the evaluation points.
    pub open spec fn made_from(&self, nova: FoldPotSuper<CS1, PedersenGrumpkin>) -> bool {
        &&& self.end.made_from(nova, G1::Infinity, f_zero::<Fr>())
        &&& self.r == nova.r(nova.state@)
        &&& (self.kzg_c_w, self.kzg_c_e, self.kzg_c_f) == end_challenges(self.end)
    }

    /// The circuit for the end of a computation, with the lookup table's columns and
    /// the second part of its first state.
    pub fn from_nova(
        nova: FoldPotSuper<CS1, PedersenGrumpkin>,
        z0_part2_inst: &ZiPartTwoInst,
        lk_col1: &Vec<Fr>,
        lk_col2: &Vec<Fr>,
    ) -> (r: Result<DeciderEthCircuitSuper<CS1>, Error>)
        requires
            nova.wf(),
            forall|k: int| 0 <= k < nova.state@.run_w.len() ==> (#[trigger] nova.state@.run_w[k]).wf(),
        ensures
            r is Ok <==> nova.cm_t(nova.state@) is Some,
            r matches Err(e) ==> e@ == ErrorView::CommitmentFail,
            r matches Ok(c) ==> {
                let wits = nova.next_w(nova.state@);
                &&& c.made_from(nova)
                &&& c.eval_w == poly_eval(padded(joined_w(wits)), c.kzg_c_w)
                &&& c.eval_e == poly_eval(padded(joined_e(wits)), c.kzg_c_e)
                &&& c.eval_f == poly_eval(padded(joined_f(wits)), c.kzg_c_f)
                &&& c.kzg_c_lkup == z0_part2_inst.ch
                &&& c.lkup_col1_rev@ == lk_col1@.reverse()
                &&& c.lkup_col2_rev@ == lk_col2@.reverse()
                &&& c.eval_lkup_col1 == poly_eval(lk_col1@.reverse(), c.kzg_c_lkup)
                &&& c.eval_lkup_col2 == poly_eval(lk_col2@.reverse(), c.kzg_c_lkup)
            },
    {
        let ghost st = nova.state@;
        let infinity = G1::Infinity;
        let zero = Fr::zero();
        let end = match Phase1Circuit::from_nova(nova, &infinity, &zero) {
            Err(e) => { return Err(e); },
            Ok(c) => c,
        };
        let mut transcript = Sponge::new(&end.poseidon_config);
        let bits = ChallengeGadgetFoldPotSuper::get_challenge_native(
            &mut transcript,
            &end.pp_hash,
            &end.run_u,
            &end.u_i,
            &end.cm_t,
        );
        let r = challenge_to_fr(&bits);
        let (kzg_c_w, kzg_c_e, kzg_c_f) = KZGChallengesGadgetSuper::get_challenges_native(
            &mut transcript,
            &end.next_u,
        );
        proof {
            let views = wit_views(end.next_w.vec_wit@);
            assert(views == nova.next_w(st));
            let j = st.pc_i.val() as int;
            assert(nova.circuits@[j].wf(nova.x_len()));
            assert(st.run_w[j].w.len() == nova.circuits@[j].w_len());
            assert forall|k: int| 0 <= k < end.next_w.vec_wit@.len() implies (#[trigger] end.next_w.vec_wit@[k])@.wf() by {
                assert(views[k] == end.next_w.vec_wit@[k]@);
                assert(st.run_w[k].wf());
            }
        }
        let (w, e, f) = join_parts(&end.next_w.vec_wit);
        let eval_w = evaluate(&w, &kzg_c_w);
        let eval_e = evaluate(&e, &kzg_c_e);
        let eval_f = evaluate(&f, &kzg_c_f);
        let kzg_c_lkup = z0_part2_inst.ch;
        let lkup_col1_rev = reversed(lk_col1);
        let lkup_col2_rev = reversed(lk_col2);
        let one = Fr::one();
        let eval_lkup_col1 = evaluate_gadget(&lkup_col1_rev, &kzg_c_lkup, &one);
        let eval_lkup_col2 = evaluate_gadget(&lkup_col2_rev, &kzg_c_lkup, &one);
        Ok(
            DeciderEthCircuitSuper {
                end,
                r,
                kzg_c_w,
                kzg_c_e,
                kzg_c_f,
                eval_w,
                eval_e,
                eval_f,
                kzg_c_lkup,
                eval_lkup_col1,
                eval_lkup_col2,
                lkup_col1_rev,
                lkup_col2_rev,
            },
        )
    }

    /// Whether the circuit's constraints hold. The values of the polynomials are
    /// public inputs that the circuit leaves unchecked.
    pub open spec fn satisfied(&self) -> bool {
        let c = self.end;
        &&& c.witnesses_ok()
        &&& c.u_i.cm_e.xy() == (f_zero::<Fq>(), f_zero::<Fq>())
        &&& c.u_i.u == f_one::<Fr>()
        &&& c.u_i.x@[0] == c.run_u@.hash(c.sponge(), c.pp_hash, c.i, c.pc_i, c.z_0@, c.z_i@)
        &&& c.cyclefold_ok()
        &&& (self.kzg_c_w, self.kzg_c_e, self.kzg_c_f) == end_challenges(c)
        &&& self.r == Fr::of(crate::bigint::bits_value(c.r_bits()))
        &&& c.zi_part2_inst@.hash(c.poseidon_config@) == c.z_i@[1]
        &&& c.zi_part2_inst.ch == self.kzg_c_lkup
    }

    /// Checks the circuit's constraints.
    pub fn generate_constraints(&self) -> (r: Result<(), Error>)
        requires
            self.end.wf(),
        ensures
            r is Ok <==> self.satisfied(),
            r matches Err(e) ==> e@ == ErrorView::NotSatisfied,
    {
        let c = &self.end;
        if !c.check_witnesses() {
            return Err(Error::NotSatisfied);
        }
        let sponge = Sponge::new(&c.poseidon_config);
        let zero = Fq::zero();
        let one = Fr::one();
        let (ex, ey) = c.u_i.cm_e.coordinates();
        if !ex.same(&zero) || !ey.same(&zero) || !c.u_i.u.same(&one) {
            return Err(Error::NotSatisfied);
        }
        let x = c.run_u.hash(&sponge, &c.pp_hash, &c.i, &c.pc_i, &c.z_0, &c.z_i);
        if !c.u_i.x[0].same(&x) || !c.check_cyclefold() {
            return Err(Error::NotSatisfied);
        }
        let mut transcript = Sponge::new(&c.poseidon_config);
        let bits = ChallengeGadgetFoldPotSuper::get_challenge_native(
            &mut transcript,
            &c.pp_hash,
            &c.run_u,
            &c.u_i,
            &c.cm_t,
        );
        let (c_w, c_e, c_f) = KZGChallengesGadgetSuper::get_challenges_gadget(&mut transcript, &c.next_u);
        if !c_w.same(&self.kzg_c_w) || !c_e.same(&self.kzg_c_e) || !c_f.same(&self.kzg_c_f) {
            return Err(Error::NotSatisfied);
        }
        let r = challenge_to_fr(&bits);
        let h = c.zi_part2_inst.hash(&c.poseidon_config);
        if r.same(&self.r) && h.same(&c.z_i[1]) && c.zi_part2_inst.ch.same(&self.kzg_c_lkup) {
            Ok(())
        } else {
            Err(Error::NotSatisfied)
        }
    }
}

/// The circuit is made for what the verifier accepts: where the verifier accepts the
/// end of a computation, its second part is the one that the state tells, with the
/// challenge of the first state, and the CycleFold commitments open, the constraints
/// of the circuit that is made for this end hold.
pub proof fn law_accepted_end_satisfies_decider<CS1: CommitmentScheme<Fr, G1>>(
    nova: FoldPotSuper<CS1, PedersenGrumpkin>,
    vp: VerifierParamsFoldPotSuper,
    d: DeciderEthCircuitSuper<CS1>,
)
    requires
        nova.wf(),
        nova.known_to(vp),
        d.made_from(nova),
        d.kzg_c_lkup == d.end.zi_part2_inst.ch,
        d.end.i != f_zero::<Fr>(),
        d.end.run_u@.pc_i == d.end.pc_i,
        vp.verify_spec(nova.z_0@, nova.state@.z_i, nova.state@.i, nova.shown(nova.state@)) is Ok,
        d.end.zi_part2_inst@.hash(d.end.poseidon_config@) == d.end.z_i@[1],
        d.end.cf.cs.blinded(d.end.cf_w@.e, d.end.cf_w@.r_e) == Some(d.end.cf_u.cm_e),
        d.end.cf.cs.blinded(d.end.cf_w@.w, d.end.cf_w@.r_w) == Some(d.end.cf_u.cm_w),
    ensures
        d.satisfied(),
{
    lemma_accepted_end(nova, vp, d.end);
}

} // verus!
