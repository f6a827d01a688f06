//! Instances and witnesses of a computation with several step circuits: one of each
//! for every circuit.
use vstd::prelude::*;
use crate::commitment::CommitmentScheme;
use crate::curve::ark_gt_mul;
use crate::curve::ark_pairing;
use crate::curve::g1_sub;
use crate::curve::gt_mul;
use crate::curve::pairing;
use crate::curve::G1;
use crate::curve::G2;
use crate::curve::GT_LEN;
use crate::cyclepair::g1_elements;
use crate::cyclepair::g1_to_field_elements;
use crate::cyclepair::g2_elements;
use crate::cyclepair::g2_to_field_elements;
use crate::field::f_one;
use crate::field::f_zero;
use crate::field::Field;
use crate::field_fq::Fq;
use crate::field_fr::Fr;
use crate::instance::dummy_instance_foldpot;
use crate::instance::dummy_possible;
use crate::instance::CommittedInstanceFoldPot;
use crate::instance::InstanceView;
use crate::instance::WitnessFoldPot;
use crate::instance::WitnessFoldPotView;
use crate::limbs::absorb_fr;
use crate::limbs::f1_to_f2_limbs;
use crate::limbs::fq_limbs;
use crate::limbs::fr_absorbed;
use crate::limbs::N_LIMBS;
use crate::part_two::chain;
use crate::part_two::chained;
use crate::r1cs::R1CS;
use crate::sponge::PoseidonConfig;
use crate::sponge::PoseidonConfigView;
use crate::sponge::Sponge;
use crate::sponge::SpongeView;
use crate::vecs::copy_of;
use crate::vecs::filled;
use crate::vecs::push_all;
use crate::vecs::repeated;
use crate::vecs::rows;

verus! {

/// The instances as mathematical data.
pub open spec fn inst_views(v: Seq<CommittedInstanceFoldPot>) -> Seq<InstanceView> {
    v.map_values(|u: CommittedInstanceFoldPot| u@)
}

/// The witnesses as mathematical data.
pub open spec fn wit_views(v: Seq<WitnessFoldPot>) -> Seq<WitnessFoldPotView> {
    v.map_values(|w: WitnessFoldPot| w@)
}

/// The public part of the relaxed witnesses of all circuits.
#[derive(Debug)]
pub struct CommittedInstanceFoldPotSuper {
    pub vec_inst: Vec<CommittedInstanceFoldPot>,
    /// The fold of the digests of the CycleFold instance. There is one for all
    /// circuits.
    pub x_1: Fr,
    /// The fold of the digests of the CyclePair instance, where pairings are folded
    /// too.
    pub x_2: Option<Fr>,
    /// The circuit whose instance is folded next.
    pub pc_i: Fr,
}

#[verifier::ext_equal]
pub struct InstanceSuperView {
    pub insts: Seq<InstanceView>,
    pub x_1: Fr,
    pub x_2: Option<Fr>,
    pub pc_i: Fr,
}

impl View for CommittedInstanceFoldPotSuper {
    type V = InstanceSuperView;

    open spec fn view(&self) -> InstanceSuperView {
        InstanceSuperView {
            insts: inst_views(self.vec_inst@),
            x_1: self.x_1,
            x_2: self.x_2,
            pc_i: self.pc_i,
        }
    }
}

/// What a sponge absorbs of the instances behind each other.
pub open spec fn insts_absorbed(v: Seq<InstanceView>) -> Seq<Fr>
    decreases v.len(),
{
    if v.len() == 0 {
        Seq::empty()
    } else {
        insts_absorbed(v.drop_last()) + v.last().absorbed()
    }
}

/// What a sponge over the base field absorbs of the instances behind each other.
pub open spec fn insts_absorbed_by_base(v: Seq<InstanceView>) -> Seq<Fq>
    decreases v.len(),
{
    if v.len() == 0 {
        Seq::empty()
    } else {
        insts_absorbed_by_base(v.drop_last()) + v.last().absorbed_by_base()
    }
}

impl InstanceSuperView {
    /// Instances of zeros.
    pub open spec fn dummy(io_len: nat, n_inst: nat, full: bool) -> InstanceSuperView {
        InstanceSuperView {
            insts: repeated(InstanceView::dummy(io_len), n_inst),
            x_1: f_zero::<Fr>(),
            x_2: if full { Some(f_zero::<Fr>()) } else { None },
            pc_i: f_zero::<Fr>(),
        }
    }

    /// What a sponge absorbs: the instances, the first fold of digests, the second
    /// one behind a one where there is one, and the circuit.
    pub open spec fn absorbed(self) -> Seq<Fr> {
        let second = match self.x_2 {
            Some(x) => seq![f_one::<Fr>(), x],
            None => Seq::empty(),
        };
        insts_absorbed(self.insts) + seq![self.x_1] + second + seq![self.pc_i]
    }

    /// What a sponge over the base field absorbs.
    pub open spec fn absorbed_by_base(self) -> Seq<Fq> {
        let second = match self.x_2 {
            Some(x) => fr_absorbed(x),
            None => Seq::empty(),
        };
        insts_absorbed_by_base(self.insts) + fr_absorbed(self.x_1) + second + fr_absorbed(self.pc_i)
    }

    /// The digest of the parameters, the step, the circuit, the first and the current
    /// state, and the instances.
    pub open spec fn hash(self, sponge: SpongeView, pp_hash: Fr, i: Fr, pc_i: Fr, z_0: Seq<Fr>, z_i: Seq<Fr>) -> Fr {
        sponge.absorbed(seq![pp_hash]).absorbed(seq![i]).absorbed(seq![pc_i]).absorbed(z_0).absorbed(
            z_i,
        ).absorbed(self.absorbed()).output(1)[0]
    }
}

/// Copies of the instances.
pub fn dup_insts(v: &Vec<CommittedInstanceFoldPot>) -> (r: Vec<CommittedInstanceFoldPot>)
    ensures
        inst_views(r@) == inst_views(v@),
{
    let mut r: Vec<CommittedInstanceFoldPot> = Vec::new();
    let mut i: usize = 0;
    while i < v.len()
        invariant
            i <= v@.len(),
            inst_views(r@) == inst_views(v@).take(i as int),
        decreases v.len() - i,
    {
        let ghost before = r@;
        r.push(v[i].dup());
        assert(inst_views(r@) =~= inst_views(before).push(inst_views(v@)[i as int]));
        assert(inst_views(v@).take(i + 1) =~= inst_views(v@).take(i as int).push(inst_views(v@)[i as int]));
        i = i + 1;
    }
    assert(inst_views(v@).take(i as int) =~= inst_views(v@));
    r
}

/// Copies of the witnesses.
pub fn dup_wits(v: &Vec<WitnessFoldPot>) -> (r: Vec<WitnessFoldPot>)
    ensures
        wit_views(r@) == wit_views(v@),
{
    let mut r: Vec<WitnessFoldPot> = Vec::new();
    let mut i: usize = 0;
    while i < v.len()
        invariant
            i <= v@.len(),
            wit_views(r@) == wit_views(v@).take(i as int),
        decreases v.len() - i,
    {
        let ghost before = r@;
        r.push(v[i].dup());
        assert(wit_views(r@) =~= wit_views(before).push(wit_views(v@)[i as int]));
        assert(wit_views(v@).take(i + 1) =~= wit_views(v@).take(i as int).push(wit_views(v@)[i as int]));
        i = i + 1;
    }
    assert(wit_views(v@).take(i as int) =~= wit_views(v@));
    r
}

impl CommittedInstanceFoldPotSuper {
    /// Instances of zeros, with `io_len` public values each.
    pub fn dummy(io_len: usize, n_inst: usize, full: bool) -> (r: CommittedInstanceFoldPotSuper)
        ensures
            r@ == InstanceSuperView::dummy(io_len as nat, n_inst as nat, full),
    {
        let mut vec_inst: Vec<CommittedInstanceFoldPot> = Vec::new();
        let mut i: usize = 0;
        assert(inst_views(vec_inst@) =~= repeated(InstanceView::dummy(io_len as nat), 0));
        while i < n_inst
            invariant
                i <= n_inst,
                inst_views(vec_inst@) == repeated(InstanceView::dummy(io_len as nat), i as nat),
            decreases n_inst - i,
        {
            let ghost before = vec_inst@;
            vec_inst.push(CommittedInstanceFoldPot::dummy(io_len));
            assert(inst_views(vec_inst@) =~= inst_views(before).push(InstanceView::dummy(io_len as nat)));
            assert(inst_views(vec_inst@) =~= repeated(InstanceView::dummy(io_len as nat), (i + 1) as nat));
            i = i + 1;
        }
        let zero = Fr::zero();
        CommittedInstanceFoldPotSuper {
            vec_inst,
            x_1: zero,
            x_2: if full { Some(zero) } else { None },
            pc_i: zero,
        }
    }

    pub fn dup(&self) -> (r: CommittedInstanceFoldPotSuper)
        ensures
            r@ == self@,
    {
        CommittedInstanceFoldPotSuper {
            vec_inst: dup_insts(&self.vec_inst),
            x_1: self.x_1,
            x_2: self.x_2,
            pc_i: self.pc_i,
        }
    }

    /// What a sponge absorbs of the instances.
    pub fn to_sponge_field_elements(&self) -> (r: Vec<Fr>)
        ensures
            r@ == self@.absorbed(),
    {
        let mut r: Vec<Fr> = Vec::new();
        let mut i: usize = 0;
        assert(inst_views(self.vec_inst@).take(0) =~= Seq::empty());
        while i < self.vec_inst.len()
            invariant
                i <= self.vec_inst@.len(),
                r@ == insts_absorbed(inst_views(self.vec_inst@).take(i as int)),
            decreases self.vec_inst.len() - i,
        {
            push_all(&mut r, &self.vec_inst[i].to_sponge_field_elements());
            assert(inst_views(self.vec_inst@).take(i + 1).drop_last() =~= inst_views(self.vec_inst@).take(i as int));
            i = i + 1;
        }
        assert(inst_views(self.vec_inst@).take(i as int) =~= inst_views(self.vec_inst@));
        r.push(self.x_1);
        match self.x_2 {
            Some(x) => {
                r.push(Fr::one());
                r.push(x);
            },
            None => {},
        }
        r.push(self.pc_i);
        assert(r@ =~= self@.absorbed());
        r
    }

    /// What a sponge over the base field absorbs of the instances.
    pub fn to_native_sponge_field_elements(&self) -> (r: Vec<Fq>)
        ensures
            r@ == self@.absorbed_by_base(),
    {
        let mut r: Vec<Fq> = Vec::new();
        let mut i: usize = 0;
        assert(inst_views(self.vec_inst@).take(0) =~= Seq::empty());
        while i < self.vec_inst.len()
            invariant
                i <= self.vec_inst@.len(),
                r@ == insts_absorbed_by_base(inst_views(self.vec_inst@).take(i as int)),
            decreases self.vec_inst.len() - i,
        {
            push_all(&mut r, &self.vec_inst[i].to_native_sponge_field_elements());
            assert(inst_views(self.vec_inst@).take(i + 1).drop_last() =~= inst_views(self.vec_inst@).take(i as int));
            i = i + 1;
        }
        assert(inst_views(self.vec_inst@).take(i as int) =~= inst_views(self.vec_inst@));
        push_all(&mut r, &absorb_fr(&self.x_1));
        match self.x_2 {
            Some(x) => push_all(&mut r, &absorb_fr(&x)),
            None => {},
        }
        push_all(&mut r, &absorb_fr(&self.pc_i));
        assert(r@ =~= self@.absorbed_by_base());
        r
    }

    /// The digest of the parameters, the step, the circuit, the first and the current
    /// state, and the instances. The sponge is left as it is.
    pub fn hash(&self, sponge: &Sponge, pp_hash: &Fr, i: &Fr, pc_i: &Fr, z_0: &Vec<Fr>, z_i: &Vec<Fr>) -> (h: Fr)
        requires
            sponge.wf(),
        ensures
            h == self@.hash(sponge@, *pp_hash, *i, *pc_i, z_0@, z_i@),
    {
        let mut s = sponge.dup();
        s.absorb_one(pp_hash);
        s.absorb_one(i);
        s.absorb_one(pc_i);
        s.absorb(z_0);
        s.absorb(z_i);
        s.absorb(&self.to_sponge_field_elements());
        s.squeeze_one()
    }
}

/// What a proof of equality of openings is verified with: a point of the second
/// group for each of the commitments, and one for the proof.
#[derive(Debug)]
pub struct QaNizkVerifierParams {
    pub c: Vec<G2>,
    pub a: G2,
}

/// The points that are paired: the commitment to all witnesses, the commitments to
/// the witness, the error and the fixed memory of each circuit, and the proof with
/// its sign changed.
pub open spec fn paired_points(com_all: G1, insts: Seq<InstanceView>, prf: G1) -> Seq<G1> {
    seq![com_all] + commitments(insts) + seq![g1_sub(G1::Infinity, prf)]
}

/// The three commitments of each instance behind each other.
pub open spec fn commitments(insts: Seq<InstanceView>) -> Seq<G1>
    decreases insts.len(),
{
    if insts.len() == 0 {
        Seq::empty()
    } else {
        commitments(insts.drop_last()) + seq![insts.last().cm_w, insts.last().cm_e, insts.last().cm_f]
    }
}

proof fn lemma_commitments_len(insts: Seq<InstanceView>)
    ensures
        commitments(insts).len() == 3 * insts.len(),
    decreases insts.len(),
{
    if insts.len() > 0 {
        lemma_commitments_len(insts.drop_last());
    }
}

/// The coefficients of the target field's one.
pub open spec fn gt_one() -> Seq<Fq> {
    seq![f_one::<Fq>()] + repeated(f_zero::<Fq>(), 11)
}

/// The product of the first `n` pairings, none if one of them fails.
pub open spec fn pairing_product(a: Seq<G1>, b: Seq<G2>, n: nat) -> Option<Seq<Fq>>
    decreases n,
{
    if n == 0 {
        Some(gt_one())
    } else {
        match (pairing_product(a, b, (n - 1) as nat), pairing(a[n - 1], b[n - 1])) {
            (Some(p), Some(e)) => Some(gt_mul(p, e)),
            _ => None,
        }
    }
}

/// The limbs of the elements behind each other.
pub open spec fn fqs_limbs(v: Seq<Fq>) -> Seq<Fr>
    decreases v.len(),
{
    if v.len() == 0 {
        Seq::empty()
    } else {
        fqs_limbs(v.drop_last()) + fq_limbs(v.last())
    }
}

/// The `n`-th link of the hash chain of the points of the first group.
pub open spec fn chain_a(config: PoseidonConfigView, a: Seq<G1>, n: nat) -> Fr
    decreases n,
{
    if n == 0 {
        f_zero::<Fr>()
    } else {
        chained(config, chain_a(config, a, (n - 1) as nat), fqs_limbs(g1_elements(a[n - 1])))
    }
}

/// The `n`-th link of the hash chain of the points of the second group.
pub open spec fn chain_b(config: PoseidonConfigView, b: Seq<G2>, n: nat) -> Fr
    decreases n,
{
    if n == 0 {
        f_zero::<Fr>()
    } else {
        chained(config, chain_b(config, b, (n - 1) as nat), fqs_limbs(g2_elements(b[n - 1])))
    }
}

/// The `i`-th input of the pairing circuit: the product before, the two points and
/// the product behind by their limbs, and the links of the two hash chains before
/// and behind.
pub open spec fn cyclepair_row(config: PoseidonConfigView, a: Seq<G1>, b: Seq<G2>, i: int) -> Seq<Fr> {
    fqs_limbs(pairing_product(a, b, i as nat)->0) + fqs_limbs(g1_elements(a[i])) + fqs_limbs(g2_elements(b[i]))
        + fqs_limbs(pairing_product(a, b, (i + 1) as nat)->0) + seq![
        chain_a(config, a, i as nat),
        chain_b(config, b, i as nat),
        chain_a(config, a, (i + 1) as nat),
        chain_b(config, b, (i + 1) as nat),
    ]
}

/// How many elements an input of the pairing circuit has.
pub const CYCLEPAIR_ROW_LEN: usize = 164;

/// The limbs of the elements behind each other.
pub fn limbs_of(v: &Vec<Fq>) -> (r: Vec<Fr>)
    ensures
        r@ == fqs_limbs(v@),
        r@.len() == N_LIMBS * v@.len(),
{
    let mut r: Vec<Fr> = Vec::new();
    let mut i: usize = 0;
    assert(v@.take(0) =~= Seq::empty());
    while i < v.len()
        invariant
            i <= v@.len(),
            r@ == fqs_limbs(v@.take(i as int)),
            r@.len() == N_LIMBS * i,
        decreases v.len() - i,
    {
        push_all(&mut r, &f1_to_f2_limbs(&v[i]));
        assert(v@.take(i + 1).drop_last() =~= v@.take(i as int));
        i = i + 1;
    }
    assert(v@.take(i as int) =~= v@);
    r
}

/// The rows of a list of optional vectors.
pub open spec fn opt_rows(r: Option<Vec<Vec<Fr>>>) -> Option<Seq<Seq<Fr>>> {
    match r {
        Some(v) => Some(rows(v@)),
        None => None,
    }
}

impl CommittedInstanceFoldPotSuper {
    /// The points that are paired.
    fn points(&self, com_all: &G1, prf_qa_nizk: &G1) -> (v: Vec<G1>)
        ensures
            v@ == paired_points(*com_all, self@.insts, *prf_qa_nizk),
            v@.len() == 3 * self.vec_inst@.len() + 2,
    {
        let mut v: Vec<G1> = Vec::new();
        v.push(*com_all);
        let ghost insts = self@.insts;
        let mut i: usize = 0;
        assert(insts.take(0) =~= Seq::empty());
        assert(v@ =~= seq![*com_all] + commitments(insts.take(0)));
        while i < self.vec_inst.len()
            invariant
                i <= self.vec_inst@.len(),
                insts == inst_views(self.vec_inst@),
                v@ == seq![*com_all] + commitments(insts.take(i as int)),
            decreases self.vec_inst.len() - i,
        {
            let u = &self.vec_inst[i];
            v.push(u.cm_w);
            v.push(u.cm_e);
            v.push(u.cm_f);
            assert(insts.take(i + 1).drop_last() =~= insts.take(i as int));
            assert(v@ =~= seq![*com_all] + commitments(insts.take(i + 1)));
            i = i + 1;
        }
        assert(insts.take(i as int) =~= insts);
        let infinity = G1::Infinity;
        v.push(infinity.minus(prf_qa_nizk));
        assert(v@ =~= paired_points(*com_all, insts, *prf_qa_nizk));
        proof {
            lemma_commitments_len(insts);
        }
        v
    }

    /// The inputs of the pairing circuit, one for each pairing: the products of the
    /// pairings of the commitments with the verification key start at one, and the
    /// last product is one again where the proof holds. None where a pairing fails.
    pub fn generate_cyclepair_inputs(
        &self,
        vkey: &QaNizkVerifierParams,
        com_all: &G1,
        prf_qa_nizk: &G1,
        config: &PoseidonConfig,
    ) -> (r: Option<Vec<Vec<Fr>>>)
        requires
            config@.wf(),
            vkey.c@.len() == 3 * self.vec_inst@.len() + 1,
        ensures
            ({
                let a = paired_points(*com_all, self@.insts, *prf_qa_nizk);
                let b = vkey.c@.push(vkey.a);
                opt_rows(r) == (if pairing_product(a, b, a.len()) is Some {
                    Some(Seq::new(a.len(), |i: int| cyclepair_row(config@, a, b, i)))
                } else {
                    None
                })
            }),
            r matches Some(v) ==> v@.len() == 3 * self.vec_inst@.len() + 2 && forall|i: int|
                0 <= i < v@.len() ==> (#[trigger] v@[i])@.len() == CYCLEPAIR_ROW_LEN,
    {
        let a = self.points(com_all, prf_qa_nizk);
        let mut b = copy_of(&vkey.c);
        b.push(vkey.a);
        let n = a.len();
        let ghost target = Seq::new(n as nat, |i: int| cyclepair_row(config@, a@, b@, i));
        let mut res: Vec<Vec<Fr>> = Vec::new();
        let mut gt1 = filled(Fq::zero(), 12);
        gt1.set(0, Fq::one());
        assert(gt1@ =~= gt_one());
        let mut ha = Fr::zero();
        let mut hb = Fr::zero();
        let mut i: usize = 0;
        assert(rows(res@) =~= target.take(0));
        while i < n
            invariant
                i <= n,
                n == a@.len(),
                n == b@.len(),
                a@ == paired_points(*com_all, self@.insts, *prf_qa_nizk),
                b@ == vkey.c@.push(vkey.a),
                config@.wf(),
                target == Seq::new(n as nat, |k: int| cyclepair_row(config@, a@, b@, k)),
                gt1@.len() == GT_LEN,
                pairing_product(a@, b@, i as nat) == Some(gt1@),
                ha == chain_a(config@, a@, i as nat),
                hb == chain_b(config@, b@, i as nat),
                rows(res@) == target.take(i as int),
                forall|k: int| 0 <= k < res@.len() ==> (#[trigger] res@[k])@.len() == CYCLEPAIR_ROW_LEN,
            decreases n - i,
        {
            let e = match ark_pairing(&a[i], &b[i]) {
                None => {
                    proof {
                        lemma_product_fails(a@, b@, (i + 1) as nat, n as nat);
                    }
                    return None;
                },
                Some(e) => e,
            };
            let gt2 = ark_gt_mul(&gt1, &e);
            assert(pairing_product(a@, b@, (i + 1) as nat) == Some(gt2@));
            let vec_gt1 = limbs_of(&gt1);
            let vec_a = limbs_of(&g1_to_field_elements(&a[i]));
            let vec_b = limbs_of(&g2_to_field_elements(&b[i]));
            let vec_gt2 = limbs_of(&gt2);
            let ha_out = chain(config, &ha, &vec_a);
            let hb_out = chain(config, &hb, &vec_b);
            let mut row = vec_gt1;
            push_all(&mut row, &vec_a);
            push_all(&mut row, &vec_b);
            push_all(&mut row, &vec_gt2);
            row.push(ha);
            row.push(hb);
            row.push(ha_out);
            row.push(hb_out);
            assert(row@ =~= cyclepair_row(config@, a@, b@, i as int));
            let ghost before = res@;
            res.push(row);
            assert(rows(res@) =~= rows(before).push(target[i as int]));
            assert(target.take(i + 1) =~= target.take(i as int).push(target[i as int]));
            gt1 = gt2;
            ha = ha_out;
            hb = hb_out;
            i = i + 1;
        }
        assert(target.take(n as int) =~= target);
        assert(rows(res@).len() == res@.len());
        Some(res)
    }
}

/// A product that fails goes on failing.
pub proof fn lemma_product_fails(a: Seq<G1>, b: Seq<G2>, k: nat, n: nat)
    requires
        k <= n,
        pairing_product(a, b, k) is None,
    ensures
        pairing_product(a, b, n) is None,
    decreases n,
{
    if k < n {
        lemma_product_fails(a, b, k, (n - 1) as nat);
    }
}

/// The secret part of the relaxed witnesses of all circuits.
#[derive(Debug)]
pub struct WitnessFoldPotSuper {
    pub vec_wit: Vec<WitnessFoldPot>,
}

impl WitnessFoldPotSuper {
    pub fn new(vec_wit: Vec<WitnessFoldPot>) -> (r: WitnessFoldPotSuper)
        ensures
            r.vec_wit == vec_wit,
    {
        WitnessFoldPotSuper { vec_wit }
    }

    /// Witnesses of zeros in the given sizes.
    pub fn dummy(vec_w_len: &Vec<usize>, vec_e_len: &Vec<usize>) -> (r: WitnessFoldPotSuper)
        requires
            vec_w_len@.len() <= vec_e_len@.len(),
        ensures
            wit_views(r.vec_wit@) == Seq::new(
                vec_w_len@.len(),
                |i: int| WitnessFoldPotView::dummy(vec_w_len@[i] as nat, vec_e_len@[i] as nat, 1, 0),
            ),
    {
        let mut vec_wit: Vec<WitnessFoldPot> = Vec::new();
        let ghost target = Seq::new(
            vec_w_len@.len(),
            |i: int| WitnessFoldPotView::dummy(vec_w_len@[i] as nat, vec_e_len@[i] as nat, 1, 0),
        );
        let mut i: usize = 0;
        assert(wit_views(vec_wit@) =~= target.take(0));
        while i < vec_w_len.len()
            invariant
                i <= vec_w_len@.len() <= vec_e_len@.len(),
                target == Seq::new(
                    vec_w_len@.len(),
                    |k: int| WitnessFoldPotView::dummy(vec_w_len@[k] as nat, vec_e_len@[k] as nat, 1, 0),
                ),
                wit_views(vec_wit@) == target.take(i as int),
            decreases vec_w_len.len() - i,
        {
            let ghost before = vec_wit@;
            vec_wit.push(WitnessFoldPot::dummy(vec_w_len[i], vec_e_len[i]));
            assert(wit_views(vec_wit@) =~= wit_views(before).push(target[i as int]));
            assert(target.take(i + 1) =~= target.take(i as int).push(target[i as int]));
            i = i + 1;
        }
        assert(target.take(i as int) =~= target);
        WitnessFoldPotSuper { vec_wit }
    }

    /// The witnesses behind each other, then the errors, then the blinding value: the
    /// vector that one commitment to all witnesses is for.
    pub fn all_values(&self, r_all_w: &Fr) -> (v: Vec<Fr>)
        ensures
            v@ == all_values(wit_views(self.vec_wit@), *r_all_w),
    {
        let ghost wits = wit_views(self.vec_wit@);
        let mut v: Vec<Fr> = Vec::new();
        let mut i: usize = 0;
        assert(wits.take(0) =~= Seq::empty());
        while i < self.vec_wit.len()
            invariant
                i <= self.vec_wit@.len(),
                wits == wit_views(self.vec_wit@),
                v@ == joined_w(wits.take(i as int)),
            decreases self.vec_wit.len() - i,
        {
            push_all(&mut v, &self.vec_wit[i].w);
            assert(wits.take(i + 1).drop_last() =~= wits.take(i as int));
            i = i + 1;
        }
        assert(wits.take(i as int) =~= wits);
        let ghost head = v@;
        i = 0;
        while i < self.vec_wit.len()
            invariant
                i <= self.vec_wit@.len(),
                wits == wit_views(self.vec_wit@),
                v@ == head + joined_e(wits.take(i as int)),
            decreases self.vec_wit.len() - i,
        {
            push_all(&mut v, &self.vec_wit[i].e);
            assert(wits.take(i + 1).drop_last() =~= wits.take(i as int));
            i = i + 1;
        }
        assert(wits.take(i as int) =~= wits);
        v.push(*r_all_w);
        assert(v@ =~= all_values(wits, *r_all_w));
        v
    }

    /// The instances that commit to the witnesses, with the public values `vec_x`.
    pub fn commit<CS: CommitmentScheme<Fr, G1>>(
        &self,
        cs: &CS,
        vec_x: &Vec<Vec<Fr>>,
        x_1: &Fr,
        x_2: &Option<Fr>,
        pc_i: &Fr,
    ) -> (r: Option<CommittedInstanceFoldPotSuper>)
        requires
            vec_x@.len() == self.vec_wit@.len(),
            forall|i: int| 0 <= i < self.vec_wit@.len() ==> (#[trigger] wit_views(self.vec_wit@)[i]).wf(),
        ensures
            r is Some <==> forall|i: int|
                0 <= i < self.vec_wit@.len() ==> (#[trigger] wit_views(self.vec_wit@)[i]).commit(
                    *cs,
                    rows(vec_x@)[i],
                ) is Some,
            r matches Some(u) ==> {
                &&& u.x_1 == *x_1
                &&& u.x_2 == *x_2
                &&& u.pc_i == *pc_i
                &&& u@.insts =~= Seq::new(
                    self.vec_wit@.len(),
                    |i: int| wit_views(self.vec_wit@)[i].commit(*cs, rows(vec_x@)[i])->0,
                )
            },
    {
        let ghost wits = wit_views(self.vec_wit@);
        let ghost xs = rows(vec_x@);
        let mut vec_inst: Vec<CommittedInstanceFoldPot> = Vec::new();
        let mut i: usize = 0;
        while i < self.vec_wit.len()
            invariant
                i <= self.vec_wit@.len(),
                vec_x@.len() == self.vec_wit@.len(),
                wits == wit_views(self.vec_wit@),
                xs == rows(vec_x@),
                forall|k: int| 0 <= k < self.vec_wit@.len() ==> (#[trigger] wits[k]).wf(),
                vec_inst@.len() == i,
                forall|k: int| 0 <= k < i ==> (#[trigger] wits[k]).commit(*cs, xs[k]) is Some,
                forall|k: int|
                    0 <= k < i ==> (#[trigger] inst_views(vec_inst@)[k]) == wits[k].commit(*cs, xs[k])->0,
            decreases self.vec_wit.len() - i,
        {
            assert(wits[i as int].wf());
            match self.vec_wit[i].commit(cs, &vec_x[i]) {
                None => {
                    assert(wits[i as int].commit(*cs, xs[i as int]) is None);
                    return None;
                },
                Some(u) => {
                    let ghost before = vec_inst@;
                    vec_inst.push(u);
                    assert(inst_views(vec_inst@) =~= inst_views(before).push(u@));
                },
            }
            i = i + 1;
        }
        Some(CommittedInstanceFoldPotSuper { vec_inst, x_1: *x_1, x_2: *x_2, pc_i: *pc_i })
    }
}

pub open spec fn joined_w(wits: Seq<WitnessFoldPotView>) -> Seq<Fr>
    decreases wits.len(),
{
    if wits.len() == 0 {
        Seq::empty()
    } else {
        joined_w(wits.drop_last()) + wits.last().w
    }
}

pub open spec fn joined_e(wits: Seq<WitnessFoldPotView>) -> Seq<Fr>
    decreases wits.len(),
{
    if wits.len() == 0 {
        Seq::empty()
    } else {
        joined_e(wits.drop_last()) + wits.last().e
    }
}

/// The witnesses behind each other, then the errors, then the blinding value.
pub open spec fn all_values(wits: Seq<WitnessFoldPotView>, r_all_w: Fr) -> Seq<Fr> {
    joined_w(wits) + joined_e(wits) + seq![r_all_w]
}

/// The dummy witnesses for the systems.
pub open spec fn dummy_wits(r1cs: Seq<R1CS<Fr>>, size_f: Seq<usize>, start_f: Seq<usize>, n: nat) -> Seq<
    WitnessFoldPotView,
> {
    Seq::new(
        n,
        |i: int|
            WitnessFoldPotView::dummy(
                (r1cs[i].a.n_cols - 1 - r1cs[i].l) as nat,
                r1cs[i].a.n_rows as nat,
                size_f[i] as nat,
                start_f[i] as nat,
            ),
    )
}

/// The dummy instances for the systems.
pub open spec fn dummy_insts(r1cs: Seq<R1CS<Fr>>, n: nat) -> Seq<InstanceView> {
    Seq::new(n, |i: int| InstanceView::dummy(r1cs[i].l as nat))
}

/// Witnesses and instances of zeros in the sizes of the first `n_circ` systems.
pub fn dummy_instance_foldpot_super(
    r1cs: &Vec<R1CS<Fr>>,
    size_f: &Vec<usize>,
    start_f: &Vec<usize>,
    n_circ: usize,
    full: bool,
) -> (r: (WitnessFoldPotSuper, CommittedInstanceFoldPotSuper))
    requires
        n_circ <= r1cs@.len(),
        n_circ <= size_f@.len(),
        n_circ <= start_f@.len(),
        forall|i: int|
            0 <= i < n_circ ==> (#[trigger] r1cs@[i]).wf() && dummy_possible(
                r1cs@[i],
                size_f@[i] as nat,
                start_f@[i] as nat,
            ),
    ensures
        wit_views(r.0.vec_wit@) == dummy_wits(r1cs@, size_f@, start_f@, n_circ as nat),
        r.1@ == (InstanceSuperView {
            insts: dummy_insts(r1cs@, n_circ as nat),
            x_1: f_zero::<Fr>(),
            x_2: if full { Some(f_zero::<Fr>()) } else { None },
            pc_i: f_zero::<Fr>(),
        }),
{
    let ghost tw = dummy_wits(r1cs@, size_f@, start_f@, n_circ as nat);
    let ghost tu = dummy_insts(r1cs@, n_circ as nat);
    let mut vec_wit: Vec<WitnessFoldPot> = Vec::new();
    let mut vec_inst: Vec<CommittedInstanceFoldPot> = Vec::new();
    let mut i: usize = 0;
    assert(wit_views(vec_wit@) =~= tw.take(0));
    assert(inst_views(vec_inst@) =~= tu.take(0));
    while i < n_circ
        invariant
            i <= n_circ,
            n_circ <= r1cs@.len(),
            n_circ <= size_f@.len(),
            n_circ <= start_f@.len(),
            forall|k: int|
                0 <= k < n_circ ==> (#[trigger] r1cs@[k]).wf() && dummy_possible(
                    r1cs@[k],
                    size_f@[k] as nat,
                    start_f@[k] as nat,
                ),
            tw == dummy_wits(r1cs@, size_f@, start_f@, n_circ as nat),
            tu == dummy_insts(r1cs@, n_circ as nat),
            wit_views(vec_wit@) == tw.take(i as int),
            inst_views(vec_inst@) == tu.take(i as int),
        decreases n_circ - i,
    {
        assert(r1cs@[i as int].wf());
        let (w, u) = dummy_instance_foldpot(&r1cs[i], size_f[i], start_f[i]);
        let ghost (bw, bu) = (vec_wit@, vec_inst@);
        vec_wit.push(w);
        vec_inst.push(u);
        assert(wit_views(vec_wit@) =~= wit_views(bw).push(tw[i as int]));
        assert(inst_views(vec_inst@) =~= inst_views(bu).push(tu[i as int]));
        assert(tw.take(i + 1) =~= tw.take(i as int).push(tw[i as int]));
        assert(tu.take(i + 1) =~= tu.take(i as int).push(tu[i as int]));
        i = i + 1;
    }
    assert(tw.take(i as int) =~= tw);
    assert(tu.take(i as int) =~= tu);
    let zero = Fr::zero();
    (
        WitnessFoldPotSuper { vec_wit },
        CommittedInstanceFoldPotSuper {
            vec_inst,
            x_1: zero,
            x_2: if full { Some(zero) } else { None },
            pc_i: zero,
        },
    )
}

} // verus!
