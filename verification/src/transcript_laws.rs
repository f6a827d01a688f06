//! Laws of transcripts: what digests and challenges are drawn from, and that it binds what
//! was absorbed.
use vstd::prelude::*;
use vstd::arithmetic::power2::pow2;
use crate::batch_proc::batch_challenges;
use crate::batch_proc::entry_challenge;
use crate::batch_proc::points_elements;
use crate::batch_proc::word_point;
use crate::batch_proc::BatchClaim;
use crate::curve::Grumpkin;
use crate::curve::G1;
use crate::decider_circuits::kzg_challenge;
use crate::decider_circuits::points_absorbed;
use crate::field::canonical;
use crate::field::lemma_units;
use crate::field::lemma_val_injective;
use crate::field::FieldModel;
use crate::field_fq::Fq;
use crate::field_fr::Fr;
use crate::instance::frs_absorbed;
use crate::instance::InstanceView;
use crate::instance_super::InstanceSuperView;
use crate::limbs::fq_absorbed;
use crate::limbs::fr_absorbed;
use crate::limbs::g1_absorbed;
use crate::limbs::lemma_powers;
use crate::nifs::step_transcript;
use crate::nifs::step_transcript_after;
use crate::nova::fqs_absorbed;
use crate::nova::pair_transcript;
use crate::nova::CommittedInstanceView;
use crate::part_two::chained;
use crate::part_two::digest;
use crate::part_two::PartTwoView;
use crate::sponge::poseidon_output;
use crate::sponge::PoseidonConfigView;
use crate::sponge::SpongeOpView;
use crate::sponge::SpongeView;

verus! {

/// What was done to a sponge that, after `log`, absorbed the lists of `parts` one after
/// the other.
pub open spec fn told(log: Seq<SpongeOpView>, parts: Seq<Seq<Fr>>) -> Seq<SpongeOpView> {
    log + Seq::new(parts.len(), |i: int| SpongeOpView::Absorb(parts[i]))
}

/// What is told binds: where the same was told to two sponges to which the same was done
/// before, the lists are the same.
pub proof fn law_told_binds(log: Seq<SpongeOpView>, a: Seq<Seq<Fr>>, b: Seq<Seq<Fr>>)
    requires
        told(log, a) == told(log, b),
    ensures
        a == b,
{
    assert(told(log, a).len() == log.len() + a.len());
    assert(told(log, b).len() == log.len() + b.len());
    assert forall|i: int| 0 <= i < a.len() implies a[i] == b[i] by {
        assert(told(log, a)[log.len() + i] == SpongeOpView::Absorb(a[i]));
        assert(told(log, b)[log.len() + i] == SpongeOpView::Absorb(b[i]));
    }
    assert(a =~= b);
}

/// What is absorbed of an element of the base field leads back to it.
pub proof fn law_absorbed_element(a: Fq)
    requires
        canonical(a),
    ensures
        fq_absorbed(a).len() == 2,
        fq_absorbed(a)[0].val() + pow2(253) * fq_absorbed(a)[1].val() == a.val(),
        fq_absorbed(a)[0].val() < pow2(253),
{
    lemma_powers();
    let (n, d) = (a.val() as int, pow2(253) as int);
    vstd::arithmetic::div_mod::lemma_fundamental_div_mod(n, d);
    vstd::arithmetic::div_mod::lemma_mod_bound(n, d);
    assert(0 <= n / d < 8) by (nonlinear_arith)
        requires
            0 <= n < 8 * d,
            d > 0,
    ;
    Fr::lemma_val_of(a.val() % pow2(253));
    Fr::lemma_val_of(a.val() / pow2(253));
}

/// What a sponge over the base field absorbs of an element of the scalar field leads back
/// to it.
pub proof fn law_absorbed_scalar(a: Fr)
    requires
        canonical(a),
    ensures
        fr_absorbed(a).len() == 2,
        fr_absorbed(a)[0].val() + pow2(253) * fr_absorbed(a)[1].val() == a.val(),
        fr_absorbed(a)[0].val() < pow2(253),
{
    lemma_powers();
    let (n, d) = (a.val() as int, pow2(253) as int);
    vstd::arithmetic::div_mod::lemma_fundamental_div_mod(n, d);
    vstd::arithmetic::div_mod::lemma_mod_bound(n, d);
    assert(0 <= n / d < 8) by (nonlinear_arith)
        requires
            0 <= n < 8 * d,
            d > 0,
    ;
    Fq::lemma_val_of(a.val() % pow2(253));
    Fq::lemma_val_of(a.val() / pow2(253));
}

/// Whether a point is not written with the coordinates that stand for infinity, and its
/// coordinates are held by integers below the modulus.
pub open spec fn plain_point(p: G1) -> bool {
    match p {
        G1::Infinity => true,
        G1::Point(x, y) => canonical(x) && canonical(y) && (x.val() != 0 || y.val() != 0),
    }
}

/// The same for a point of the second curve.
pub open spec fn plain_grumpkin(p: Grumpkin) -> bool {
    match p {
        Grumpkin::Infinity => true,
        Grumpkin::Point(x, y) => x.val() != 0 || y.val() != 0,
    }
}

proof fn lemma_point_len(p: G1)
    ensures
        g1_absorbed(p).len() == 4,
{
    lemma_element_len(p.xy().0);
    lemma_element_len(p.xy().1);
}

proof fn lemma_element_len(a: Fq)
    ensures
        fq_absorbed(a).len() == 2,
{
    lemma_powers();
}

/// What is absorbed of a point: the two coordinates, each by its low bits and the rest,
/// zeros for the point at infinity.
pub proof fn law_absorbed_point(p: G1)
    requires
        plain_point(p),
    ensures
        g1_absorbed(p).len() == 4,
        ({
            let a = g1_absorbed(p);
            match p {
                G1::Infinity => forall|i: int| 0 <= i < 4 ==> (#[trigger] a[i]).val() == 0,
                G1::Point(x, y) => {
                    &&& a[0].val() + pow2(253) * a[1].val() == x.val()
                    &&& a[2].val() + pow2(253) * a[3].val() == y.val()
                },
            }
        }),
{
    lemma_units::<Fq>();
    lemma_units::<Fr>();
    let (x, y) = p.xy();
    law_absorbed_element(x);
    law_absorbed_element(y);
    let a = g1_absorbed(p);
    assert(a[0] == fq_absorbed(x)[0] && a[1] == fq_absorbed(x)[1]);
    assert(a[2] == fq_absorbed(y)[0] && a[3] == fq_absorbed(y)[1]);
    if p is Infinity {
        lemma_powers();
        let (l, h) = (a[0].val() as int, a[1].val() as int);
        assert(l == 0 && h == 0) by (nonlinear_arith)
            requires
                l + pow2(253) * h == 0,
                l >= 0,
                h >= 0,
                pow2(253) > 0,
        ;
        let (l, h) = (a[2].val() as int, a[3].val() as int);
        assert(l == 0 && h == 0) by (nonlinear_arith)
            requires
                l + pow2(253) * h == 0,
                l >= 0,
                h >= 0,
                pow2(253) > 0,
        ;
    }
}

/// Points of which the same is absorbed are the same.
pub proof fn law_absorbed_point_binds(p: G1, q: G1)
    requires
        plain_point(p),
        plain_point(q),
        g1_absorbed(p) == g1_absorbed(q),
    ensures
        p == q,
{
    law_absorbed_point(p);
    law_absorbed_point(q);
    lemma_powers();
    let a = g1_absorbed(p);
    assert(pow2(253) * 0 == 0);
    match (p, q) {
        (G1::Point(x1, y1), G1::Point(x2, y2)) => {
            lemma_val_injective(x1, x2);
            lemma_val_injective(y1, y2);
        },
        (G1::Point(x1, y1), G1::Infinity) => {
            assert(a[0].val() == 0 && a[1].val() == 0 && a[2].val() == 0 && a[3].val() == 0);
        },
        (G1::Infinity, G1::Point(x2, y2)) => {
            assert(a[0].val() == 0 && a[1].val() == 0 && a[2].val() == 0 && a[3].val() == 0);
        },
        _ => {},
    }
}

/// Whether the three commitments of an instance are plain points.
pub open spec fn plain_instance(u: InstanceView) -> bool {
    plain_point(u.cm_e) && plain_point(u.cm_w) && plain_point(u.cm_f)
}

/// What is absorbed of an instance: `u`, the public values, and the commitments to the
/// error, to the witness and to the fixed memory, in this order.
pub proof fn law_absorbed_instance(u: InstanceView)
    ensures
        ({
            let (a, n) = (u.absorbed(), u.x.len() as int);
            &&& a.len() == n + 13
            &&& a[0] == u.u
            &&& a.subrange(1, 1 + n) == u.x
            &&& a.subrange(n + 1, n + 5) == g1_absorbed(u.cm_e)
            &&& a.subrange(n + 5, n + 9) == g1_absorbed(u.cm_w)
            &&& a.subrange(n + 9, n + 13) == g1_absorbed(u.cm_f)
        }),
{
    let (a, n) = (u.absorbed(), u.x.len() as int);
    lemma_point_len(u.cm_e);
    lemma_point_len(u.cm_w);
    lemma_point_len(u.cm_f);
    assert(a.subrange(1, 1 + n) =~= u.x);
    assert(a.subrange(n + 1, n + 5) =~= g1_absorbed(u.cm_e));
    assert(a.subrange(n + 5, n + 9) =~= g1_absorbed(u.cm_w));
    assert(a.subrange(n + 9, n + 13) =~= g1_absorbed(u.cm_f));
}

/// Instances of which the same is absorbed are the same.
pub proof fn law_absorbed_instance_binds(u: InstanceView, v: InstanceView)
    requires
        plain_instance(u),
        plain_instance(v),
        u.absorbed() == v.absorbed(),
    ensures
        u == v,
{
    law_absorbed_instance(u);
    law_absorbed_instance(v);
    law_absorbed_point_binds(u.cm_e, v.cm_e);
    law_absorbed_point_binds(u.cm_w, v.cm_w);
    law_absorbed_point_binds(u.cm_f, v.cm_f);
    assert(u =~= v);
}

/// What is absorbed of elements of the base field: two elements for each, in their order.
pub proof fn law_absorbed_elements(v: Seq<Fq>)
    ensures
        fqs_absorbed(v).len() == 2 * v.len(),
        forall|i: int| 0 <= i < v.len() ==> fqs_absorbed(v).subrange(2 * i, 2 * i + 2) == fq_absorbed(#[trigger] v[i]),
    decreases v.len(),
{
    if v.len() > 0 {
        let (short, a) = (v.drop_last(), fqs_absorbed(v));
        law_absorbed_elements(short);
        lemma_element_len(v.last());
        assert forall|i: int| 0 <= i < v.len() implies a.subrange(2 * i, 2 * i + 2) == fq_absorbed(#[trigger] v[i]) by {
            if i < short.len() {
                assert(short[i] == v[i]);
                assert(a.subrange(2 * i, 2 * i + 2) =~= fqs_absorbed(short).subrange(2 * i, 2 * i + 2));
            } else {
                assert(a.subrange(2 * i, 2 * i + 2) =~= fq_absorbed(v[i]));
            }
        }
    }
}

/// What is absorbed of an instance on the second curve: `u`, the public values, and the
/// coordinates of the commitments to the error and to the witness, in this order.
pub proof fn law_absorbed_pair_instance(u: CommittedInstanceView)
    ensures
        ({
            let (a, n) = (u.absorbed(), u.x.len() as int);
            let (e, w) = (u.cm_e.xy(), u.cm_w.xy());
            &&& a.len() == 2 * n + 6
            &&& a.subrange(0, 2) == fq_absorbed(u.u)
            &&& forall|i: int|
                0 <= i < n ==> a.subrange(2 + 2 * i, 4 + 2 * i) == fq_absorbed(#[trigger] u.x[i])
            &&& a[2 * n + 2] == e.0
            &&& a[2 * n + 3] == e.1
            &&& a[2 * n + 4] == w.0
            &&& a[2 * n + 5] == w.1
        }),
{
    let (a, n) = (u.absorbed(), u.x.len() as int);
    law_absorbed_elements(u.x);
    lemma_element_len(u.u);
    assert(a.subrange(0, 2) =~= fq_absorbed(u.u));
    assert forall|i: int| 0 <= i < n implies a.subrange(2 + 2 * i, 4 + 2 * i) == fq_absorbed(#[trigger] u.x[i]) by {
        assert(a.subrange(2 + 2 * i, 4 + 2 * i) =~= fqs_absorbed(u.x).subrange(2 * i, 2 * i + 2));
    }
}

proof fn lemma_element_binds(a: Fq, b: Fq)
    requires
        canonical(a),
        canonical(b),
        fq_absorbed(a) == fq_absorbed(b),
    ensures
        a == b,
{
    law_absorbed_element(a);
    law_absorbed_element(b);
    lemma_val_injective(a, b);
}

proof fn lemma_grumpkin_binds(p: Grumpkin, q: Grumpkin)
    requires
        plain_grumpkin(p),
        plain_grumpkin(q),
        p.xy() == q.xy(),
    ensures
        p == q,
{
    lemma_units::<Fr>();
}

/// Whether the elements of an instance on the second curve are held by integers below the
/// modulus and its commitments are plain points.
pub open spec fn plain_pair_instance(u: CommittedInstanceView) -> bool {
    &&& canonical(u.u)
    &&& forall|i: int| 0 <= i < u.x.len() ==> canonical(#[trigger] u.x[i])
    &&& plain_grumpkin(u.cm_e)
    &&& plain_grumpkin(u.cm_w)
}

/// Instances on the second curve of which the same is absorbed are the same.
pub proof fn law_absorbed_pair_instance_binds(u: CommittedInstanceView, v: CommittedInstanceView)
    requires
        plain_pair_instance(u),
        plain_pair_instance(v),
        u.absorbed() == v.absorbed(),
    ensures
        u == v,
{
    law_absorbed_pair_instance(u);
    law_absorbed_pair_instance(v);
    lemma_element_binds(u.u, v.u);
    assert forall|i: int| 0 <= i < u.x.len() implies u.x[i] == v.x[i] by {
        assert(canonical(u.x[i]) && canonical(v.x[i]));
        lemma_element_binds(u.x[i], v.x[i]);
    }
    lemma_grumpkin_binds(u.cm_e, v.cm_e);
    lemma_grumpkin_binds(u.cm_w, v.cm_w);
    assert(u =~= v);
}

/// An instance's digest is drawn from a sponge that was told the parameters' digest, the
/// step, the first and the current state, and the instance.
pub proof fn law_instance_digest(u: InstanceView, s: SpongeView, pp_hash: Fr, i: Fr, z_0: Seq<Fr>, z_i: Seq<Fr>)
    ensures
        u.hash(s, pp_hash, i, z_0, z_i) == poseidon_output(
            s.config,
            told(s.log, seq![seq![pp_hash], seq![i], z_0, z_i, u.absorbed()]),
            1,
        )[0],
{
    let parts = seq![seq![pp_hash], seq![i], z_0, z_i, u.absorbed()];
    assert(s.absorbed(seq![pp_hash]).absorbed(seq![i]).absorbed(z_0).absorbed(z_i).absorbed(u.absorbed()).log
        =~= told(s.log, parts));
}

/// The digest of an instance on the second curve is drawn from a sponge that was told the
/// parameters' digest and the instance.
pub proof fn law_pair_instance_digest(u: CommittedInstanceView, s: SpongeView, pp_hash: Fr)
    ensures
        u.hash_cyclefold(s, pp_hash) == poseidon_output(s.config, told(s.log, seq![seq![pp_hash], u.absorbed()]), 1)[0],
{
    assert(s.absorbed(seq![pp_hash]).absorbed(u.absorbed()).log =~= told(s.log, seq![seq![pp_hash], u.absorbed()]));
}

/// The digest of the instances of several circuits is drawn from a sponge that was told
/// the parameters' digest, the step, the circuit, the first and the current state, and the
/// instances.
pub proof fn law_instances_digest(
    u: InstanceSuperView,
    s: SpongeView,
    pp_hash: Fr,
    i: Fr,
    pc_i: Fr,
    z_0: Seq<Fr>,
    z_i: Seq<Fr>,
)
    ensures
        u.hash(s, pp_hash, i, pc_i, z_0, z_i) == poseidon_output(
            s.config,
            told(s.log, seq![seq![pp_hash], seq![i], seq![pc_i], z_0, z_i, u.absorbed()]),
            1,
        )[0],
{
    let parts = seq![seq![pp_hash], seq![i], seq![pc_i], z_0, z_i, u.absorbed()];
    assert(s.absorbed(seq![pp_hash]).absorbed(seq![i]).absorbed(seq![pc_i]).absorbed(z_0).absorbed(z_i).absorbed(
        u.absorbed(),
    ).log =~= told(s.log, parts));
}

/// The transcripts of folds were told the parameters' digest, the running and the incoming
/// instance and the commitment to the cross term; after the challenge, elements were
/// handed out.
pub proof fn law_fold_transcripts(
    t: SpongeView,
    pp_hash: Fr,
    running: Seq<Fr>,
    incoming: Seq<Fr>,
    cm_t: G1,
    cm_t2: Grumpkin,
)
    ensures
        ({
            let s = step_transcript(t, pp_hash, running, incoming, cm_t);
            let after = step_transcript_after(t, pp_hash, running, incoming, cm_t);
            let p = pair_transcript(t, pp_hash, running, incoming, cm_t2);
            &&& s.config == t.config
            &&& s.log == told(t.log, seq![seq![pp_hash], running, incoming, g1_absorbed(cm_t)])
            &&& after.config == t.config
            &&& after.log == s.log.push(SpongeOpView::Squeeze(1))
            &&& p.config == t.config
            &&& p.log == told(
                t.log,
                seq![seq![pp_hash], running, incoming, seq![cm_t2.xy().0], seq![cm_t2.xy().1]],
            )
        }),
{
    let s = step_transcript(t, pp_hash, running, incoming, cm_t);
    assert(s.log =~= told(t.log, seq![seq![pp_hash], running, incoming, g1_absorbed(cm_t)]));
    let p = pair_transcript(t, pp_hash, running, incoming, cm_t2);
    assert(p.log =~= told(
        t.log,
        seq![seq![pp_hash], running, incoming, seq![cm_t2.xy().0], seq![cm_t2.xy().1]],
    ));
}

/// A digest is drawn from a fresh sponge that was told the elements; a link of a chain is
/// the digest of the link before and the elements.
pub proof fn law_digests(config: PoseidonConfigView, h: Fr, elems: Seq<Fr>)
    ensures
        digest(config, elems) == poseidon_output(config, told(Seq::empty(), seq![elems]), 1)[0],
        chained(config, h, elems) == poseidon_output(config, told(Seq::empty(), seq![seq![h] + elems]), 1)[0],
{
    assert(SpongeView::fresh(config).absorbed(elems).log =~= told(Seq::empty(), seq![elems]));
    assert(SpongeView::fresh(config).absorbed(seq![h] + elems).log =~= told(Seq::empty(), seq![seq![h] + elems]));
}

/// The second part of a state is digested with all that it holds: its elements determine
/// it.
pub proof fn law_part_two_binds(a: PartTwoView, b: PartTwoView)
    requires
        a.elements() == b.elements(),
        a.cyclepair_input is Some <==> b.cyclepair_input is Some,
    ensures
        a == b,
{
    let (x, y) = (a.elements(), b.elements());
    assert(a.ch == x[0] && b.ch == y[0]);
    assert(a.rc == x[1] && b.rc == y[1]);
    assert(a.sum_kzg_eval_lk == x[2] && b.sum_kzg_eval_lk == y[2]);
    assert(a.sum_kzg_eval_word == x[3] && b.sum_kzg_eval_word == y[3]);
    assert(a.sum_kzg_eval_others == x[4] && b.sum_kzg_eval_others == y[4]);
    assert(a.f_result == x[5] && b.f_result == y[5]);
    assert(a.n_words == x[6] && b.n_words == y[6]);
    match (a.cyclepair_input, b.cyclepair_input) {
        (Some(v), Some(w)) => {
            assert(x.skip(7) =~= v);
            assert(y.skip(7) =~= w);
        },
        _ => {},
    }
}

/// What is absorbed of points: four elements for each, in their order.
pub proof fn law_absorbed_points(pts: Seq<G1>)
    ensures
        points_elements(pts).len() == 4 * pts.len(),
        forall|i: int|
            0 <= i < pts.len() ==> points_elements(pts).subrange(4 * i, 4 * i + 4) == g1_absorbed(#[trigger] pts[i]),
    decreases pts.len(),
{
    if pts.len() > 0 {
        let (short, a) = (pts.drop_last(), points_elements(pts));
        law_absorbed_points(short);
        lemma_point_len(pts.last());
        assert forall|i: int| 0 <= i < pts.len() implies a.subrange(4 * i, 4 * i + 4) == g1_absorbed(
            #[trigger] pts[i],
        ) by {
            if i < short.len() {
                assert(short[i] == pts[i]);
                assert(a.subrange(4 * i, 4 * i + 4) =~= points_elements(short).subrange(4 * i, 4 * i + 4));
            } else {
                assert(a.subrange(4 * i, 4 * i + 4) =~= g1_absorbed(pts[i]));
            }
        }
    }
}

/// The point of a word is drawn from a fresh sponge that was told the word's number, and
/// the commitments to all words, to their lengths and to the word.
pub proof fn law_word_point(config: PoseidonConfigView, claim: BatchClaim, kzg_word: G1, i: nat)
    requires
        i < 0x1_0000_0000,
    ensures
        word_point(config, claim, kzg_word, i) == poseidon_output(
            config,
            told(
                Seq::empty(),
                seq![
                    seq![Fr::of(i)],
                    g1_absorbed(claim.kzg_all_words) + g1_absorbed(claim.kzg_length) + g1_absorbed(kzg_word),
                ],
            ),
            1,
        )[0],
{
    let number = Fr::of(i);
    vstd::arithmetic::div_mod::lemma_small_mod(i, 0x1_0000_0000);
    let all = seq![claim.kzg_all_words, claim.kzg_length, kzg_word];
    let pts = g1_absorbed(claim.kzg_all_words) + g1_absorbed(claim.kzg_length) + g1_absorbed(kzg_word);
    lemma_three_points(all);
    assert(SpongeView::fresh(config).absorbed(seq![number]).absorbed(pts).log =~= told(
        Seq::empty(),
        seq![seq![number], pts],
    ));
}

proof fn lemma_three_points(all: Seq<G1>)
    requires
        all.len() == 3,
    ensures
        points_elements(all) == g1_absorbed(all[0]) + g1_absorbed(all[1]) + g1_absorbed(all[2]),
{
    law_absorbed_points(all);
    let (p, q) = (points_elements(all), g1_absorbed(all[0]) + g1_absorbed(all[1]) + g1_absorbed(all[2]));
    let (a, b, c) = (p.subrange(0, 4), p.subrange(4, 8), p.subrange(8, 12));
    assert(a == g1_absorbed(all[0]) && b == g1_absorbed(all[1]) && c == g1_absorbed(all[2]));
    assert(p =~= a + b + c);
}

/// The coefficient that combines a word's point and value is drawn from a fresh sponge
/// that was told both.
pub proof fn law_entry_challenge(config: PoseidonConfigView, r_i: Fr, v_i: Fr)
    ensures
        entry_challenge(config, r_i, v_i) == poseidon_output(config, told(Seq::empty(), seq![seq![r_i, v_i]]), 1)[0],
{
    assert(SpongeView::fresh(config).absorbed(seq![r_i, v_i]).log =~= told(Seq::empty(), seq![seq![r_i, v_i]]));
}

/// The challenge and the combination coefficient of a batch proof are drawn from a fresh
/// sponge that was told the commitments to all words, to their lengths, to the columns of
/// the lookup table and to points and values, and the chain of the fixed memories.
pub proof fn law_batch_challenges(
    config: PoseidonConfigView,
    claim: BatchClaim,
    hash_cm_f: Fr,
    kzg_vec_r: G1,
    kzg_vec_v: G1,
)
    ensures
        ({
            let a = g1_absorbed(claim.kzg_all_words) + g1_absorbed(claim.kzg_length) + g1_absorbed(claim.kzg_lk_col1)
                + g1_absorbed(claim.kzg_lk_col2) + g1_absorbed(kzg_vec_r) + g1_absorbed(kzg_vec_v) + seq![hash_cm_f];
            let out = poseidon_output(config, told(Seq::empty(), seq![a]), 2);
            batch_challenges(config, claim, hash_cm_f, kzg_vec_r, kzg_vec_v) == (out[0], out[1])
        }),
{
    let pts = seq![
        claim.kzg_all_words,
        claim.kzg_length,
        claim.kzg_lk_col1,
        claim.kzg_lk_col2,
        kzg_vec_r,
        kzg_vec_v,
    ];
    let a = g1_absorbed(claim.kzg_all_words) + g1_absorbed(claim.kzg_length) + g1_absorbed(claim.kzg_lk_col1)
        + g1_absorbed(claim.kzg_lk_col2) + g1_absorbed(kzg_vec_r) + g1_absorbed(kzg_vec_v) + seq![hash_cm_f];
    law_absorbed_points(pts);
    let p = points_elements(pts);
    assert(p.subrange(0, 4) == g1_absorbed(pts[0]));
    assert(p.subrange(4, 8) == g1_absorbed(pts[1]));
    assert(p.subrange(8, 12) == g1_absorbed(pts[2]));
    assert(p.subrange(12, 16) == g1_absorbed(pts[3]));
    assert(p.subrange(16, 20) == g1_absorbed(pts[4]));
    assert(p.subrange(20, 24) == g1_absorbed(pts[5]));
    assert(p =~= p.subrange(0, 4) + p.subrange(4, 8) + p.subrange(8, 12) + p.subrange(12, 16) + p.subrange(16, 20)
        + p.subrange(20, 24));
    assert(p + seq![hash_cm_f] =~= a);
    assert(SpongeView::fresh(config).absorbed(a).log =~= told(Seq::empty(), seq![a]));
}

proof fn lemma_points_told(s: SpongeView, pts: Seq<G1>, n: nat)
    requires
        n <= pts.len(),
    ensures
        points_absorbed(s, pts, n).config == s.config,
        points_absorbed(s, pts, n).log == told(s.log, Seq::new(n, |i: int| g1_absorbed(pts[i]))),
    decreases n,
{
    if n > 0 {
        lemma_points_told(s, pts, (n - 1) as nat);
        assert(points_absorbed(s, pts, n).log =~= told(s.log, Seq::new(n, |i: int| g1_absorbed(pts[i]))));
    } else {
        assert(s.log =~= told(s.log, Seq::new(0, |i: int| g1_absorbed(pts[i]))));
    }
}

/// The point at which the polynomial of all witnesses is evaluated is drawn from a fresh
/// sponge that was told the commitment to all witnesses, and then those of the instances:
/// to the witnesses of all circuits, to the errors of all, and to the fixed memories of
/// all.
pub proof fn law_kzg_challenge(config: PoseidonConfigView, insts: Seq<InstanceView>, com_all: G1)
    ensures
        ({
            let n = insts.len() as int;
            let parts = Seq::new(
                (3 * n + 1) as nat,
                |i: int|
                    if i == 0 {
                        g1_absorbed(com_all)
                    } else if i <= n {
                        g1_absorbed(insts[i - 1].cm_w)
                    } else if i <= 2 * n {
                        g1_absorbed(insts[i - 1 - n].cm_e)
                    } else {
                        g1_absorbed(insts[i - 1 - 2 * n].cm_f)
                    },
            );
            kzg_challenge(config, insts, com_all) == poseidon_output(config, told(Seq::empty(), parts), 1)[0]
        }),
{
    let n = insts.len() as int;
    let parts = Seq::new(
        (3 * n + 1) as nat,
        |i: int|
            if i == 0 {
                g1_absorbed(com_all)
            } else if i <= n {
                g1_absorbed(insts[i - 1].cm_w)
            } else if i <= 2 * n {
                g1_absorbed(insts[i - 1 - n].cm_e)
            } else {
                g1_absorbed(insts[i - 1 - 2 * n].cm_f)
            },
    );
    let (w, e, f) = (
        crate::decider_circuits::cms_w(insts),
        crate::decider_circuits::cms_e(insts),
        crate::decider_circuits::cms_f(insts),
    );
    let first = SpongeView::fresh(config).absorbed(g1_absorbed(com_all));
    let s1 = points_absorbed(first, w, n as nat);
    let s2 = points_absorbed(s1, e, n as nat);
    let s3 = points_absorbed(s2, f, n as nat);
    lemma_points_told(first, w, n as nat);
    lemma_points_told(s1, e, n as nat);
    lemma_points_told(s2, f, n as nat);
    assert(s3.log =~= told(Seq::empty(), parts));
}

/// What a sponge over the base field absorbs of an instance: `u` and the public values, two
/// elements for each, and the coordinates of the commitments to the error, to the witness
/// and to the fixed memory, zeros for infinity.
pub proof fn law_absorbed_by_base(u: InstanceView)
    ensures
        ({
            let (a, n) = (u.absorbed_by_base(), u.x.len() as int);
            &&& a.len() == 2 * n + 8
            &&& a.subrange(0, 2) == fr_absorbed(u.u)
            &&& forall|i: int| 0 <= i < n ==> a.subrange(2 * i + 2, 2 * i + 4) == fr_absorbed(#[trigger] u.x[i])
            &&& coordinates_at(a, 2 * n + 2, u.cm_e)
            &&& coordinates_at(a, 2 * n + 4, u.cm_w)
            &&& coordinates_at(a, 2 * n + 6, u.cm_f)
        }),
{
    lemma_units::<Fq>();
    lemma_powers();
    let (a, n) = (u.absorbed_by_base(), u.x.len() as int);
    lemma_frs_absorbed(u.x);
    let x = frs_absorbed(u.x);
    assert(fr_absorbed(u.u).len() == 2);
    assert(a.subrange(0, 2) =~= fr_absorbed(u.u));
    assert forall|i: int| 0 <= i < n implies a.subrange(2 * i + 2, 2 * i + 4) == fr_absorbed(#[trigger] u.x[i]) by {
        assert(a.subrange(2 * i + 2, 2 * i + 4) =~= x.subrange(2 * i, 2 * i + 2));
    }
}

/// Whether a point's coordinates stand at a place, zeros for infinity.
pub open spec fn coordinates_at(a: Seq<Fq>, at: int, p: G1) -> bool {
    match p {
        G1::Infinity => a[at].val() == 0 && a[at + 1].val() == 0,
        G1::Point(x, y) => a[at] == x && a[at + 1] == y,
    }
}

proof fn lemma_frs_absorbed(v: Seq<Fr>)
    ensures
        frs_absorbed(v).len() == 2 * v.len(),
        forall|i: int| 0 <= i < v.len() ==> frs_absorbed(v).subrange(2 * i, 2 * i + 2) == fr_absorbed(#[trigger] v[i]),
    decreases v.len(),
{
    lemma_powers();
    if v.len() > 0 {
        let (short, a) = (v.drop_last(), frs_absorbed(v));
        lemma_frs_absorbed(short);
        assert(fr_absorbed(v.last()).len() == 2);
        assert forall|i: int| 0 <= i < v.len() implies a.subrange(2 * i, 2 * i + 2) == fr_absorbed(#[trigger] v[i]) by {
            if i < short.len() {
                assert(short[i] == v[i]);
                assert(a.subrange(2 * i, 2 * i + 2) =~= frs_absorbed(short).subrange(2 * i, 2 * i + 2));
            } else {
                assert(a.subrange(2 * i, 2 * i + 2) =~= fr_absorbed(v[i]));
            }
        }
    }
}

/// The same for the instances of several circuits: what is absorbed of each, behind each
/// other, then two elements for the digest, two for the second one where there is one, and
/// two for the circuit that is noted.
pub proof fn law_instances_absorbed_by_base(u: InstanceSuperView, starts: Seq<int>, k: int)
    requires
        starts.len() == u.insts.len() + 1,
        starts[0] == 0,
        forall|i: int|
            0 <= i < u.insts.len() ==> starts[i + 1] == starts[i] + 2 * (#[trigger] u.insts[i]).x.len() + 8,
        0 <= k < u.insts.len(),
    ensures
        ({
            let a = u.absorbed_by_base();
            let n = starts[u.insts.len() as int];
            let m: int = if u.x_2 is Some {
                2
            } else {
                0
            };
            &&& a.len() == n + m + 4
            &&& 0 <= starts[k] <= starts[k + 1] <= n
            &&& a.subrange(starts[k], starts[k + 1]) == u.insts[k].absorbed_by_base()
            &&& a.subrange(n, n + 2) == fr_absorbed(u.x_1)
            &&& u.x_2 matches Some(x) ==> a.subrange(n + 2, n + 4) == fr_absorbed(x)
            &&& a.subrange(n + m + 2, n + m + 4) == fr_absorbed(u.pc_i)
        }),
{
    lemma_powers();
    lemma_base_instances(u.insts, starts, u.insts.len() as int, k);
    assert(u.insts.take(u.insts.len() as int) =~= u.insts);
    let (a, s, n) = (u.absorbed_by_base(), crate::instance_super::insts_absorbed_by_base(u.insts), starts[u.insts.len() as int]);
    assert(fr_absorbed(u.x_1).len() == 2 && fr_absorbed(u.pc_i).len() == 2);
    assert(a.subrange(starts[k], starts[k + 1]) =~= s.subrange(starts[k], starts[k + 1]));
    assert(a.subrange(n, n + 2) =~= fr_absorbed(u.x_1));
    if u.x_2 is Some {
        assert(fr_absorbed(u.x_2->0).len() == 2);
        assert(a.subrange(n + 2, n + 4) =~= fr_absorbed(u.x_2->0));
        assert(a.subrange(n + 4, n + 6) =~= fr_absorbed(u.pc_i));
    } else {
        assert(a.subrange(n + 2, n + 4) =~= fr_absorbed(u.pc_i));
    }
}

proof fn lemma_base_instances(insts: Seq<InstanceView>, starts: Seq<int>, n: int, k: int)
    requires
        starts.len() == insts.len() + 1,
        starts[0] == 0,
        forall|i: int|
            0 <= i < insts.len() ==> starts[i + 1] == starts[i] + 2 * (#[trigger] insts[i]).x.len() + 8,
        0 <= k < n <= insts.len(),
    ensures
        ({
            let s = crate::instance_super::insts_absorbed_by_base(insts.take(n));
            &&& s.len() == starts[n]
            &&& 0 <= starts[k] <= starts[k + 1] <= starts[n]
            &&& s.subrange(starts[k], starts[k + 1]) == insts[k].absorbed_by_base()
        }),
    decreases n,
{
    let p = insts.take(n);
    let s = crate::instance_super::insts_absorbed_by_base(p);
    assert(p.drop_last() =~= insts.take(n - 1));
    assert(p.last() == insts[n - 1]);
    law_absorbed_by_base(insts[n - 1]);
    law_absorbed_by_base(insts[k]);
    let own = insts[n - 1].absorbed_by_base();
    let before = crate::instance_super::insts_absorbed_by_base(insts.take(n - 1));
    if n == 1 {
        assert(insts.take(0) =~= Seq::empty());
        assert(s =~= own);
        assert(s.subrange(starts[0], starts[1]) =~= own);
    } else {
        let i: int = if k < n - 1 {
            k
        } else {
            n - 2
        };
        lemma_base_instances(insts, starts, n - 1, i);
        if k < n - 1 {
            assert(s.subrange(starts[k], starts[k + 1]) =~= before.subrange(starts[k], starts[k + 1]));
        } else {
            assert(s.subrange(starts[k], starts[k + 1]) =~= own);
        }
    }
}

} // verus!
