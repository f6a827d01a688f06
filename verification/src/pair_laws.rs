//! What the CyclePair circuit's constraints and public values mean, value by value.
use vstd::prelude::*;
use vstd::arithmetic::power2::pow2;
use crate::batch_laws::is_gt_one;
use crate::batch_laws::lemma_gt_one;
use crate::curve::g1_sub;
use crate::curve::gt_mul;
use crate::curve::pairing;
use crate::curve::Fq2;
use crate::curve::G1;
use crate::curve::G2;
use crate::cyclepair::g1_elements;
use crate::cyclepair::g2_elements;
use crate::cyclepair::pair_elements;
use crate::cyclepair::CyclePairCircuitView;
use crate::decider_laws::digits_at;
use crate::decider_laws::lemma_digits;
use crate::field::lemma_units;
use crate::field::lemma_val_injective;
use crate::field::FieldModel;
use crate::field_fq::Fq;
use crate::field_fr::Fr;
use crate::instance::InstanceView;
use crate::instance_super::chain_a;
use crate::instance_super::chain_b;
use crate::instance_super::commitments;
use crate::instance_super::cyclepair_row;
use crate::instance_super::fqs_limbs;
use crate::instance_super::paired_points;
use crate::instance_super::pairing_product;
use crate::limbs::fq_limbs;
use crate::sponge::poseidon_output;
use crate::sponge::PoseidonConfigView;
use crate::sponge::SpongeOpView;
use crate::transcript_laws::law_digests;
use crate::transcript_laws::told;

verus! {

/// Whether `x`, `y` and `infinite` are the elements that stand for a point of the first
/// group: its coordinates and zero, or two zeros and one for infinity.
pub open spec fn stands_for_g1(x: Fq, y: Fq, infinite: Fq, p: G1) -> bool {
    match p {
        G1::Infinity => x.val() == 0 && y.val() == 0 && infinite.val() == 1,
        G1::Point(px, py) => x == px && y == py && infinite.val() == 0,
    }
}

/// Whether the elements stand for a point of the second group: the two parts of each of
/// its coordinates and zero, or four zeros and one for infinity.
pub open spec fn stands_for_g2(x0: Fq, x1: Fq, y0: Fq, y1: Fq, infinite: Fq, p: G2) -> bool {
    match p {
        G2::Infinity => x0.val() == 0 && x1.val() == 0 && y0.val() == 0 && y1.val() == 0 && infinite.val() == 1,
        G2::Point(px, py) => x0 == px.c0 && x1 == px.c1 && y0 == py.c0 && y1 == py.c1 && infinite.val() == 0,
    }
}

/// Whether 32 public values are those for two target elements and two points: the twelve
/// coefficients of the first, three values for the point of the first group, five for that
/// of the second, and the twelve coefficients of the second target element.
pub open spec fn stand_for_pair(x: Seq<Fq>, gt1: Seq<Fq>, a: G1, b: G2, gt2: Seq<Fq>) -> bool {
    &&& x.len() == 32
    &&& forall|j: int| 0 <= j < 12 ==> #[trigger] x[j] == gt1[j]
    &&& stands_for_g1(x[12], x[13], x[14], a)
    &&& stands_for_g2(x[15], x[16], x[17], x[18], x[19], b)
    &&& forall|j: int| 20 <= j < 32 ==> #[trigger] x[j] == gt2[j - 20]
}

/// The public values for two target elements and two points have each of them at its
/// place, and are the only ones that do.
pub proof fn law_public_values_stand_for_pair(x: Seq<Fq>, gt1: Seq<Fq>, a: G1, b: G2, gt2: Seq<Fq>)
    requires
        gt1.len() == 12,
        gt2.len() == 12,
    ensures
        x == pair_elements(gt1, a, b, gt2) <==> stand_for_pair(x, gt1, a, b, gt2),
{
    lemma_units::<Fq>();
    let v = pair_elements(gt1, a, b, gt2);
    assert(v.len() == 32);
    assert forall|j: int| 0 <= j < 12 implies #[trigger] v[j] == gt1[j] by {}
    assert forall|j: int| 20 <= j < 32 implies #[trigger] v[j] == gt2[j - 20] by {}
    assert(stands_for_g1(v[12], v[13], v[14], a));
    assert(stands_for_g2(v[15], v[16], v[17], v[18], v[19], b));
    if stand_for_pair(x, gt1, a, b, gt2) {
        assert forall|j: int| 0 <= j < 32 implies #[trigger] x[j] == v[j] by {
            if 12 <= j < 20 {
                assert(x[j].val() == v[j].val());
                lemma_val_injective(x[j], v[j]);
            }
        }
        assert(x =~= v);
    }
}

/// A circuit's constraints hold exactly where the second target element is the first one
/// times the pairing of the two points, coefficient by coefficient, and the public values
/// stand for the four of them.
pub proof fn law_satisfied_is_pairing(c: CyclePairCircuitView)
    requires
        c.gt1.len() == 12,
        c.gt2.len() == 12,
    ensures
        c.satisfied() <==> {
            let product = gt_mul(c.gt1, pairing(c.a, c.b)->0);
            &&& pairing(c.a, c.b) is Some
            &&& product.len() == 12
            &&& forall|j: int| 0 <= j < 12 ==> #[trigger] c.gt2[j] == product[j]
            &&& stand_for_pair(c.x, c.gt1, c.a, c.b, c.gt2)
        },
{
    law_public_values_stand_for_pair(c.x, c.gt1, c.a, c.b, c.gt2);
    let product = gt_mul(c.gt1, pairing(c.a, c.b)->0);
    if product.len() == 12 && (forall|j: int| 0 <= j < 12 ==> #[trigger] c.gt2[j] == product[j]) {
        assert(product =~= c.gt2);
    }
}

/// For a target element and two points at most one second target element and one list of
/// public values are accepted.
pub proof fn law_pairing_determines_target(c: CyclePairCircuitView, d: CyclePairCircuitView)
    requires
        c.satisfied(),
        d.satisfied(),
        c.gt1 == d.gt1,
        c.a == d.a,
        c.b == d.b,
    ensures
        c.gt2 == d.gt2,
        c.x == d.x,
{
}

/// The circuit that is read from public values has its target elements and points from
/// their places, where coordinates of zero stand for infinity.
pub proof fn law_read_from_places(v: Seq<Fq>)
    requires
        v.len() == 32,
    ensures
        ({
            let c = CyclePairCircuitView::of_elements(v);
            let g1_zero = v[12].val() == 0 && v[13].val() == 0;
            let g2_zero = v[15].val() == 0 && v[16].val() == 0 && v[17].val() == 0 && v[18].val() == 0;
            &&& c.x == v
            &&& c.gt1.len() == 12
            &&& c.gt2.len() == 12
            &&& forall|j: int| 0 <= j < 12 ==> #[trigger] c.gt1[j] == v[j]
            &&& forall|j: int| 0 <= j < 12 ==> #[trigger] c.gt2[j] == v[j + 20]
            &&& c.a == if g1_zero {
                G1::Infinity
            } else {
                G1::Point(v[12], v[13])
            }
            &&& c.b == if g2_zero {
                G2::Infinity
            } else {
                G2::Point(Fq2 { c0: v[15], c1: v[16] }, Fq2 { c0: v[17], c1: v[18] })
            }
        }),
{
    lemma_units::<Fq>();
    let zero = crate::field::f_zero::<Fq>();
    assert forall|i: int| 0 <= i < 32 && (#[trigger] v[i]).val() == 0 implies v[i] == zero by {
        lemma_val_injective(v[i], zero);
    }
}

/// Whether `products` are the partial products of the pairings: one at first, then one more
/// pairing each, all of which have a value.
pub open spec fn are_products(products: Seq<Seq<Fq>>, a: Seq<G1>, b: Seq<G2>, n: nat) -> bool {
    &&& products.len() == n + 1
    &&& is_gt_one(products[0])
    &&& forall|k: int|
        0 <= k < n ==> {
            &&& (#[trigger] pairing(a[k], b[k])) is Some
            &&& products[k + 1] == gt_mul(products[k], pairing(a[k], b[k])->0)
        }
}

/// The product of pairings is the last of the partial products.
pub proof fn law_product_of_pairings(products: Seq<Seq<Fq>>, a: Seq<G1>, b: Seq<G2>, n: nat, k: nat)
    requires
        are_products(products, a, b, n),
        k <= n,
    ensures
        pairing_product(a, b, k) == Some(products[k as int]),
    decreases k,
{
    if k == 0 {
        lemma_gt_one(products[0]);
    } else {
        law_product_of_pairings(products, a, b, n, (k - 1) as nat);
        assert(pairing(a[k - 1], b[k - 1]) is Some);
    }
}

/// A product of pairings has no value where one of them has none.
pub proof fn law_product_needs_pairings(a: Seq<G1>, b: Seq<G2>, n: nat, k: int)
    requires
        0 <= k < n,
        pairing(a[k], b[k]) is None,
    ensures
        pairing_product(a, b, n) is None,
    decreases n,
{
    if k < n - 1 {
        law_product_needs_pairings(a, b, (n - 1) as nat, k);
    }
}

/// The points that are paired at the end of a computation: the commitment to all witnesses,
/// of each instance the commitments to the witness, the error and the fixed memory, and the
/// negative of the proof that they are for the same vectors.
pub proof fn law_paired_points(com_all: G1, insts: Seq<InstanceView>, prf: G1)
    ensures
        ({
            let p = paired_points(com_all, insts, prf);
            &&& p.len() == 3 * insts.len() + 2
            &&& p[0] == com_all
            &&& forall|k: int|
                0 <= k < insts.len() ==> {
                    &&& p[3 * k + 1] == (#[trigger] insts[k]).cm_w
                    &&& p[3 * k + 2] == insts[k].cm_e
                    &&& p[3 * k + 3] == insts[k].cm_f
                }
            &&& p[3 * insts.len() + 1int] == g1_sub(G1::Infinity, prf)
        }),
{
    law_commitments(insts);
    let (p, c) = (paired_points(com_all, insts, prf), commitments(insts));
    assert forall|k: int| 0 <= k < insts.len() implies {
        &&& p[3 * k + 1] == (#[trigger] insts[k]).cm_w
        &&& p[3 * k + 2] == insts[k].cm_e
        &&& p[3 * k + 3] == insts[k].cm_f
    } by {
        assert(p[3 * k + 1] == c[3 * k] && p[3 * k + 2] == c[3 * k + 1] && p[3 * k + 3] == c[3 * k + 2]);
    }
}

/// The commitments of instances: of each those to the witness, the error and the fixed
/// memory.
pub proof fn law_commitments(insts: Seq<InstanceView>)
    ensures
        ({
            let c = commitments(insts);
            &&& c.len() == 3 * insts.len()
            &&& forall|k: int|
                0 <= k < insts.len() ==> {
                    &&& c[3 * k] == (#[trigger] insts[k]).cm_w
                    &&& c[3 * k + 1] == insts[k].cm_e
                    &&& c[3 * k + 2] == insts[k].cm_f
                }
        }),
    decreases insts.len(),
{
    if insts.len() > 0 {
        let (front, n) = (insts.drop_last(), insts.len() - 1);
        law_commitments(front);
        let (c, d) = (commitments(insts), commitments(front));
        assert forall|k: int| 0 <= k < insts.len() implies {
            &&& c[3 * k] == (#[trigger] insts[k]).cm_w
            &&& c[3 * k + 1] == insts[k].cm_e
            &&& c[3 * k + 2] == insts[k].cm_f
        } by {
            if k < n {
                assert(front[k] == insts[k]);
                assert(c[3 * k] == d[3 * k] && c[3 * k + 1] == d[3 * k + 1] && c[3 * k + 2] == d[3 * k + 2]);
            }
        }
    }
}

/// Elements by their limbs: the five of each element from the fifth part of its place on.
pub proof fn law_limbs_of_elements(v: Seq<Fq>)
    ensures
        fqs_limbs(v).len() == 5 * v.len(),
        forall|k: int| 0 <= k < v.len() ==> digits_at(fqs_limbs(v), 5 * k, (#[trigger] v[k]).val()),
    decreases v.len(),
{
    if v.len() > 0 {
        let (front, n) = (v.drop_last(), v.len() - 1);
        law_limbs_of_elements(front);
        let (s, d) = (fqs_limbs(v), fqs_limbs(front));
        assert(fq_limbs(v[n]).len() == 5);
        assert(s.subrange(5 * n, 5 * n + 5) =~= fq_limbs(v[n]));
        lemma_digits(s, 5 * n, v[n]);
        assert forall|k: int| 0 <= k < v.len() implies digits_at(s, 5 * k, (#[trigger] v[k]).val()) by {
            if k < n {
                assert(front[k] == v[k]);
                assert(digits_at(d, 5 * k, v[k].val()));
                assert forall|i: int| 0 <= i < 5 implies (#[trigger] s[5 * k + i]).val() == (v[k].val() / pow2(
                    (55 * i) as nat,
                )) % pow2(55) by {
                    assert(d[5 * k + i].val() == (v[k].val() / pow2((55 * i) as nat)) % pow2(55));
                }
            }
        }
    }
}

/// What the word of the `i`-th pairing holds: the limbs of the elements that the CyclePair
/// circuit has for its public values, from the product of the pairings before it to that
/// with it, and then the links of the two chains before it and behind it.
pub proof fn law_pairing_word(config: PoseidonConfigView, a: Seq<G1>, b: Seq<G2>, i: int, x: Seq<Fq>)
    requires
        0 <= i,
        pairing_product(a, b, i as nat)->0.len() == 12,
        pairing_product(a, b, (i + 1) as nat)->0.len() == 12,
        stand_for_pair(
            x,
            pairing_product(a, b, i as nat)->0,
            a[i],
            b[i],
            pairing_product(a, b, (i + 1) as nat)->0,
        ),
    ensures
        ({
            let row = cyclepair_row(config, a, b, i);
            &&& row.len() == 164
            &&& forall|k: int| 0 <= k < 32 ==> digits_at(row, 5 * k, (#[trigger] x[k]).val())
            &&& row[160] == chain_a(config, a, i as nat)
            &&& row[161] == chain_b(config, b, i as nat)
            &&& row[162] == chain_a(config, a, (i + 1) as nat)
            &&& row[163] == chain_b(config, b, (i + 1) as nat)
        }),
{
    let (g, h) = (pairing_product(a, b, i as nat)->0, pairing_product(a, b, (i + 1) as nat)->0);
    law_public_values_stand_for_pair(x, g, a[i], b[i], h);
    let (p, q) = (g1_elements(a[i]), g2_elements(b[i]));
    lemma_limbs_join(g, p);
    lemma_limbs_join(g + p, q);
    lemma_limbs_join(g + p + q, h);
    law_limbs_of_elements(x);
    let row = cyclepair_row(config, a, b, i);
    let s = fqs_limbs(x);
    assert(row =~= s + seq![
        chain_a(config, a, i as nat),
        chain_b(config, b, i as nat),
        chain_a(config, a, (i + 1) as nat),
        chain_b(config, b, (i + 1) as nat),
    ]);
    assert forall|k: int| 0 <= k < 32 implies digits_at(row, 5 * k, (#[trigger] x[k]).val()) by {
        assert(digits_at(s, 5 * k, x[k].val()));
        assert forall|j: int| 0 <= j < 5 implies (#[trigger] row[5 * k + j]).val() == (x[k].val() / pow2(
            (55 * j) as nat,
        )) % pow2(55) by {
            assert(s[5 * k + j].val() == (x[k].val() / pow2((55 * j) as nat)) % pow2(55));
        }
    }
}

proof fn lemma_limbs_join(a: Seq<Fq>, b: Seq<Fq>)
    ensures
        fqs_limbs(a + b) == fqs_limbs(a) + fqs_limbs(b),
    decreases b.len(),
{
    if b.len() == 0 {
        assert(a + b =~= a);
        assert(fqs_limbs(a) + fqs_limbs(b) =~= fqs_limbs(a));
    } else {
        lemma_limbs_join(a, b.drop_last());
        assert((a + b).drop_last() =~= a + b.drop_last());
        assert(fqs_limbs(a + b) =~= fqs_limbs(a) + fqs_limbs(b));
    }
}

/// Whether `links` are the links of a chain of digests: zero at first, and then each the
/// digest of the one before with the limbs of the next point's elements, `x` being the
/// elements of the points.
pub open spec fn are_links(config: PoseidonConfigView, links: Seq<Fr>, x: Seq<Seq<Fq>>) -> bool {
    &&& links.len() == x.len() + 1
    &&& links[0].val() == 0
    &&& forall|k: int|
        0 <= k < x.len() ==> links[k + 1] == poseidon_output(
            config,
            seq![SpongeOpView::Absorb(seq![links[k]] + fqs_limbs(#[trigger] x[k]))],
            1,
        )[0]
}

/// The chains of the points that are paired: a link for each point, over its elements.
pub proof fn law_point_chains(
    config: PoseidonConfigView,
    a: Seq<G1>,
    b: Seq<G2>,
    xa: Seq<Seq<Fq>>,
    xb: Seq<Seq<Fq>>,
    la: Seq<Fr>,
    lb: Seq<Fr>,
    n: nat,
)
    requires
        xa.len() >= n,
        xb.len() >= n,
        forall|k: int|
            0 <= k < n ==> (#[trigger] xa[k]).len() == 3 && stands_for_g1(xa[k][0], xa[k][1], xa[k][2], a[k]),
        forall|k: int|
            0 <= k < n ==> (#[trigger] xb[k]).len() == 5 && stands_for_g2(
                xb[k][0],
                xb[k][1],
                xb[k][2],
                xb[k][3],
                xb[k][4],
                b[k],
            ),
        are_links(config, la, xa),
        are_links(config, lb, xb),
    ensures
        chain_a(config, a, n) == la[n as int],
        chain_b(config, b, n) == lb[n as int],
    decreases n,
{
    lemma_units::<Fr>();
    lemma_units::<Fq>();
    if n == 0 {
        lemma_val_injective(la[0], crate::field::f_zero::<Fr>());
        lemma_val_injective(lb[0], crate::field::f_zero::<Fr>());
    } else {
        law_point_chains(config, a, b, xa, xb, la, lb, (n - 1) as nat);
        let k = n - 1;
        let (p, q) = (xa[k], xb[k]);
        let (s, t) = (g1_elements(a[k]), g2_elements(b[k]));
        assert forall|j: int| 0 <= j < 3 implies p[j] == s[j] by {
            lemma_val_injective(p[j], s[j]);
        }
        assert forall|j: int| 0 <= j < 5 implies q[j] == t[j] by {
            lemma_val_injective(q[j], t[j]);
        }
        assert(p =~= s);
        assert(q =~= t);
        law_digests(config, la[k], fqs_limbs(p));
        law_digests(config, lb[k], fqs_limbs(q));
        assert(told(Seq::empty(), seq![seq![la[k]] + fqs_limbs(p)]) =~= seq![
            SpongeOpView::Absorb(seq![la[k]] + fqs_limbs(p)),
        ]);
        assert(told(Seq::empty(), seq![seq![lb[k]] + fqs_limbs(q)]) =~= seq![
            SpongeOpView::Absorb(seq![lb[k]] + fqs_limbs(q)),
        ]);
    }
}

} // verus!
