//! What a contract reads of the calldata.
use vstd::prelude::*;
use crate::bigint::le_digits;
use crate::bigint::le_value;
use crate::bigint::lemma_le_digits_len;
use crate::commitment::KZGProof;
use crate::curve::G1;
use crate::curve::G2;
use crate::decider::calldata;
use crate::decider::fr_words;
use crate::decider::g1_words;
use crate::decider::g2_words;
use crate::decider::instances_calldata;
use crate::decider::openings_calldata;
use crate::decider::Proof;
use crate::field::canonical;
use crate::field::lemma_units;
use crate::field::FieldModel;
use crate::field_fq::Fq;
use crate::field_fr::Fr;
use crate::instance::InstanceView;

verus! {

/// The number with the given bytes, most significant first.
pub open spec fn be_value(s: Seq<u8>) -> nat
    decreases s.len(),
{
    if s.len() == 0 {
        0
    } else {
        256 * be_value(s.drop_last()) + s.last() as nat
    }
}

/// The word `j` behind the four bytes of the signature, as a contract reads it: the number
/// of its 32 bytes, most significant first.
pub open spec fn word_at(data: Seq<u8>, j: int) -> nat {
    be_value(data.subrange(4 + 32 * j, 36 + 32 * j))
}

pub proof fn lemma_be_of_reversed(s: Seq<u8>)
    ensures
        be_value(s.reverse()) == le_value(s),
    decreases s.len(),
{
    if s.len() > 0 {
        lemma_be_of_reversed(s.drop_first());
        assert(s.reverse().drop_last() =~= s.drop_first().reverse());
    }
}

/// `256` to the power `k`.
pub open spec fn pow256(k: nat) -> nat
    decreases k,
{
    if k == 0 {
        1
    } else {
        256 * pow256((k - 1) as nat)
    }
}

pub proof fn lemma_digits_value(n: nat, k: nat)
    requires
        n < pow256(k),
    ensures
        le_value(le_digits(n, k)) == n,
    decreases k,
{
    if k > 0 {
        lemma_digits_value(n / 256, (k - 1) as nat);
        let s = le_digits(n, k);
        assert(s.drop_first() =~= le_digits(n / 256, (k - 1) as nat));
    }
}

pub proof fn lemma_pow256()
    ensures
        pow256(32) == 0x1_0000_0000_0000_0000_0000_0000_0000_0000_0000_0000_0000_0000_0000_0000_0000_0000nat,
{
    reveal_with_fuel(pow256, 33);
}

/// The bytes of a word.
spec fn number_word(n: nat) -> Seq<u8> {
    le_digits(n, 32).reverse()
}

proof fn lemma_number_word(n: nat)
    requires
        n < pow256(32),
    ensures
        number_word(n).len() == 32,
        be_value(number_word(n)) == n,
{
    lemma_le_digits_len(n, 32);
    lemma_be_of_reversed(le_digits(n, 32));
    lemma_digits_value(n, 32);
}

spec fn bytes_of(s: Seq<nat>) -> Seq<u8>
    decreases s.len(),
{
    if s.len() == 0 {
        Seq::empty()
    } else {
        bytes_of(s.drop_last()) + number_word(s.last())
    }
}

proof fn lemma_bytes_len(s: Seq<nat>)
    ensures
        bytes_of(s).len() == 32 * s.len(),
    decreases s.len(),
{
    if s.len() > 0 {
        lemma_bytes_len(s.drop_last());
        lemma_le_digits_len(s.last(), 32);
    }
}

proof fn lemma_bytes_at(s: Seq<nat>, j: int)
    requires
        0 <= j < s.len(),
    ensures
        bytes_of(s).len() == 32 * s.len(),
        bytes_of(s).subrange(32 * j, 32 * j + 32) == number_word(s[j]),
    decreases s.len(),
{
    lemma_bytes_len(s);
    lemma_bytes_len(s.drop_last());
    lemma_le_digits_len(s.last(), 32);
    if j < s.len() - 1 {
        lemma_bytes_at(s.drop_last(), j);
        assert(bytes_of(s).subrange(32 * j, 32 * j + 32) =~= bytes_of(s.drop_last()).subrange(32 * j, 32 * j + 32));
    } else {
        assert(bytes_of(s).subrange(32 * j, 32 * j + 32) =~= number_word(s[j]));
    }
}

proof fn lemma_bytes_join(a: Seq<nat>, b: Seq<nat>)
    ensures
        bytes_of(a + b) == bytes_of(a) + bytes_of(b),
    decreases b.len(),
{
    if b.len() == 0 {
        assert(a + b =~= a);
        assert(bytes_of(a) + bytes_of(b) =~= bytes_of(a));
    } else {
        lemma_bytes_join(a, b.drop_last());
        assert((a + b).drop_last() =~= a + b.drop_last());
        assert(bytes_of(a + b) =~= bytes_of(a) + bytes_of(b));
    }
}

proof fn lemma_one(n: nat)
    ensures
        bytes_of(seq![n]) == number_word(n),
{
    let s = seq![n];
    assert(s.drop_last() =~= Seq::empty());
    assert(bytes_of(s.drop_last()) + number_word(n) =~= number_word(n));
}

spec fn vals(v: Seq<Fr>) -> Seq<nat> {
    v.map_values(|x: Fr| x.val())
}

proof fn lemma_frs(v: Seq<Fr>)
    ensures
        fr_words(v) == bytes_of(vals(v)),
    decreases v.len(),
{
    if v.len() > 0 {
        lemma_frs(v.drop_last());
        assert(vals(v).drop_last() =~= vals(v.drop_last()));
        assert(vals(v).last() == v.last().val());
    }
}

/// The numbers of a point's coordinates, zeros for the point at infinity.
pub open spec fn g1_numbers(p: G1) -> (nat, nat) {
    match p {
        G1::Infinity => (0, 0),
        G1::Point(x, y) => (x.val(), y.val()),
    }
}

/// The numbers of a point's coordinates, of each first that of the coefficient of `u`,
/// zeros for the point at infinity.
pub open spec fn g2_numbers(p: G2) -> (nat, nat, nat, nat) {
    match p {
        G2::Infinity => (0, 0, 0, 0),
        G2::Point(x, y) => (x.c1.val(), x.c0.val(), y.c1.val(), y.c0.val()),
    }
}

spec fn g1_seq(p: G1) -> Seq<nat> {
    seq![g1_numbers(p).0, g1_numbers(p).1]
}

spec fn g2_seq(p: G2) -> Seq<nat> {
    seq![g2_numbers(p).0, g2_numbers(p).1, g2_numbers(p).2, g2_numbers(p).3]
}

proof fn lemma_g1(p: G1)
    ensures
        g1_words(p) == bytes_of(g1_seq(p)),
{
    lemma_units::<Fq>();
    let (a, b) = g1_numbers(p);
    lemma_bytes_join(seq![a], seq![b]);
    lemma_one(a);
    lemma_one(b);
    assert(seq![a] + seq![b] =~= g1_seq(p));
}

proof fn lemma_g2(p: G2)
    ensures
        g2_words(p) == bytes_of(g2_seq(p)),
{
    lemma_units::<Fq>();
    let (a, b, c, d) = g2_numbers(p);
    lemma_bytes_join(seq![a], seq![b]);
    lemma_bytes_join(seq![a] + seq![b], seq![c]);
    lemma_bytes_join(seq![a] + seq![b] + seq![c], seq![d]);
    lemma_one(a);
    lemma_one(b);
    lemma_one(c);
    lemma_one(d);
    assert(seq![a] + seq![b] + seq![c] + seq![d] =~= g2_seq(p));
}

#[verifier::opaque]
spec fn instances_seq(running: InstanceView, incoming: InstanceView, r: Fr) -> Seq<nat> {
    g1_seq(running.cm_w) + g1_seq(running.cm_e) + g1_seq(running.cm_f) + seq![running.u.val()] + seq![
        incoming.u.val(),
    ] + seq![r.val()] + vals(running.x) + g1_seq(incoming.cm_w) + g1_seq(incoming.cm_f) + vals(incoming.x)
}

proof fn lemma_instances(running: InstanceView, incoming: InstanceView, r: Fr)
    ensures
        instances_calldata(running, incoming, r) == bytes_of(instances_seq(running, incoming, r)),
{
    reveal(instances_seq);
    let s1 = g1_seq(running.cm_w);
    let s2 = s1 + g1_seq(running.cm_e);
    let s3 = s2 + g1_seq(running.cm_f);
    let s4 = s3 + seq![running.u.val()];
    let s5 = s4 + seq![incoming.u.val()];
    let s6 = s5 + seq![r.val()];
    let s7 = s6 + vals(running.x);
    let s8 = s7 + g1_seq(incoming.cm_w);
    let s9 = s8 + g1_seq(incoming.cm_f);
    lemma_g1(running.cm_w);
    lemma_g1(running.cm_e);
    lemma_g1(running.cm_f);
    lemma_g1(incoming.cm_w);
    lemma_g1(incoming.cm_f);
    lemma_one(running.u.val());
    lemma_one(incoming.u.val());
    lemma_one(r.val());
    lemma_frs(running.x);
    lemma_frs(incoming.x);
    lemma_bytes_join(s1, g1_seq(running.cm_e));
    lemma_bytes_join(s2, g1_seq(running.cm_f));
    lemma_bytes_join(s3, seq![running.u.val()]);
    lemma_bytes_join(s4, seq![incoming.u.val()]);
    lemma_bytes_join(s5, seq![r.val()]);
    lemma_bytes_join(s6, vals(running.x));
    lemma_bytes_join(s7, g1_seq(incoming.cm_w));
    lemma_bytes_join(s8, g1_seq(incoming.cm_f));
    lemma_bytes_join(s9, vals(incoming.x));
}

#[verifier::opaque]
spec fn openings_seq(c: Seq<Fr>, p: Seq<KZGProof>) -> Seq<nat> {
    seq![c[0].val()] + seq![c[1].val()] + seq![c[2].val()] + seq![p[0].eval.val()] + seq![p[1].eval.val()] + seq![
        p[2].eval.val(),
    ] + g1_seq(p[0].proof) + g1_seq(p[1].proof) + g1_seq(p[2].proof)
}

proof fn lemma_openings(c: Seq<Fr>, p: Seq<KZGProof>)
    ensures
        openings_calldata(c, p) == bytes_of(openings_seq(c, p)),
{
    reveal(openings_seq);
    let s1 = seq![c[0].val()];
    let s2 = s1 + seq![c[1].val()];
    let s3 = s2 + seq![c[2].val()];
    let s4 = s3 + seq![p[0].eval.val()];
    let s5 = s4 + seq![p[1].eval.val()];
    let s6 = s5 + seq![p[2].eval.val()];
    let s7 = s6 + g1_seq(p[0].proof);
    let s8 = s7 + g1_seq(p[1].proof);
    lemma_one(c[0].val());
    lemma_one(c[1].val());
    lemma_one(c[2].val());
    lemma_one(p[0].eval.val());
    lemma_one(p[1].eval.val());
    lemma_one(p[2].eval.val());
    lemma_g1(p[0].proof);
    lemma_g1(p[1].proof);
    lemma_g1(p[2].proof);
    lemma_bytes_join(s1, seq![c[1].val()]);
    lemma_bytes_join(s2, seq![c[2].val()]);
    lemma_bytes_join(s3, seq![p[0].eval.val()]);
    lemma_bytes_join(s4, seq![p[1].eval.val()]);
    lemma_bytes_join(s5, seq![p[2].eval.val()]);
    lemma_bytes_join(s6, g1_seq(p[0].proof));
    lemma_bytes_join(s7, g1_seq(p[1].proof));
    lemma_bytes_join(s8, g1_seq(p[2].proof));
}

#[verifier::opaque]
spec fn all_seq(
    i: Fr,
    z_0: Seq<Fr>,
    z_i: Seq<Fr>,
    running: InstanceView,
    incoming: InstanceView,
    proof: Proof,
    points: (G1, G2, G1),
) -> Seq<nat> {
    seq![i.val()] + vals(z_0) + vals(z_i) + instances_seq(running, incoming, proof.r) + g1_seq(proof.cm_t) + g1_seq(
        points.0,
    ) + g2_seq(points.1) + g1_seq(points.2) + openings_seq(proof.kzg_challenges@, proof.kzg_proofs@)
}

proof fn lemma_all(
    signature: Seq<u8>,
    i: Fr,
    z_0: Seq<Fr>,
    z_i: Seq<Fr>,
    running: InstanceView,
    incoming: InstanceView,
    proof: Proof,
    points: (G1, G2, G1),
)
    ensures
        calldata(signature, i, z_0, z_i, running, incoming, proof, points) == signature + bytes_of(
            all_seq(i, z_0, z_i, running, incoming, proof, points),
        ),
{
    reveal(all_seq);
    let inst = instances_seq(running, incoming, proof.r);
    let op = openings_seq(proof.kzg_challenges@, proof.kzg_proofs@);
    let s1 = seq![i.val()];
    let s2 = s1 + vals(z_0);
    let s3 = s2 + vals(z_i);
    let s4 = s3 + inst;
    let s5 = s4 + g1_seq(proof.cm_t);
    let s6 = s5 + g1_seq(points.0);
    let s7 = s6 + g2_seq(points.1);
    let s8 = s7 + g1_seq(points.2);
    lemma_one(i.val());
    lemma_frs(z_0);
    lemma_frs(z_i);
    lemma_instances(running, incoming, proof.r);
    lemma_g1(proof.cm_t);
    lemma_g1(points.0);
    lemma_g2(points.1);
    lemma_g1(points.2);
    lemma_openings(proof.kzg_challenges@, proof.kzg_proofs@);
    lemma_bytes_join(s1, vals(z_0));
    lemma_bytes_join(s2, vals(z_i));
    lemma_bytes_join(s3, inst);
    lemma_bytes_join(s4, g1_seq(proof.cm_t));
    lemma_bytes_join(s5, g1_seq(points.0));
    lemma_bytes_join(s6, g2_seq(points.1));
    lemma_bytes_join(s7, g1_seq(points.2));
    lemma_bytes_join(s8, op);
    assert(calldata(signature, i, z_0, z_i, running, incoming, proof, points) =~= signature + bytes_of(s8 + op));
}

/// Whether all numbers fit a word.
spec fn fit(s: Seq<nat>) -> bool {
    forall|j: int| 0 <= j < s.len() ==> (#[trigger] s[j]) < pow256(32)
}

proof fn lemma_word_at(signature: Seq<u8>, s: Seq<nat>, j: int)
    requires
        signature.len() == 4,
        0 <= j < s.len(),
        s[j] < pow256(32),
    ensures
        word_at(signature + bytes_of(s), j) == s[j],
{
    lemma_bytes_at(s, j);
    lemma_number_word(s[j]);
    let data = signature + bytes_of(s);
    assert(data.subrange(4 + 32 * j, 36 + 32 * j) =~= bytes_of(s).subrange(32 * j, 32 * j + 32));
}

/// Whether the words from `at` on are the numbers of the elements.
pub open spec fn reads(data: Seq<u8>, at: int, v: Seq<Fr>) -> bool {
    forall|j: int| 0 <= j < v.len() ==> word_at(data, at + j) == (#[trigger] v[j]).val()
}

/// Whether the two words from `at` on are the numbers of the point's coordinates.
pub open spec fn reads_g1(data: Seq<u8>, at: int, p: G1) -> bool {
    &&& word_at(data, at) == g1_numbers(p).0
    &&& word_at(data, at + 1) == g1_numbers(p).1
}

/// Whether a point's coordinates are held by integers below the modulus.
pub open spec fn canonical_g1(p: G1) -> bool {
    p matches G1::Point(x, y) ==> canonical(x) && canonical(y)
}

pub open spec fn canonical_g2(p: G2) -> bool {
    p matches G2::Point(x, y) ==> canonical(x.c0) && canonical(x.c1) && canonical(y.c0) && canonical(y.c1)
}

pub open spec fn canonical_all(v: Seq<Fr>) -> bool {
    forall|j: int| 0 <= j < v.len() ==> canonical(#[trigger] v[j])
}

pub open spec fn canonical_instance(u: InstanceView) -> bool {
    &&& canonical(u.u)
    &&& canonical_all(u.x)
    &&& canonical_g1(u.cm_e)
    &&& canonical_g1(u.cm_w)
    &&& canonical_g1(u.cm_f)
}

pub open spec fn canonical_proof(p: Proof) -> bool {
    &&& canonical(p.r)
    &&& canonical_g1(p.cm_t)
    &&& canonical_all(p.kzg_challenges@)
    &&& p.kzg_challenges@.len() >= 3
    &&& p.kzg_proofs@.len() >= 3
    &&& forall|j: int|
        0 <= j < p.kzg_proofs@.len() ==> canonical((#[trigger] p.kzg_proofs@[j]).eval) && canonical_g1(
            p.kzg_proofs@[j].proof,
        )
}

proof fn lemma_fit(
    i: Fr,
    z_0: Seq<Fr>,
    z_i: Seq<Fr>,
    running: InstanceView,
    incoming: InstanceView,
    proof: Proof,
    points: (G1, G2, G1),
)
    requires
        canonical(i),
        canonical_all(z_0),
        canonical_all(z_i),
        canonical_instance(running),
        canonical_instance(incoming),
        canonical_proof(proof),
        canonical_g1(points.0),
        canonical_g2(points.1),
        canonical_g1(points.2),
    ensures
        fit(all_seq(i, z_0, z_i, running, incoming, proof, points)),
{
    reveal(all_seq);
    lemma_pow256();
    Fr::lemma_modulus();
    Fq::lemma_modulus();
    assert forall|v: Seq<Fr>| canonical_all(v) implies fit(#[trigger] vals(v)) by {
        assert forall|j: int| 0 <= j < v.len() implies (#[trigger] vals(v)[j]) < pow256(32) by {
            assert(canonical(v[j]));
        }
    }
    let (c, p) = (proof.kzg_challenges@, proof.kzg_proofs@);
    assert(canonical(c[0]) && canonical(c[1]) && canonical(c[2]));
    assert(canonical(p[0].eval) && canonical(p[1].eval) && canonical(p[2].eval));
    assert(canonical_g1(p[0].proof) && canonical_g1(p[1].proof) && canonical_g1(p[2].proof));
    let inst = instances_seq(running, incoming, proof.r);
    let op = openings_seq(c, p);
    assert(fit(inst)) by {
        lemma_inst_places(running, incoming, proof.r);
        assert forall|j: int| 0 <= j < inst.len() implies (#[trigger] inst[j]) < pow256(32) by {
            let (n, m) = (running.x.len() as int, incoming.x.len() as int);
            if 9 <= j < 9 + n {
                assert(inst[9 + (j - 9)] == running.x[j - 9].val());
                assert(canonical(running.x[j - 9]));
            } else if 13 + n <= j {
                assert(inst[13 + n + (j - 13 - n)] == incoming.x[j - 13 - n].val());
                assert(canonical(incoming.x[j - 13 - n]));
            }
        }
    }
    assert(fit(op)) by {
        lemma_op_places(c, p);
    }
    assert(fit(seq![i.val()]));
    assert(fit(vals(z_0)) && fit(vals(z_i)));
    assert(fit(g1_seq(proof.cm_t)) && fit(g1_seq(points.0)) && fit(g2_seq(points.1)) && fit(g1_seq(points.2)));
    let s1 = seq![i.val()];
    let s2 = s1 + vals(z_0);
    let s3 = s2 + vals(z_i);
    let s4 = s3 + inst;
    let s5 = s4 + g1_seq(proof.cm_t);
    let s6 = s5 + g1_seq(points.0);
    let s7 = s6 + g2_seq(points.1);
    let s8 = s7 + g1_seq(points.2);
    lemma_fit_join(s1, vals(z_0));
    lemma_fit_join(s2, vals(z_i));
    lemma_fit_join(s3, inst);
    lemma_fit_join(s4, g1_seq(proof.cm_t));
    lemma_fit_join(s5, g1_seq(points.0));
    lemma_fit_join(s6, g2_seq(points.1));
    lemma_fit_join(s7, g1_seq(points.2));
    lemma_fit_join(s8, op);
}

proof fn lemma_fit_join(a: Seq<nat>, b: Seq<nat>)
    requires
        fit(a),
        fit(b),
    ensures
        fit(a + b),
{
    assert forall|j: int| 0 <= j < (a + b).len() implies (#[trigger] (a + b)[j]) < pow256(32) by {
        if j < a.len() {
            assert((a + b)[j] == a[j]);
        } else {
            assert((a + b)[j] == b[j - a.len()]);
        }
    }
}

proof fn lemma_inst_places(running: InstanceView, incoming: InstanceView, r: Fr)
    ensures
        ({
            let s = instances_seq(running, incoming, r);
            let n = running.x.len() as int;
            &&& s.len() == n + 13 + incoming.x.len()
            &&& s[0] == g1_numbers(running.cm_w).0
            &&& s[1] == g1_numbers(running.cm_w).1
            &&& s[2] == g1_numbers(running.cm_e).0
            &&& s[3] == g1_numbers(running.cm_e).1
            &&& s[4] == g1_numbers(running.cm_f).0
            &&& s[5] == g1_numbers(running.cm_f).1
            &&& s[6] == running.u.val()
            &&& s[7] == incoming.u.val()
            &&& s[8] == r.val()
            &&& forall|j: int| 0 <= j < n ==> s[9 + j] == (#[trigger] running.x[j]).val()
            &&& s[n + 9] == g1_numbers(incoming.cm_w).0
            &&& s[n + 10] == g1_numbers(incoming.cm_w).1
            &&& s[n + 11] == g1_numbers(incoming.cm_f).0
            &&& s[n + 12] == g1_numbers(incoming.cm_f).1
            &&& forall|j: int| 0 <= j < incoming.x.len() ==> s[13 + n + j] == (#[trigger] incoming.x[j]).val()
        }),
{
    reveal(instances_seq);
    let s = instances_seq(running, incoming, r);
    let n = running.x.len() as int;
    assert forall|j: int| 0 <= j < n implies s[9 + j] == (#[trigger] running.x[j]).val() by {
        assert(s[9 + j] == vals(running.x)[j]);
    }
    assert forall|j: int| 0 <= j < incoming.x.len() implies s[13 + n + j] == (#[trigger] incoming.x[j]).val() by {
        assert(s[13 + n + j] == vals(incoming.x)[j]);
    }
}

proof fn lemma_op_places(c: Seq<Fr>, p: Seq<KZGProof>)
    ensures
        ({
            let s = openings_seq(c, p);
            &&& s.len() == 12
            &&& s[0] == c[0].val()
            &&& s[1] == c[1].val()
            &&& s[2] == c[2].val()
            &&& s[3] == p[0].eval.val()
            &&& s[4] == p[1].eval.val()
            &&& s[5] == p[2].eval.val()
            &&& s[6] == g1_numbers(p[0].proof).0
            &&& s[7] == g1_numbers(p[0].proof).1
            &&& s[8] == g1_numbers(p[1].proof).0
            &&& s[9] == g1_numbers(p[1].proof).1
            &&& s[10] == g1_numbers(p[2].proof).0
            &&& s[11] == g1_numbers(p[2].proof).1
        }),
{
    reveal(openings_seq);
}

/// Where the parts stand among the words.
proof fn lemma_all_places(
    i: Fr,
    z_0: Seq<Fr>,
    z_i: Seq<Fr>,
    running: InstanceView,
    incoming: InstanceView,
    proof: Proof,
    points: (G1, G2, G1),
)
    ensures
        ({
            let s = all_seq(i, z_0, z_i, running, incoming, proof, points);
            let (inst, op) = (
                instances_seq(running, incoming, proof.r),
                openings_seq(proof.kzg_challenges@, proof.kzg_proofs@),
            );
            let a = 1int + z_0.len() + z_i.len();
            let c = a + inst.len();
            &&& s.len() == c + 10 + op.len()
            &&& s[0] == i.val()
            &&& forall|j: int| 0 <= j < z_0.len() ==> s[1 + j] == (#[trigger] z_0[j]).val()
            &&& forall|j: int| 0 <= j < z_i.len() ==> s[1 + z_0.len() + j] == (#[trigger] z_i[j]).val()
            &&& forall|j: int| 0 <= j < inst.len() ==> s[a + j] == #[trigger] inst[j]
            &&& s[c] == g1_numbers(proof.cm_t).0
            &&& s[c + 1] == g1_numbers(proof.cm_t).1
            &&& s[c + 2] == g1_numbers(points.0).0
            &&& s[c + 3] == g1_numbers(points.0).1
            &&& s[c + 4] == g2_numbers(points.1).0
            &&& s[c + 5] == g2_numbers(points.1).1
            &&& s[c + 6] == g2_numbers(points.1).2
            &&& s[c + 7] == g2_numbers(points.1).3
            &&& s[c + 8] == g1_numbers(points.2).0
            &&& s[c + 9] == g1_numbers(points.2).1
            &&& forall|j: int| 0 <= j < op.len() ==> s[c + 10 + j] == #[trigger] op[j]
        }),
{
    reveal(all_seq);
    let s = all_seq(i, z_0, z_i, running, incoming, proof, points);
    assert forall|j: int| 0 <= j < z_0.len() implies s[1 + j] == (#[trigger] z_0[j]).val() by {
        assert(s[1 + j] == vals(z_0)[j]);
    }
    assert forall|j: int| 0 <= j < z_i.len() implies s[1 + z_0.len() + j] == (#[trigger] z_i[j]).val() by {
        assert(s[1 + z_0.len() + j] == vals(z_i)[j]);
    }
}

/// Whether a contract reads the given values of the calldata, word by word.
pub open spec fn contract_reads(
    data: Seq<u8>,
    i: Fr,
    z_0: Seq<Fr>,
    z_i: Seq<Fr>,
    running: InstanceView,
    incoming: InstanceView,
    proof: Proof,
    points: (G1, G2, G1),
) -> bool {
    let a = 1int + z_0.len() + z_i.len();
    let b = a + 9 + running.x.len();
    let c = b + 4 + incoming.x.len();
    &&& data.len() == 4 + 32 * (c + 22)
    &&& word_at(data, 0) == i.val()
    &&& reads(data, 1, z_0)
    &&& reads(data, 1int + z_0.len(), z_i)
    &&& reads_g1(data, a, running.cm_w)
    &&& reads_g1(data, a + 2, running.cm_e)
    &&& reads_g1(data, a + 4, running.cm_f)
    &&& word_at(data, a + 6) == running.u.val()
    &&& word_at(data, a + 7) == incoming.u.val()
    &&& word_at(data, a + 8) == proof.r.val()
    &&& reads(data, a + 9, running.x)
    &&& reads_g1(data, b, incoming.cm_w)
    &&& reads_g1(data, b + 2, incoming.cm_f)
    &&& reads(data, b + 4, incoming.x)
    &&& reads_g1(data, c, proof.cm_t)
    &&& reads_g1(data, c + 2, points.0)
    &&& word_at(data, c + 4) == g2_numbers(points.1).0
    &&& word_at(data, c + 5) == g2_numbers(points.1).1
    &&& word_at(data, c + 6) == g2_numbers(points.1).2
    &&& word_at(data, c + 7) == g2_numbers(points.1).3
    &&& reads_g1(data, c + 8, points.2)
    &&& word_at(data, c + 10) == proof.kzg_challenges@[0].val()
    &&& word_at(data, c + 11) == proof.kzg_challenges@[1].val()
    &&& word_at(data, c + 12) == proof.kzg_challenges@[2].val()
    &&& word_at(data, c + 13) == proof.kzg_proofs@[0].eval.val()
    &&& word_at(data, c + 14) == proof.kzg_proofs@[1].eval.val()
    &&& word_at(data, c + 15) == proof.kzg_proofs@[2].eval.val()
    &&& reads_g1(data, c + 16, proof.kzg_proofs@[0].proof)
    &&& reads_g1(data, c + 18, proof.kzg_proofs@[1].proof)
    &&& reads_g1(data, c + 20, proof.kzg_proofs@[2].proof)
}

proof fn lemma_reads(
    data: Seq<u8>,
    i: Fr,
    z_0: Seq<Fr>,
    z_i: Seq<Fr>,
    running: InstanceView,
    incoming: InstanceView,
    proof: Proof,
    points: (G1, G2, G1),
)
    requires
        ({
            let s = all_seq(i, z_0, z_i, running, incoming, proof, points);
            &&& data.len() == 4 + 32 * s.len()
            &&& forall|j: int| 0 <= j < s.len() ==> word_at(data, j) == #[trigger] s[j]
        }),
    ensures
        contract_reads(data, i, z_0, z_i, running, incoming, proof, points),
{
    let s = all_seq(i, z_0, z_i, running, incoming, proof, points);
    let a = 1int + z_0.len() + z_i.len();
    let b = a + 9 + running.x.len();
    let c = b + 4 + incoming.x.len();
    let (ch, p) = (proof.kzg_challenges@, proof.kzg_proofs@);
    let (inst, op) = (instances_seq(running, incoming, proof.r), openings_seq(ch, p));
    lemma_all_places(i, z_0, z_i, running, incoming, proof, points);
    lemma_inst_places(running, incoming, proof.r);
    lemma_op_places(ch, p);
    assert(s.len() == c + 22);
    assert(s[a + 0] == inst[0] && s[a + 1] == inst[1] && s[a + 2] == inst[2] && s[a + 3] == inst[3]);
    assert(s[a + 4] == inst[4] && s[a + 5] == inst[5] && s[a + 6] == inst[6] && s[a + 7] == inst[7]);
    assert(s[a + 8] == inst[8]);
    let n = running.x.len() as int;
    assert(s[a + (n + 9)] == inst[n + 9] && s[a + (n + 10)] == inst[n + 10]);
    assert(s[a + (n + 11)] == inst[n + 11] && s[a + (n + 12)] == inst[n + 12]);
    assert(s[c + 10 + 0] == op[0] && s[c + 10 + 1] == op[1] && s[c + 10 + 2] == op[2] && s[c + 10 + 3] == op[3]);
    assert(s[c + 10 + 4] == op[4] && s[c + 10 + 5] == op[5] && s[c + 10 + 6] == op[6] && s[c + 10 + 7] == op[7]);
    assert(s[c + 10 + 8] == op[8] && s[c + 10 + 9] == op[9] && s[c + 10 + 10] == op[10] && s[c + 10 + 11] == op[11]);
    assert forall|j: int| 0 <= j < z_0.len() implies word_at(data, 1 + j) == (#[trigger] z_0[j]).val() by {
        assert(word_at(data, 1 + j) == s[1 + j]);
    }
    assert forall|j: int| 0 <= j < z_i.len() implies word_at(data, 1int + z_0.len() + j) == (#[trigger] z_i[j]).val() by {
        assert(word_at(data, 1int + z_0.len() + j) == s[1int + z_0.len() + j]);
    }
    assert forall|j: int| 0 <= j < running.x.len() implies word_at(data, a + 9 + j) == (#[trigger] running.x[j]).val() by {
        assert(s[a + (9 + j)] == inst[9 + j]);
        assert(word_at(data, a + 9 + j) == s[a + 9 + j]);
    }
    assert forall|j: int| 0 <= j < incoming.x.len() implies word_at(data, b + 4 + j) == (#[trigger] incoming.x[j]).val() by {
        assert(s[a + (13 + n + j)] == inst[13 + n + j]);
        assert(word_at(data, b + 4 + j) == s[b + 4 + j]);
    }
    assert(reads_g1(data, a, running.cm_w));
    assert(reads_g1(data, b, incoming.cm_w));
}

/// What a contract reads of the calldata, word by word: the number of steps, the states,
/// the running instance's commitments to the witness, the error and the fixed memory, `u`
/// of both instances and the challenge, the running instance's public values, the incoming
/// instance's commitments to the witness and to the fixed memory and its public values,
/// the commitment to the cross term, the three points of the circuit's proof, and the
/// openings: where, the values, the proofs.
pub proof fn law_contract_reads_calldata(
    signature: Seq<u8>,
    i: Fr,
    z_0: Seq<Fr>,
    z_i: Seq<Fr>,
    running: InstanceView,
    incoming: InstanceView,
    proof: Proof,
    points: (G1, G2, G1),
)
    requires
        signature.len() == 4,
        canonical(i),
        canonical_all(z_0),
        canonical_all(z_i),
        canonical_instance(running),
        canonical_instance(incoming),
        canonical_proof(proof),
        canonical_g1(points.0),
        canonical_g2(points.1),
        canonical_g1(points.2),
    ensures
        ({
            let data = calldata(signature, i, z_0, z_i, running, incoming, proof, points);
            &&& data.subrange(0, 4) == signature
            &&& contract_reads(data, i, z_0, z_i, running, incoming, proof, points)
        }),
{
    let data = calldata(signature, i, z_0, z_i, running, incoming, proof, points);
    let s = all_seq(i, z_0, z_i, running, incoming, proof, points);
    lemma_all(signature, i, z_0, z_i, running, incoming, proof, points);
    lemma_fit(i, z_0, z_i, running, incoming, proof, points);
    lemma_bytes_len(s);
    assert(data.subrange(0, 4) =~= signature);
    assert forall|j: int| 0 <= j < s.len() implies word_at(data, j) == #[trigger] s[j] by {
        lemma_word_at(signature, s, j);
    }
    lemma_reads(data, i, z_0, z_i, running, incoming, proof, points);
}

} // verus!
