//! What acceptance by the deciders means: which values the circuit's proof is for, and which
//! commitments are opened where.
use vstd::prelude::*;
use vstd::arithmetic::power2::pow2;
use crate::commitment::KZGProof;
use crate::commitment::OpeningProver;
use crate::commitment::OpeningVerifier;
use crate::curve::G1;
use crate::decider::groth16_verdict;
use crate::decider::instance_input;
use crate::decider::instances_input;
use crate::decider::key_framed;
use crate::decider::public_input;
use crate::decider::snark_outcome;
use crate::decider::DeciderFoldPot;
use crate::decider::DeciderFoldPotSuper;
use crate::decider::DeciderVerifierParams;
use crate::decider::Openings;
use crate::decider::Proof;
use crate::error::ErrorView;
use crate::field::lemma_units;
use crate::field::lemma_val_injective;
use crate::field::FieldModel;
use crate::field_fq::Fq;
use crate::field_fr::Fr;
use crate::fold_laws::is_instance_fold;
use crate::fold_laws::law_instance_fold;
use crate::instance::InstanceView;
use crate::instance_super::InstanceSuperView;
use crate::limbs::fq_limbs;
use crate::limbs::g1_limbs;
use crate::limbs::lemma_powers;

verus! {

/// Whether the five values from place `at` on are the digits of `n` in base `2^55`, least
/// significant first.
pub open spec fn digits_at(v: Seq<Fr>, at: int, n: nat) -> bool {
    forall|k: int|
        0 <= k < 5 ==> (#[trigger] v[at + k]).val() == (n / pow2((55 * k) as nat)) % pow2(55)
}

/// Whether the ten values from place `at` on are the digits of a point's coordinates, zeros
/// for the point at infinity.
pub open spec fn point_at(v: Seq<Fr>, at: int, p: G1) -> bool {
    match p {
        G1::Infinity => forall|k: int| 0 <= k < 10 ==> (#[trigger] v[at + k]).val() == 0,
        G1::Point(x, y) => digits_at(v, at, x.val()) && digits_at(v, at + 5, y.val()),
    }
}

/// Whether the values from place `at` on are those of `s`.
pub open spec fn list_at(v: Seq<Fr>, at: int, s: Seq<Fr>) -> bool {
    0 <= at && at + s.len() <= v.len() && forall|k: int| 0 <= k < s.len() ==> v[at + k] == #[trigger] s[k]
}

/// Whether an instance stands from place `at` on: `u`, its public values, and the
/// commitments to the error, the witness and the fixed memory.
pub open spec fn instance_at(v: Seq<Fr>, at: int, u: InstanceView) -> bool {
    let n = u.x.len();
    &&& v[at] == u.u
    &&& list_at(v, at + 1, u.x)
    &&& point_at(v, at + 1 + n, u.cm_e)
    &&& point_at(v, at + 11 + n, u.cm_w)
    &&& point_at(v, at + 21 + n, u.cm_f)
}

/// Whether the twenty values from place `at` on are what a proof of the decider gives of
/// itself: where the openings are, the values of the openings of error, witness, fixed
/// memory and lookup columns, the cross term's commitment and the challenge.
pub open spec fn proof_at(v: Seq<Fr>, at: int, p: Proof) -> bool {
    &&& v[at] == p.kzg_challenges@[0]
    &&& v[at + 1] == p.kzg_challenges@[1]
    &&& v[at + 2] == p.kzg_challenges@[2]
    &&& v[at + 3] == p.kzg_challenges@[3]
    &&& v[at + 4] == p.kzg_proofs@[1].eval
    &&& v[at + 5] == p.kzg_proofs@[0].eval
    &&& v[at + 6] == p.kzg_proofs@[2].eval
    &&& v[at + 7] == p.kzg_proofs@[3].eval
    &&& v[at + 8] == p.kzg_proofs@[4].eval
    &&& point_at(v, at + 9, p.cm_t)
    &&& v[at + 19] == p.r
}

/// Whether `v` starts with the digest of the parameters, the number of steps, the first and
/// the last state.
pub open spec fn starts_with(v: Seq<Fr>, pp_hash: Fr, i: Fr, z_0: Seq<Fr>, z_i: Seq<Fr>) -> bool {
    &&& v.len() >= 2 + z_0.len() + z_i.len()
    &&& v[0] == pp_hash
    &&& v[1] == i
    &&& list_at(v, 2, z_0)
    &&& list_at(v, 2int + z_0.len(), z_i)
}

pub proof fn lemma_digits(v: Seq<Fr>, at: int, a: Fq)
    requires
        0 <= at,
        at + 5 <= v.len(),
    ensures
        fq_limbs(a).len() == 5,
        v.subrange(at, at + 5) == fq_limbs(a) <==> digits_at(v, at, a.val()),
{
    lemma_powers();
    let (s, t, n) = (v.subrange(at, at + 5), fq_limbs(a), a.val());
    assert forall|k: int| 0 <= k < 5 implies (#[trigger] t[k]).val() == (n / pow2((55 * k) as nat)) % pow2(55) by {
        vstd::arithmetic::div_mod::lemma_mod_bound((n / pow2((55 * k) as nat)) as int, pow2(55) as int);
        Fr::lemma_val_of((n / pow2((55 * k) as nat)) % pow2(55));
    }
    if digits_at(v, at, n) {
        assert forall|k: int| 0 <= k < 5 implies s[k] == t[k] by {
            assert(v[at + k].val() == t[k].val());
            lemma_val_injective(s[k], t[k]);
        }
        assert(s =~= t);
    }
    if s == t {
        assert forall|k: int| 0 <= k < 5 implies (#[trigger] v[at + k]).val() == (n / pow2((55 * k) as nat)) % pow2(
            55,
        ) by {
            assert(s[k] == t[k]);
        }
    }
}

pub proof fn lemma_point(v: Seq<Fr>, at: int, p: G1)
    requires
        0 <= at,
        at + 10 <= v.len(),
    ensures
        g1_limbs(p).len() == 10,
        v.subrange(at, at + 10) == g1_limbs(p) <==> point_at(v, at, p),
{
    lemma_units::<Fq>();
    lemma_powers();
    let (x, y) = p.xy();
    lemma_digits(v, at, x);
    lemma_digits(v, at + 5, y);
    let (s, t) = (v.subrange(at, at + 10), g1_limbs(p));
    assert(s.subrange(0, 5) =~= v.subrange(at, at + 5));
    assert(s.subrange(5, 10) =~= v.subrange(at + 5, at + 10));
    assert(t.subrange(0, 5) =~= fq_limbs(x));
    assert(t.subrange(5, 10) =~= fq_limbs(y));
    assert(s =~= s.subrange(0, 5) + s.subrange(5, 10));
    if p is Infinity {
        assert forall|k: int| 0 <= k < 5 implies (#[trigger] pow2((55 * k) as nat)) > 0 && 0nat / pow2(
            (55 * k) as nat,
        ) == 0 by {
            vstd::arithmetic::power2::lemma_pow2_pos((55 * k) as nat);
            vstd::arithmetic::div_mod::lemma_div_basics(pow2((55 * k) as nat) as int);
        }
        vstd::arithmetic::div_mod::lemma_small_mod(0, pow2(55));
        if point_at(v, at, p) {
            assert forall|k: int| 0 <= k < 5 implies (#[trigger] v[at + 5 + k]).val() == 0 by {
                assert(v[at + (5 + k)].val() == 0);
            }
            assert(digits_at(v, at, 0));
            assert(digits_at(v, at + 5, 0));
        }
        if digits_at(v, at, 0) && digits_at(v, at + 5, 0) {
            assert forall|k: int| 0 <= k < 10 implies (#[trigger] v[at + k]).val() == 0 by {
                if k < 5 {
                    assert(pow2((55 * k) as nat) > 0);
                } else {
                    assert(pow2((55 * (k - 5)) as nat) > 0);
                    assert(v[at + 5 + (k - 5)].val() == 0);
                }
            }
        }
    }
}

proof fn lemma_list(v: Seq<Fr>, at: int, s: Seq<Fr>)
    requires
        0 <= at,
        at + s.len() <= v.len(),
    ensures
        v.subrange(at, at + s.len()) == s <==> list_at(v, at, s),
{
    let t = v.subrange(at, at + s.len() as int);
    if list_at(v, at, s) {
        assert forall|k: int| 0 <= k < s.len() implies t[k] == s[k] by {}
        assert(t =~= s);
    }
    if t == s {
        assert forall|k: int| 0 <= k < s.len() implies v[at + k] == #[trigger] s[k] by {
            assert(t[k] == s[k]);
        }
    }
}

proof fn lemma_instance(v: Seq<Fr>, at: int, u: InstanceView)
    requires
        0 <= at,
        at + 31 + u.x.len() <= v.len(),
        instance_at(v, at, u),
    ensures
        v.subrange(at, at + 31 + u.x.len()) == instance_input(u),
{
    let n = u.x.len() as int;
    lemma_list(v, at + 1, u.x);
    lemma_point(v, at + 1 + n, u.cm_e);
    lemma_point(v, at + 11 + n, u.cm_w);
    lemma_point(v, at + 21 + n, u.cm_f);
    let head = v.subrange(at, at + 1);
    assert(head =~= seq![u.u]);
    assert(v.subrange(at, at + 31 + n) =~= head + v.subrange(at + 1, at + 1 + n) + v.subrange(at + 1 + n, at + 11 + n)
        + v.subrange(at + 11 + n, at + 21 + n) + v.subrange(at + 21 + n, at + 31 + n));
}

proof fn lemma_proof(v: Seq<Fr>, at: int, p: Proof)
    requires
        0 <= at,
        at + 20 == v.len(),
        proof_at(v, at, p),
    ensures
        v.subrange(at, at + 20) == p.kzg_challenges@ + seq![
            p.kzg_proofs@[1].eval,
            p.kzg_proofs@[0].eval,
            p.kzg_proofs@[2].eval,
            p.kzg_proofs@[3].eval,
            p.kzg_proofs@[4].eval,
        ] + g1_limbs(p.cm_t) + seq![p.r],
{
    lemma_point(v, at + 9, p.cm_t);
    let c = v.subrange(at, at + 4);
    let e = v.subrange(at + 4, at + 9);
    let l = v.subrange(at + 19, at + 20);
    assert(c =~= p.kzg_challenges@) by {
        assert forall|k: int| 0 <= k < 4 implies c[k] == p.kzg_challenges@[k] by {
            assert(k == 0 || k == 1 || k == 2 || k == 3);
        }
    }
    assert(e =~= seq![
        p.kzg_proofs@[1].eval,
        p.kzg_proofs@[0].eval,
        p.kzg_proofs@[2].eval,
        p.kzg_proofs@[3].eval,
        p.kzg_proofs@[4].eval,
    ]);
    assert(l =~= seq![p.r]);
    assert(v.subrange(at, at + 20) =~= c + e + v.subrange(at + 9, at + 19) + l);
}

/// Values in their places are the public inputs.
proof fn lemma_input(v: Seq<Fr>, pp_hash: Fr, i: Fr, z_0: Seq<Fr>, z_i: Seq<Fr>, inst: Seq<Fr>, p: Proof)
    requires
        v.len() == 22 + z_0.len() + z_i.len() + inst.len(),
        starts_with(v, pp_hash, i, z_0, z_i),
        v.subrange(2int + z_0.len() + z_i.len(), 2int + z_0.len() + z_i.len() + inst.len()) == inst,
        proof_at(v, 2int + z_0.len() + z_i.len() + inst.len(), p),
    ensures
        v == public_input(pp_hash, i, z_0, z_i, inst, p),
{
    let (a, b, m) = (z_0.len() as int, z_i.len() as int, inst.len() as int);
    lemma_list(v, 2, z_0);
    lemma_list(v, 2 + a, z_i);
    lemma_proof(v, 2 + a + b + m, p);
    let head = v.subrange(0, 2);
    assert(head =~= seq![pp_hash, i]);
    let tail = v.subrange(2 + a + b + m, 22 + a + b + m);
    assert(v =~= head + v.subrange(2, 2 + a) + v.subrange(2 + a, 2 + a + b) + v.subrange(2 + a + b, 2 + a + b + m)
        + tail);
    let w = public_input(pp_hash, i, z_0, z_i, inst, p);
    assert(w =~= head + z_0 + z_i + inst + tail);
}

/// Whether the three commitments of an instance are opened where the proof says, by its
/// first three openings: the witness, the error and the fixed memory.
pub open spec fn opens<V: OpeningVerifier<KZGProof>>(vk: V, u: InstanceView, p: Proof) -> bool {
    &&& vk.verify_spec(p.kzg_challenges@[0], u.cm_w, p.kzg_proofs@[0]) is Ok
    &&& vk.verify_spec(p.kzg_challenges@[1], u.cm_e, p.kzg_proofs@[1]) is Ok
    &&& vk.verify_spec(p.kzg_challenges@[2], u.cm_f, p.kzg_proofs@[2]) is Ok
}

/// What acceptance by the decider of one step circuit means. With `u`, the fold of the two
/// instances, and `input`, which has the parameters' digest, the number of steps, the two
/// states, `u` and what the proof gives of itself in their places: there were at least two
/// steps, the circuit's proof holds for `input`, the commitments of `u` are opened, and so
/// are those to the two lookup columns, both at the fourth place.
pub proof fn law_accepted_decider<V: OpeningVerifier<KZGProof>>(
    vp: DeciderVerifierParams<V>,
    i: Fr,
    z_0: Seq<Fr>,
    z_i: Seq<Fr>,
    running: InstanceView,
    incoming: InstanceView,
    p: Proof,
    u: InstanceView,
    input: Seq<Fr>,
)
    requires
        running.x.len() == incoming.x.len(),
        is_instance_fold(u, running, p.r, incoming, p.cm_t),
        input.len() == 53 + z_0.len() + z_i.len() + u.x.len(),
        starts_with(input, vp.pp_hash, i, z_0, z_i),
        instance_at(input, 2int + z_0.len() + z_i.len(), u),
        proof_at(input, 33int + z_0.len() + z_i.len() + u.x.len(), p),
    ensures
        DeciderFoldPot::verify_spec(vp, i, z_0, z_i, running, incoming, p) is Ok <==> {
            &&& i.val() >= 2
            &&& key_framed(vp.snark_vk@)
            &&& groth16_verdict(vp.snark_vk@, input, p.snark_proof@) == Some(true)
            &&& opens(vp.cs_vk, u, p)
            &&& vp.cs_vk.verify_spec(p.kzg_challenges@[3], vp.kzg_lk_col1, p.kzg_proofs@[3]) is Ok
            &&& vp.cs_vk.verify_spec(p.kzg_challenges@[3], vp.kzg_lk_col2, p.kzg_proofs@[4]) is Ok
        },
{
    law_instance_fold(u, running, p.r, incoming, p.cm_t);
    let at = 2 + z_0.len() + z_i.len();
    lemma_instance(input, at as int, u);
    let inst = instance_input(u);
    assert(inst.len() == 31 + u.x.len());
    lemma_input(input, vp.pp_hash, i, z_0, z_i, inst, p);
}

/// Whether the instances stand behind each other, the `k`-th from place `starts[k]` on.
pub open spec fn instances_at(v: Seq<Fr>, starts: Seq<int>, insts: Seq<InstanceView>) -> bool {
    &&& starts.len() == insts.len() + 1
    &&& forall|k: int|
        0 <= k < insts.len() ==> {
            &&& instance_at(v, starts[k], #[trigger] insts[k])
            &&& starts[k + 1] == starts[k] + 31 + insts[k].x.len()
            &&& 0 <= starts[k] && starts[k + 1] <= v.len()
        }
}

proof fn lemma_instances(v: Seq<Fr>, starts: Seq<int>, insts: Seq<InstanceView>, n: int)
    requires
        instances_at(v, starts, insts),
        0 <= starts[0] <= v.len(),
        0 <= n <= insts.len(),
    ensures
        starts[0] <= starts[n] <= v.len(),
        v.subrange(starts[0], starts[n]) == instances_input(insts.take(n)),
    decreases n,
{
    if n == 0 {
        assert(insts.take(0) =~= Seq::empty());
        assert(v.subrange(starts[0], starts[0]) =~= Seq::empty());
    } else {
        lemma_instances(v, starts, insts, n - 1);
        let u = insts[n - 1];
        lemma_instance(v, starts[n - 1], u);
        assert(insts.take(n).drop_last() =~= insts.take(n - 1));
        assert(v.subrange(starts[0], starts[n]) =~= v.subrange(starts[0], starts[n - 1]) + v.subrange(
            starts[n - 1],
            starts[n],
        ));
    }
}

/// What acceptance by the decider of several step circuits means. With `next`, the running
/// instances of which the one that the counter names is folded with the incoming one, and
/// `input`, which has the parameters' digest, the number of steps, the two states, the
/// instances of `next`, the digest and the counter of the running instances and what the
/// proof gives of itself in their places: there were at least two steps, the circuit's
/// proof holds for `input`, and the folded instance's commitments are opened.
pub proof fn law_accepted_decider_super<V: OpeningVerifier<KZGProof>>(
    vp: DeciderVerifierParams<V>,
    i: Fr,
    z_0: Seq<Fr>,
    z_i: Seq<Fr>,
    running: InstanceSuperView,
    incoming: InstanceView,
    p: Proof,
    next: Seq<InstanceView>,
    starts: Seq<int>,
    input: Seq<Fr>,
)
    requires
        running.pc_i.val() < running.insts.len(),
        next.len() == running.insts.len(),
        running.insts[running.pc_i.val() as int].x.len() == incoming.x.len(),
        is_instance_fold(
            next[running.pc_i.val() as int],
            running.insts[running.pc_i.val() as int],
            p.r,
            incoming,
            p.cm_t,
        ),
        forall|k: int|
            0 <= k < next.len() && k != running.pc_i.val() ==> #[trigger] next[k] == running.insts[k],
        starts_with(input, vp.pp_hash, i, z_0, z_i),
        starts.len() == next.len() + 1,
        starts[0] == 2 + z_0.len() + z_i.len(),
        instances_at(input, starts, next),
        input.len() == starts[next.len() as int] + 22,
        input[starts[next.len() as int]] == running.x_1,
        input[starts[next.len() as int] + 1] == running.pc_i,
        proof_at(input, starts[next.len() as int] + 2, p),
    ensures
        DeciderFoldPotSuper::verify_spec(vp, i, z_0, z_i, running, incoming, p) is Ok <==> {
            &&& i.val() >= 2
            &&& key_framed(vp.snark_vk@)
            &&& groth16_verdict(vp.snark_vk@, input, p.snark_proof@) == Some(true)
            &&& opens(vp.cs_vk, next[running.pc_i.val() as int], p)
        },
{
    let j = running.pc_i.val() as int;
    law_instance_fold(next[j], running.insts[j], p.r, incoming, p.cm_t);
    assert(next =~= DeciderFoldPotSuper::next(running, incoming, p));
    lemma_instances(input, starts, next, next.len() as int);
    assert(next.take(next.len() as int) =~= next);
    let end = starts[next.len() as int];
    let inst = instances_input(next) + seq![running.x_1, running.pc_i];
    assert(input.subrange(starts[0], end + 2) =~= inst);
    lemma_input(input, vp.pp_hash, i, z_0, z_i, inst, p);
}

/// A key is framed where it is as long as 456 bytes and 64 for each point, of which the
/// eight bytes from place 448 on tell the number, least significant first.
pub proof fn law_key_frame(key: Seq<u8>)
    requires
        key.len() >= 456,
    ensures
        key_framed(key) <==> key.len() == 456 + 64 * (key[448] + 0x100 * key[449] + 0x1_0000 * key[450] + 0x100_0000
            * key[451] + 0x1_0000_0000 * key[452] + 0x100_0000_0000 * key[453] + 0x1_0000_0000_0000 * key[454]
            + 0x100_0000_0000_0000 * key[455]),
{
    let c = key.subrange(448, 456);
    reveal_with_fuel(crate::bigint::le_value, 9);
}

/// A key that is shorter than 456 bytes is not framed.
pub proof fn law_short_key(key: Seq<u8>)
    requires
        key.len() < 456,
    ensures
        !key_framed(key),
{
}

/// What is opened where: the witness, the error and the fixed memory each at its own place,
/// the two lookup columns at the fourth one. All are proved where each is, and else the
/// first error is told.
pub proof fn law_openings<K: OpeningProver<KZGProof>>(o: Openings, pk: K)
    ensures
        ({
            let (r, c) = (o.results(pk), o.challenges@);
            &&& r.len() == 5
            &&& r[0] == pk.prove_spec(c[0], o.w@)
            &&& r[1] == pk.prove_spec(c[1], o.e@)
            &&& r[2] == pk.prove_spec(c[2], o.f@)
            &&& r[3] == pk.prove_spec(c[3], o.lkup_col1@)
            &&& r[4] == pk.prove_spec(c[3], o.lkup_col2@)
            &&& o.all_proved(pk) <==> r[0] is Ok && r[1] is Ok && r[2] is Ok && r[3] is Ok && r[4] is Ok
            &&& !o.all_proved(pk) ==> exists|k: int|
                0 <= k < 5 && (#[trigger] r[k]) == Err::<KZGProof, ErrorView>(o.first_error(pk)) && forall|j: int|
                    0 <= j < k ==> (#[trigger] r[j]) is Ok
        }),
{
    let r = o.results(pk);
    if r[0] is Ok && r[1] is Ok && r[2] is Ok && r[3] is Ok && r[4] is Ok {
        assert forall|k: int| 0 <= k < 5 implies (#[trigger] r[k]) is Ok by {
            assert(k == 0 || k == 1 || k == 2 || k == 3 || k == 4);
        }
    } else {
        let k: int = if r[0] is Err {
            0
        } else if r[1] is Err {
            1
        } else if r[2] is Err {
            2
        } else if r[3] is Err {
            3
        } else {
            4
        };
        assert(r[k] == Err::<KZGProof, ErrorView>(o.first_error(pk)));
        assert forall|j: int| 0 <= j < k implies (#[trigger] r[j]) is Ok by {
            assert(j == 0 || j == 1 || j == 2 || j == 3);
        }
    }
}

/// What the check of a circuit's proof tells: it succeeds where the verdict is good, tells
/// of a failed verification where the verdict is bad, and of a proof that could not be
/// checked where there is none or the key is not framed.
pub proof fn law_circuit_proof_outcomes(key: Seq<u8>, input: Seq<Fr>, proof: Seq<u8>)
    ensures
        ({
            let (r, v) = (snark_outcome(key, input, proof), groth16_verdict(key, input, proof));
            &&& r is Ok <==> key_framed(key) && v == Some(true)
            &&& r == Err::<(), ErrorView>(ErrorView::SNARKVerificationFail) <==> key_framed(key) && v == Some(false)
            &&& !key_framed(key) || v is None ==> r == Err::<(), ErrorView>(
                ErrorView::Other("the proof could not be checked"@),
            )
        }),
{
}

/// A computation of less than two steps is refused by both deciders before anything else.
pub proof fn law_too_few_steps<V: OpeningVerifier<KZGProof>>(
    vp: DeciderVerifierParams<V>,
    i: Fr,
    z_0: Seq<Fr>,
    z_i: Seq<Fr>,
    run: InstanceView,
    runs: InstanceSuperView,
    inc: InstanceView,
    p: Proof,
)
    requires
        i.val() < 2,
    ensures
        DeciderFoldPot::verify_spec(vp, i, z_0, z_i, run, inc, p) == Err::<(), ErrorView>(ErrorView::NotEnoughSteps),
        DeciderFoldPotSuper::verify_spec(vp, i, z_0, z_i, runs, inc, p) == Err::<(), ErrorView>(
            ErrorView::NotEnoughSteps,
        ),
{
}

} // verus!
