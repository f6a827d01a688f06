//! What the circuit for one pairing step checks and tells, place by place.
use vstd::prelude::*;
use crate::bigint::le_digits;
use crate::bigint::le_value;
use crate::bigint::lemma_le_digits_len;
use crate::calldata_laws::be_value;
use crate::calldata_laws::lemma_be_of_reversed;
use crate::calldata_laws::lemma_digits_value;
use crate::calldata_laws::lemma_pow256;
use crate::field::canonical;
use crate::field::lemma_op_values;
use crate::field::lemma_units;
use crate::field::FieldModel;
use crate::field_fr::fr_modulus;
use crate::field_fr::Fr;
use crate::sigma_cyclepair::chains_hold;
use crate::sigma_cyclepair::digest_halves;
use crate::sigma_cyclepair::elements_bytes;
use crate::sigma_cyclepair::hc_next;
use crate::sigma_cyclepair::picked;
use crate::sigma_cyclepair::sha256;
use crate::sigma_cyclepair::FoldPairMapper;
use crate::statement::StatementExtraInfo;

verus! {

/// Whether `bytes` hold the elements behind each other, each by 32 bytes, least significant
/// first.
pub open spec fn hold_elements(bytes: Seq<u8>, v: Seq<Fr>) -> bool {
    &&& bytes.len() == 32 * v.len()
    &&& forall|k: int|
        0 <= k < v.len() ==> be_value(bytes.subrange(32 * k, 32 * k + 32).reverse()) == (#[trigger] v[k]).val()
}

/// The bytes of elements hold them.
pub proof fn law_elements_bytes(v: Seq<Fr>)
    requires
        forall|k: int| 0 <= k < v.len() ==> canonical(#[trigger] v[k]),
    ensures
        hold_elements(elements_bytes(v), v),
    decreases v.len(),
{
    if v.len() > 0 {
        let (front, n) = (v.drop_last(), v.len() - 1);
        assert forall|k: int| 0 <= k < front.len() implies canonical(#[trigger] front[k]) by {
            assert(front[k] == v[k]);
        }
        law_elements_bytes(front);
        let (b, f) = (elements_bytes(v), elements_bytes(front));
        let d = le_digits(v[n].val(), 32);
        lemma_le_digits_len(v[n].val(), 32);
        assert(canonical(v[n]));
        lemma_pow256();
        Fr::lemma_modulus();
        lemma_digits_value(v[n].val(), 32);
        lemma_be_of_reversed(d);
        assert(b.subrange(32 * n, 32 * n + 32) =~= d);
        assert forall|k: int| 0 <= k < v.len() implies be_value(b.subrange(32 * k, 32 * k + 32).reverse()) == (
        #[trigger] v[k]).val() by {
            if k < n {
                assert(front[k] == v[k]);
                assert(b.subrange(32 * k, 32 * k + 32) =~= f.subrange(32 * k, 32 * k + 32));
            }
        }
    }
}

/// The two halves of a digest of 32 bytes: the numbers of its first and of its last 16
/// bytes, least significant first, modulo the field's modulus.
pub proof fn law_digest_halves(d: Seq<u8>)
    requires
        d.len() == 32,
    ensures
        digest_halves(d).0.val() == be_value(d.subrange(0, 16).reverse()) % fr_modulus(),
        digest_halves(d).1.val() == be_value(d.subrange(16, 32).reverse()) % fr_modulus(),
{
    Fr::lemma_modulus();
    let (a, b) = (d.subrange(0, 16), d.subrange(16, 32));
    lemma_be_of_reversed(a);
    lemma_be_of_reversed(b);
    vstd::arithmetic::div_mod::lemma_mod_bound(le_value(a) as int, fr_modulus() as int);
    vstd::arithmetic::div_mod::lemma_mod_bound(le_value(b) as int, fr_modulus() as int);
    Fr::lemma_val_of(le_value(a) % fr_modulus());
    Fr::lemma_val_of(le_value(b) % fr_modulus());
}

/// The next link of a chain is the two halves of the digest of the link and the elements.
pub proof fn law_next_link(hc: (Fr, Fr), a: Seq<Fr>)
    ensures
        hc_next(hc, a) == digest_halves(sha256(elements_bytes(seq![hc.0] + seq![hc.1] + a))),
{
    assert(seq![hc.0, hc.1] + a =~= seq![hc.0] + seq![hc.1] + a);
}

/// The chains of a pairing step hold where each goes on by its point: from the two values
/// before to the two behind, the first by the three elements of the point of the first
/// group, the second by the five of that of the second.
pub proof fn law_chains(v: Seq<Fr>, a: Seq<Fr>, b: Seq<Fr>)
    requires
        v.len() == 40,
        a.len() == 3,
        b.len() == 5,
        forall|k: int| 0 <= k < 3 ==> #[trigger] a[k] == v[12 + k],
        forall|k: int| 0 <= k < 5 ==> #[trigger] b[k] == v[15 + k],
    ensures
        chains_hold(v) <==> {
            &&& hc_next((v[32], v[33]), a) == (v[36], v[37])
            &&& hc_next((v[34], v[35]), b) == (v[38], v[39])
        },
{
    assert(v.subrange(12, 15) =~= a);
    assert(v.subrange(15, 20) =~= b);
}

/// The elements at given places.
pub proof fn law_picked(v: Seq<Fr>, idx: Seq<usize>, k: int)
    requires
        0 <= k < idx.len(),
    ensures
        picked(v, idx).len() == idx.len(),
        picked(v, idx)[k] == v[idx[k] as int],
{
}

/// What the statement for a pairing step tells: the step's circuits and numbers; 16 values
/// in, the target element and the two links before; 16 values out, the target element and
/// the two links behind; and between them the eight elements of the two points. It has no
/// share of the lookup table.
pub proof fn law_pairing_statement(word: Seq<Fr>, ea: StatementExtraInfo)
    requires
        word.len() == 40,
    ensures
        ({
            let s = FoldPairMapper::statement(word, ea);
            &&& s.pc_i == ea.pc_i
            &&& s.pc_i1 == ea.pc_i1
            &&& s.n_circ == ea.n_circ
            &&& s.n_circ_minus_pc.val() == (ea.n_circ.val() - ea.pc_i.val()) % (fr_modulus() as int)
            &&& s.act_input_size.val() == 16
            &&& s.act_output_size.val() == 16
            &&& s.act_lookup_share_size.val() == 0
            &&& s.act_word_subseg_size.val() == 8
            &&& s.word_id == ea.word_id
            &&& s.subseg_id == ea.subseg_id
            &&& s.total_word_len == ea.total_word_len
            &&& s.total_word_segs == ea.total_word_segs
            &&& s.total_words == ea.total_words
            &&& s.r_f.val() == 0
            &&& s.inp_buf.len() == 16
            &&& forall|k: int| 0 <= k < 12 ==> #[trigger] s.inp_buf[k] == word[k]
            &&& forall|k: int| 12 <= k < 16 ==> #[trigger] s.inp_buf[k] == word[20 + k]
            &&& s.oup_buf.len() == 16
            &&& forall|k: int| 0 <= k < 12 ==> #[trigger] s.oup_buf[k] == word[20 + k]
            &&& forall|k: int| 12 <= k < 16 ==> #[trigger] s.oup_buf[k] == word[24 + k]
            &&& s.data.len() == 8
            &&& forall|k: int| 0 <= k < 8 ==> #[trigger] s.data[k] == word[12 + k]
            &&& s.word_subseg.len() == 0
            &&& s.col1_share.len() == 0 && s.col2_share.len() == 0 && s.m_share.len() == 0
            &&& s.subtable_id.len() == 40
            &&& forall|k: int| 0 <= k < 40 ==> (#[trigger] s.subtable_id[k]).val() == 0
        }),
{
    lemma_units::<Fr>();
    lemma_op_values(ea.n_circ, ea.pc_i);
    Fr::lemma_val_of(16);
    Fr::lemma_val_of(8);
}

} // verus!
