//! The hash chains of the points that are paired, and the statements of the steps
//! that fold pairings.
use vstd::prelude::*;
use sha2::Digest;
use crate::bigint::ark_to_bits_le;
use crate::bigint::ark_to_bytes_le;
use crate::bigint::bits_value;
use crate::bigint::le_digits;
use crate::bigint::le_value;
use crate::bigint::lemma_bits_split;
use crate::bigint::lemma_le_digits;
use crate::error::outcome;
use crate::error::Error;
use crate::error::ErrorView;
use crate::field::f_mul;
use crate::field::f_sub;
use crate::field::f_zero;
use crate::field::Field;
use crate::field::FieldModel;
use crate::field::lemma_op_values;
use crate::field_fr::ark_from_le_bytes_mod_order;
use crate::field_fr::fr_modulus;
use crate::field_fr::Fr;
use crate::statement::StatementExtraInfo;
use crate::statement::StatementInst;
use crate::statement::StatementView;
use crate::vecs::copy_range;
use crate::vecs::filled;
use crate::vecs::push_all;
use crate::vecs::repeated;

verus! {

/// The digest that `sha2::Sha256` computes of the given bytes.
pub uninterp spec fn sha256(bytes: Seq<u8>) -> Seq<u8>;

/// `sha2`'s `Sha256::digest`. The digest has 32 bytes.
#[verifier::external_body]
fn sha256_digest(bytes: &Vec<u8>) -> (r: Vec<u8>)
    ensures
        r@ == sha256(bytes@),
        r@.len() == 32,
{
    sha2::Sha256::digest(bytes).to_vec()
}

/// The bytes of the elements behind each other, 32 for each, least significant
/// first.
pub open spec fn elements_bytes(v: Seq<Fr>) -> Seq<u8>
    decreases v.len(),
{
    if v.len() == 0 {
        Seq::empty()
    } else {
        elements_bytes(v.drop_last()) + le_digits(v.last().val(), 32)
    }
}

/// The two elements whose bytes the halves of a digest are.
pub open spec fn digest_halves(d: Seq<u8>) -> (Fr, Fr) {
    (
        Fr::of(le_value(d.subrange(0, 16)) % fr_modulus()),
        Fr::of(le_value(d.subrange(16, 32)) % fr_modulus()),
    )
}

/// The next link of a hash chain.
pub open spec fn hc_next(hc: (Fr, Fr), a: Seq<Fr>) -> (Fr, Fr) {
    digest_halves(sha256(elements_bytes(seq![hc.0, hc.1] + a)))
}

/// The link and the elements behind each other.
fn chain_input(hc: &(Fr, Fr), a: &Vec<Fr>) -> (v: Vec<Fr>)
    ensures
        v@ == seq![hc.0, hc.1] + a@,
{
    let mut v: Vec<Fr> = Vec::new();
    v.push(hc.0);
    v.push(hc.1);
    push_all(&mut v, a);
    assert(v@ =~= seq![hc.0, hc.1] + a@);
    v
}

/// The bytes of the elements behind each other.
fn native_bytes(v: &Vec<Fr>) -> (bytes: Vec<u8>)
    ensures
        bytes@ == elements_bytes(v@),
{
    let mut bytes: Vec<u8> = Vec::new();
    let mut i: usize = 0;
    assert(v@.take(0) =~= Seq::empty());
    while i < v.len()
        invariant
            i <= v@.len(),
            bytes@ == elements_bytes(v@.take(i as int)),
        decreases v.len() - i,
    {
        let b = ark_to_bytes_le(v[i].limbs());
        proof {
            lemma_le_digits(b@);
        }
        push_all(&mut bytes, &b);
        assert(v@.take(i + 1).drop_last() =~= v@.take(i as int));
        i = i + 1;
    }
    assert(v@.take(i as int) =~= v@);
    bytes
}

/// The next link of a hash chain: the digest of the last link and the elements `a`,
/// with SHA-256. A link is two elements, each of which stands for half of a digest,
/// so that it can be computed over both fields of the curve cycle.
pub fn compute_hc(hc: &(Fr, Fr), a: &Vec<Fr>) -> (r: (Fr, Fr))
    ensures
        r == hc_next(*hc, a@),
{
    let bytes = native_bytes(&chain_input(hc, a));
    let d = sha256_digest(&bytes);
    let low = copy_range(&d, 0, 16);
    let high = copy_range(&d, 16, 32);
    (ark_from_le_bytes_mod_order(&low), ark_from_le_bytes_mod_order(&high))
}

/// The element that the 16 bytes stand for, least significant first, as a circuit
/// sums it up.
fn sixteen_char_to_fp_le(chars: &Vec<u8>) -> (r: Fr)
    requires
        chars@.len() == 16,
    ensures
        r == Fr::of(le_value(chars@) % fr_modulus()),
{
    let mut i: usize = 16;
    let mut acc: Fr = Fr::zero();
    let unit = Fr::from_u64(256);
    proof {
        assert(chars@.skip(16) =~= Seq::empty());
        vstd::arithmetic::div_mod::lemma_small_mod(0, fr_modulus());
    }
    while i > 0
        invariant
            i <= 16,
            chars@.len() == 16,
            unit.val() == 256,
            acc == Fr::of(le_value(chars@.skip(i as int)) % fr_modulus()),
        decreases i,
    {
        i = i - 1;
        let low = Fr::from_u64(chars[i] as u64);
        let next = acc.times(&unit).plus(&low);
        proof {
            let m = fr_modulus() as int;
            let rest = le_value(chars@.skip(i + 1)) as int;
            assert(chars@.skip(i as int).drop_first() =~= chars@.skip(i + 1));
            vstd::arithmetic::div_mod::lemma_mod_bound(rest, m);
            Fr::lemma_val_of((rest % m) as nat);
            lemma_op_values(acc, unit);
            lemma_op_values(f_mul(acc, unit), low);
            vstd::arithmetic::div_mod::lemma_mul_mod_noop_left(rest, 256, m);
            vstd::arithmetic::div_mod::lemma_add_mod_noop_right(low.val() as int, rest * 256, m);
        }
        acc = next;
    }
    assert(chars@.skip(0) =~= chars@);
    acc
}

/// The byte with the given bits, least significant first.
fn byte_of(bits: &Vec<bool>, from: usize) -> (b: u8)
    requires
        from + 8 <= bits@.len(),
    ensures
        b == bits_value(bits@.subrange(from as int, from + 8)),
{
    let mut b: u8 = 0;
    let mut k: usize = 8;
    let n: usize = bits.len();
    assert(bits@.subrange(from + 8, from + 8) =~= Seq::empty());
    while k > 0
        invariant
            k <= 8,
            from + 8 <= n,
            n == bits@.len(),
            b == bits_value(bits@.subrange(from + k, from + 8)),
            k == 0 ==> b <= 255,
            k == 1 ==> b <= 127,
            k == 2 ==> b <= 63,
            k == 3 ==> b <= 31,
            k == 4 ==> b <= 15,
            k == 5 ==> b <= 7,
            k == 6 ==> b <= 3,
            k == 7 ==> b <= 1,
            k == 8 ==> b == 0,
        decreases k,
    {
        k = k - 1;
        assert(bits@.subrange(from + k, from + 8).drop_first() =~= bits@.subrange(from + k + 1, from + 8));
        b = 2 * b + (if bits[from + k] { 1u8 } else { 0u8 });
    }
    b
}

/// The bytes of an element, least significant first, put together from its bits.
fn nonnative_to_bytes(x: &Fr) -> (r: Vec<u8>)
    ensures
        r@ == le_digits(x.val(), 32),
{
    let bits = ark_to_bits_le(x.limbs());
    let mut r: Vec<u8> = Vec::new();
    let mut i: usize = 32;
    proof {
        assert(bits@.skip(256) =~= Seq::empty());
        assert(r@ =~= le_digits(bits_value(bits@.skip(256)), 0));
    }
    let mut rev: Vec<u8> = Vec::new();
    assert(rev@.reverse() =~= Seq::empty());
    while i > 0
        invariant
            i <= 32,
            bits@.len() == 256,
            rev@.reverse() == le_digits(bits_value(bits@.skip(8 * i)), (32 - i) as nat),
        decreases i,
    {
        i = i - 1;
        let b = byte_of(&bits, 8 * i);
        let ghost before = rev@;
        rev.push(b);
        proof {
            let s = bits@.skip(8 * i);
            lemma_bits_split(s, 8);
            vstd::arithmetic::power2::lemma2_to64();
            assert(s.take(8) =~= bits@.subrange(8 * i as int, 8 * i + 8));
            assert(s.skip(8) =~= bits@.skip(8 * (i + 1)));
            assert(bits_value(s) == b + 256 * bits_value(s.skip(8)));
            assert(rev@.reverse() =~= seq![b] + before.reverse());
        }
    }
    assert(bits@.skip(0) =~= bits@);
    crate::vecs::reversed(&rev)
}

/// The next link of a hash chain as a circuit over the chain's own field computes
/// it.
pub fn compute_hc_var(hc: &(Fr, Fr), a: &Vec<Fr>) -> (r: (Fr, Fr))
    ensures
        r == hc_next(*hc, a@),
{
    let bytes = native_bytes(&chain_input(hc, a));
    let d = sha256_digest(&bytes);
    let low = copy_range(&d, 0, 16);
    let high = copy_range(&d, 16, 32);
    (sixteen_char_to_fp_le(&low), sixteen_char_to_fp_le(&high))
}

/// The next link of a hash chain as a circuit over the other field computes it,
/// which holds the elements by their bits.
pub fn compute_hc_var_nonnative(hc: &(Fr, Fr), a: &Vec<Fr>) -> (r: (Fr, Fr))
    ensures
        r == hc_next(*hc, a@),
{
    let v = chain_input(hc, a);
    let mut bytes: Vec<u8> = Vec::new();
    let mut i: usize = 0;
    assert(v@.take(0) =~= Seq::empty());
    while i < v.len()
        invariant
            i <= v@.len(),
            bytes@ == elements_bytes(v@.take(i as int)),
        decreases v.len() - i,
    {
        push_all(&mut bytes, &nonnative_to_bytes(&v[i]));
        assert(v@.take(i + 1).drop_last() =~= v@.take(i as int));
        i = i + 1;
    }
    assert(v@.take(i as int) =~= v@);
    let d = sha256_digest(&bytes);
    let low = copy_range(&d, 0, 16);
    let high = copy_range(&d, 16, 32);
    (sixteen_char_to_fp_le(&low), sixteen_char_to_fp_le(&high))
}

/// How many elements a word has of which a pairing's statement is built: two target
/// elements, a point of each group, and the links of the two hash chains before and
/// after.
pub const PAIR_WORD_LEN: usize = 40;

/// The gadget that continues the hash chains of the two points of a pairing. The
/// pairing itself is left to the CyclePair circuit.
#[derive(Debug, Clone, Copy)]
pub struct FoldPairGadget {}

impl FoldPairGadget {
    /// The sizes of the statement and of the three messages.
    pub fn get_msg_size(&self) -> (r: (usize, usize, usize, usize))
        ensures
            r == (PAIR_WORD_LEN, 0usize, 0usize, 0usize),
    {
        (PAIR_WORD_LEN, 0, 0, 0)
    }

    /// The first message, which is empty.
    pub fn gen_msg1(&self) -> (r: Vec<Fr>)
        ensures
            r@.len() == 0,
    {
        Vec::new()
    }

    /// The third message, which is empty.
    pub fn gen_msg3(&self) -> (r: Vec<Fr>)
        ensures
            r@.len() == 0,
    {
        Vec::new()
    }

    /// Holds the links behind the step to the ones before and the points. The
    /// gadget's `k`-th element is the statement's element at place `stmt_idx[k]`.
    pub fn assert_msg3(&self, statement: &Vec<Fr>, stmt_idx: &Vec<usize>) -> (r: Result<(), Error>)
        requires
            stmt_idx@.len() == PAIR_WORD_LEN,
            forall|k: int| 0 <= k < PAIR_WORD_LEN ==> (#[trigger] stmt_idx@[k]) < statement@.len(),
        ensures
            outcome(r) == (if chains_hold(picked(statement@, stmt_idx@)) {
                Ok(())
            } else {
                Err(ErrorView::NotSatisfied)
            }),
    {
        let mut v: Vec<Fr> = Vec::new();
        let mut k: usize = 0;
        while k < PAIR_WORD_LEN
            invariant
                k <= PAIR_WORD_LEN,
                stmt_idx@.len() == PAIR_WORD_LEN,
                forall|j: int| 0 <= j < PAIR_WORD_LEN ==> (#[trigger] stmt_idx@[j]) < statement@.len(),
                v@ == picked(statement@, stmt_idx@).take(k as int),
            decreases PAIR_WORD_LEN - k,
        {
            assert(stmt_idx@[k as int] < statement@.len());
            v.push(statement[stmt_idx[k]]);
            assert(v@ =~= picked(statement@, stmt_idx@).take(k + 1));
            k = k + 1;
        }
        assert(v@ =~= picked(statement@, stmt_idx@));
        let a = copy_range(&v, 12, 15);
        let b = copy_range(&v, 15, 20);
        let a_out = compute_hc_var(&(v[32], v[33]), &a);
        let b_out = compute_hc_var(&(v[34], v[35]), &b);
        if a_out.0.same(&v[36]) && a_out.1.same(&v[37]) && b_out.0.same(&v[38]) && b_out.1.same(&v[39]) {
            Ok(())
        } else {
            Err(Error::NotSatisfied)
        }
    }
}

/// The elements at the given places.
pub open spec fn picked(v: Seq<Fr>, idx: Seq<usize>) -> Seq<Fr> {
    Seq::new(idx.len(), |k: int| v[idx[k] as int])
}

/// Whether the hash chains in a pairing's word are continued rightly.
pub open spec fn chains_hold(v: Seq<Fr>) -> bool {
    &&& hc_next((v[32], v[33]), v.subrange(12, 15)) == (v[36], v[37])
    &&& hc_next((v[34], v[35]), v.subrange(15, 20)) == (v[38], v[39])
}

/// The mapper of a circuit that folds pairings.
#[derive(Debug, Clone, Copy)]
pub struct FoldPairMapper {}

impl FoldPairMapper {
    pub fn get_name(&self) -> (r: String)
        ensures
            r@ == "FoldPairMapper"@,
    {
        "FoldPairMapper".to_owned()
    }

    pub fn max_word_len(&self) -> (n: usize)
        ensures
            n == PAIR_WORD_LEN,
    {
        PAIR_WORD_LEN
    }

    /// The gadgets: one that continues the hash chains.
    pub fn create_gadgets(&self) -> (r: Vec<FoldPairGadget>)
        ensures
            r@.len() == 1,
    {
        let mut r: Vec<FoldPairGadget> = Vec::new();
        r.push(FoldPairGadget {  });
        r
    }

    /// The statement for a word: the first target element and the links before the
    /// step are its input, the second one and the links behind its output, and the
    /// points its data, of eight elements. There is no lookup.
    pub open spec fn statement(word: Seq<Fr>, ea: StatementExtraInfo) -> StatementView {
        StatementView {
            pc_i: ea.pc_i,
            pc_i1: ea.pc_i1,
            n_circ: ea.n_circ,
            n_circ_minus_pc: f_sub(ea.n_circ, ea.pc_i),
            act_input_size: Fr::of(16),
            act_output_size: Fr::of(16),
            act_lookup_share_size: f_zero::<Fr>(),
            act_word_subseg_size: Fr::of(8),
            word_id: ea.word_id,
            subseg_id: ea.subseg_id,
            total_word_len: ea.total_word_len,
            total_word_segs: ea.total_word_segs,
            total_words: ea.total_words,
            r_f: f_zero::<Fr>(),
            inp_buf: word.subrange(0, 12) + word.subrange(32, 36),
            oup_buf: word.subrange(20, 32) + word.subrange(36, 40),
            word_subseg: Seq::empty(),
            data: word.subrange(12, 20),
            subtable_id: repeated(f_zero::<Fr>(), 40),
            col1_share: Seq::empty(),
            col2_share: Seq::empty(),
            m_share: Seq::empty(),
        }
    }

    /// The statement for a word that holds the two target elements, the points and
    /// the links: `gt1, a, b, gt2`, then the links of the chains of `a` and `b`
    /// before the step, then those behind it.
    pub fn build_statement(&self, word: &Vec<Fr>, ea: &StatementExtraInfo) -> (r: StatementInst)
        requires
            word@.len() == PAIR_WORD_LEN,
        ensures
            r@ == FoldPairMapper::statement(word@, *ea),
    {
        let mut inp_buf = copy_range(word, 0, 12);
        push_all(&mut inp_buf, &copy_range(word, 32, 36));
        let mut oup_buf = copy_range(word, 20, 32);
        push_all(&mut oup_buf, &copy_range(word, 36, 40));
        StatementInst {
            pc_i: ea.pc_i,
            pc_i1: ea.pc_i1,
            n_circ: ea.n_circ,
            n_circ_minus_pc: ea.n_circ.minus(&ea.pc_i),
            act_input_size: Fr::from_u64(16),
            act_output_size: Fr::from_u64(16),
            act_lookup_share_size: Fr::zero(),
            act_word_subseg_size: Fr::from_u64(8),
            word_id: ea.word_id,
            subseg_id: ea.subseg_id,
            total_word_len: ea.total_word_len,
            total_word_segs: ea.total_word_segs,
            total_words: ea.total_words,
            r_f: Fr::zero(),
            inp_buf,
            oup_buf,
            word_subseg: Vec::new(),
            data: copy_range(word, 12, 20),
            subtable_id: filled(Fr::zero(), 40),
            col1_share: Vec::new(),
            col2_share: Vec::new(),
            m_share: Vec::new(),
        }
    }
}

} // verus!
