//! What is set up before a run: the layout of the keys, the first states and lengths.
use vstd::prelude::*;
use vstd::arithmetic::power2::pow2;
use crate::circuit_laws::is_zero_instance;
use crate::circuit_laws::law_dummy_is_zero;
use crate::commitment::CommitmentScheme;
use crate::curve::Grumpkin;
use crate::curve::G1;
use crate::field::lemma_units;
use crate::field::FieldModel;
use crate::field_fq::Fq;
use crate::field_fr::fr_modulus;
use crate::field_fr::Fr;
use crate::foldpot::FoldPot;
use crate::foldpot_super::FoldPotSuper;
use crate::foldpot_super::StepCircuit;
use crate::instance::WitnessFoldPotView;
use crate::nova::CommittedInstanceView;
use crate::nova::WitnessView;
use crate::part_two::PartTwoView;
use crate::paths::is_word;
use crate::paths::split_words;
use crate::paths::whitespace;
use crate::paths::words;
use crate::poly::doubled_to;
use crate::poly::next_power;
use crate::poly::padded;
use crate::r1cs::R1CS;
use crate::super_setup::circuit_key_len;
use crate::super_setup::e_total;
use crate::super_setup::key_part_e;
use crate::super_setup::key_part_w;
use crate::super_setup::key_row;
use crate::super_setup::law_layout_row_count;
use crate::super_setup::layout_possible;
use crate::super_setup::layout_rows;
use crate::super_setup::lemma_totals_monotone;
use crate::super_setup::longest_key;
use crate::super_setup::w_total;
use crate::super_setup::CircuitSize;
use crate::super_setup::KeyRow;

verus! {

/// Whether a row has its entries from column `col` on, with the key's elements from `key`
/// on, `len` of them.
pub open spec fn row_is(row: KeyRow, col: int, key: int, len: int) -> bool {
    row.col == col && row.key == key && row.len == len
}

/// Whether `ws` and `es` tell where the witnesses and the errors of the circuits begin,
/// each counted from zero: a witness has as many values as its system has columns, less
/// one and the public ones, of which there are three where pairings are folded and else
/// two; an error has as many as its system has rows.
pub open spec fn are_begins(sizes: Seq<CircuitSize>, full: bool, ws: Seq<int>, es: Seq<int>) -> bool {
    let public: int = if full {
        4
    } else {
        3
    };
    &&& ws.len() == sizes.len() + 1
    &&& es.len() == sizes.len() + 1
    &&& ws[0] == 0
    &&& es[0] == 0
    &&& forall|k: int|
        0 <= k < sizes.len() ==> {
            &&& ws[k + 1] == ws[k] + (#[trigger] sizes[k]).n_cols - public
            &&& es[k + 1] == es[k] + sizes[k].n_rows
        }
}

proof fn lemma_begins(sizes: Seq<CircuitSize>, full: bool, ws: Seq<int>, es: Seq<int>, k: nat)
    requires
        are_begins(sizes, full, ws, es),
        k <= sizes.len(),
    ensures
        w_total(sizes, full, k) == ws[k as int],
        e_total(sizes, k) == es[k as int],
    decreases k,
{
    if k > 0 {
        lemma_begins(sizes, full, ws, es, (k - 1) as nat);
        let s = sizes[k - 1];
    }
}

/// The rows of the matrix that relates the commitments: the first over all witnesses, all
/// errors and one more element; then for each circuit three, over its witness, over its
/// error, which lies behind all witnesses, and over the fixed memory in its witness, with
/// the key's elements from where the witness begins.
pub proof fn law_layout_places(
    sizes: Seq<CircuitSize>,
    full: bool,
    ws: Seq<int>,
    es: Seq<int>,
    n: nat,
    k: int,
)
    requires
        layout_possible(sizes, full),
        are_begins(sizes, full, ws, es),
        0 <= k < n <= sizes.len(),
    ensures
        ({
            let rows = layout_rows(sizes, full, n);
            let (w, e) = (ws[sizes.len() as int], es[sizes.len() as int]);
            &&& rows.len() == 3 * n + 1
            &&& row_is(rows[0], 0, 0, w + e + 1)
            &&& row_is(rows[3 * k + 1], ws[k], ws[k], ws[k + 1] - ws[k])
            &&& row_is(rows[3 * k + 2], w + es[k], w + es[k], sizes[k].n_rows as int)
            &&& row_is(rows[3 * k + 3], ws[k] + sizes[k].start_f, ws[k], sizes[k].size_f as int)
        }),
    decreases n,
{
    let m = sizes.len();
    law_layout_row_count(sizes, full, n);
    law_layout_row_count(sizes, full, (n - 1) as nat);
    lemma_begins(sizes, full, ws, es, m);
    lemma_begins(sizes, full, ws, es, k as nat);
    lemma_begins(sizes, full, ws, es, (k + 1) as nat);
    assert(sizes[k].n_cols >= 0);
    lemma_totals_monotone(sizes, full, k as nat, m);
    lemma_totals_monotone(sizes, full, (k + 1) as nat, m);
    lemma_totals_monotone(sizes, full, 0, k as nat);
    lemma_totals_monotone(sizes, full, 0, m);
    let rows = layout_rows(sizes, full, n);
    let before = layout_rows(sizes, full, (n - 1) as nat);
    if k < n - 1 {
        law_layout_places(sizes, full, ws, es, (n - 1) as nat, k);
        assert(rows[0] == before[0] && rows[3 * k + 1] == before[3 * k + 1] && rows[3 * k + 2] == before[3 * k + 2]
            && rows[3 * k + 3] == before[3 * k + 3]);
    } else {
        lemma_first_row(sizes, full, n);
    }
}

proof fn lemma_first_row(sizes: Seq<CircuitSize>, full: bool, n: nat)
    ensures
        layout_rows(sizes, full, n).len() == 3 * n + 1,
        layout_rows(sizes, full, n)[0] == crate::super_setup::row_all(sizes, full),
    decreases n,
{
    if n > 0 {
        lemma_first_row(sizes, full, (n - 1) as nat);
    }
}

/// The elements of the keys behind each other: where a circuit's witness lies, the first
/// elements of its key, and where its error lies, again the first ones; then the last
/// element.
pub proof fn law_key_row_places(
    keys: Seq<Seq<G1>>,
    sizes: Seq<CircuitSize>,
    full: bool,
    last: G1,
    ws: Seq<int>,
    es: Seq<int>,
    k: int,
    j: int,
)
    requires
        layout_possible(sizes, full),
        are_begins(sizes, full, ws, es),
        keys.len() == sizes.len(),
        forall|i: int|
            0 <= i < sizes.len() ==> (#[trigger] keys[i]).len() >= sizes[i].n_cols && keys[i].len() >= sizes[i].n_rows,
        0 <= k < sizes.len(),
        0 <= j,
    ensures
        ({
            let row = key_row(keys, sizes, full, last);
            let (w, e) = (ws[sizes.len() as int], es[sizes.len() as int]);
            &&& row.len() == w + e + 1
            &&& j < ws[k + 1] - ws[k] ==> row[ws[k] + j] == keys[k][j]
            &&& j < sizes[k].n_rows ==> row[w + es[k] + j] == keys[k][j]
            &&& row[w + e] == last
        }),
{
    let m = sizes.len();
    lemma_key_parts(keys, sizes, full, ws, es, m);
    lemma_key_part_at(keys, sizes, full, ws, es, m, k, j);
    lemma_begins(sizes, full, ws, es, k as nat);
    lemma_begins(sizes, full, ws, es, (k + 1) as nat);
    lemma_begins(sizes, full, ws, es, m);
    assert(sizes[k].n_cols >= 0);
    lemma_totals_monotone(sizes, full, 0, k as nat);
    lemma_totals_monotone(sizes, full, (k + 1) as nat, m);
    let (pw, pe) = (key_part_w(keys, sizes, full, m), key_part_e(keys, sizes, m));
    let row = key_row(keys, sizes, full, last);
    if j < ws[k + 1] - ws[k] {
        assert(row[ws[k] + j] == pw[ws[k] + j]);
    }
    if j < sizes[k].n_rows {
        assert(row[ws[m as int] + es[k] + j] == pe[es[k] + j]);
    }
}

proof fn lemma_key_parts(
    keys: Seq<Seq<G1>>,
    sizes: Seq<CircuitSize>,
    full: bool,
    ws: Seq<int>,
    es: Seq<int>,
    n: nat,
)
    requires
        layout_possible(sizes, full),
        are_begins(sizes, full, ws, es),
        keys.len() == sizes.len(),
        forall|i: int|
            0 <= i < sizes.len() ==> (#[trigger] keys[i]).len() >= sizes[i].n_cols && keys[i].len() >= sizes[i].n_rows,
        n <= sizes.len(),
    ensures
        key_part_w(keys, sizes, full, n).len() == ws[n as int],
        key_part_e(keys, sizes, n).len() == es[n as int],
    decreases n,
{
    if n > 0 {
        lemma_key_parts(keys, sizes, full, ws, es, (n - 1) as nat);
        assert(sizes[n - 1].n_cols >= 0);
        assert(keys[n - 1].len() >= sizes[n - 1].n_cols);
    }
}

proof fn lemma_key_part_at(
    keys: Seq<Seq<G1>>,
    sizes: Seq<CircuitSize>,
    full: bool,
    ws: Seq<int>,
    es: Seq<int>,
    n: nat,
    k: int,
    j: int,
)
    requires
        layout_possible(sizes, full),
        are_begins(sizes, full, ws, es),
        keys.len() == sizes.len(),
        forall|i: int|
            0 <= i < sizes.len() ==> (#[trigger] keys[i]).len() >= sizes[i].n_cols && keys[i].len() >= sizes[i].n_rows,
        0 <= k < n <= sizes.len(),
        0 <= j,
    ensures
        j < ws[k + 1] - ws[k] ==> ws[k] >= 0 && ws[k] + j < ws[n as int] && key_part_w(keys, sizes, full, n)[ws[k] + j]
            == keys[k][j],
        j < sizes[k].n_rows ==> es[k] >= 0 && es[k] + j < es[n as int] && key_part_e(keys, sizes, n)[es[k] + j]
            == keys[k][j],
    decreases n,
{
    lemma_key_parts(keys, sizes, full, ws, es, (n - 1) as nat);
    lemma_key_parts(keys, sizes, full, ws, es, n);
    lemma_key_parts(keys, sizes, full, ws, es, k as nat);
    assert(sizes[n - 1].n_cols >= 0);
    assert(keys[n - 1].len() >= sizes[n - 1].n_cols);
    assert(sizes[k].n_cols >= 0);
    if k < n - 1 {
        lemma_key_part_at(keys, sizes, full, ws, es, (n - 1) as nat, k, j);
    }
}

/// A circuit's key is as long as the largest of its columns, its rows and its fixed
/// memory's commitment need, and the longest of several keys is as long as one of them and
/// as long as each.
pub proof fn law_key_lengths(sizes: Seq<CircuitSize>, n: nat, k: int)
    requires
        0 <= k < n <= sizes.len(),
    ensures
        ({
            let (c, l) = (sizes[k], circuit_key_len(sizes[k]));
            &&& l >= c.n_cols && l >= c.n_rows && l >= c.cmf_len
            &&& l == c.n_cols || l == c.n_rows || l == c.cmf_len
            &&& longest_key(sizes, n) >= l
            &&& exists|i: int| 0 <= i < n && longest_key(sizes, n) == circuit_key_len(#[trigger] sizes[i])
        }),
    decreases n,
{
    let last = circuit_key_len(sizes[n - 1]);
    if n > 1 {
        let i: int = if k < n - 1 {
            k
        } else {
            0
        };
        law_key_lengths(sizes, (n - 1) as nat, i);
        if longest_key(sizes, n) != last {
            let i = choose|i: int|
                0 <= i < n - 1 && longest_key(sizes, (n - 1) as nat) == circuit_key_len(#[trigger] sizes[i]);
            assert(longest_key(sizes, n) == circuit_key_len(sizes[i]));
        } else {
            assert(longest_key(sizes, n) == circuit_key_len(sizes[n - 1]));
        }
    } else {
        assert(longest_key(sizes, 0) == 0);
        assert(longest_key(sizes, n) == circuit_key_len(sizes[0]));
    }
}

/// Whether a witness is one of zeros, with the given sizes.
pub open spec fn is_zero_witness(w: WitnessFoldPotView, w_len: nat, e_len: nat, size_f: nat, start_f: nat) -> bool {
    &&& w.w.len() == w_len
    &&& forall|k: int| 0 <= k < w_len ==> (#[trigger] w.w[k]).val() == 0
    &&& w.e.len() == e_len
    &&& forall|k: int| 0 <= k < e_len ==> (#[trigger] w.e[k]).val() == 0
    &&& w.r_w.val() == 0 && w.r_e.val() == 0 && w.r_f.val() == 0
    &&& w.size_f == size_f && w.start_f == start_f
}

/// Whether a witness and an instance on the second curve are those of zeros for a system.
pub open spec fn are_zero_pair(w: WitnessView, u: CommittedInstanceView, r1cs: R1CS<Fq>) -> bool {
    &&& 1 + r1cs.l + w.w.len() == r1cs.a.n_cols
    &&& forall|k: int| 0 <= k < w.w.len() ==> (#[trigger] w.w[k]).val() == 0
    &&& w.e.len() == r1cs.a.n_rows
    &&& forall|k: int| 0 <= k < w.e.len() ==> (#[trigger] w.e[k]).val() == 0
    &&& w.r_w.val() == 0 && w.r_e.val() == 0
    &&& u.u.val() == 0
    &&& u.x.len() == r1cs.l
    &&& forall|k: int| 0 <= k < u.x.len() ==> (#[trigger] u.x[k]).val() == 0
    &&& u.cm_w is Infinity && u.cm_e is Infinity
}

/// Before the first step no step was taken, the state is the first one, and all witnesses
/// and instances are those of zeros.
pub proof fn law_first_state<CS1: CommitmentScheme<Fr, G1>, CS2: CommitmentScheme<Fq, Grumpkin>>(
    r1cs: R1CS<Fr>,
    cf_r1cs: R1CS<Fq>,
    size_f: nat,
    start_f: nat,
    z_0: Seq<Fr>,
    part2: PartTwoView,
)
    requires
        r1cs.wf(),
        cf_r1cs.wf(),
    ensures
        ({
            let st = FoldPot::<CS1, CS2>::first_state(r1cs, cf_r1cs, size_f, start_f, z_0, part2);
            let (w, e) = ((r1cs.a.n_cols - 1 - r1cs.l) as nat, r1cs.a.n_rows as nat);
            &&& st.i.val() == 0
            &&& st.z_i == z_0
            &&& st.zi_part2_inst == part2
            &&& is_zero_witness(st.w_i, w, e, size_f, start_f)
            &&& is_zero_witness(st.run_w, w, e, size_f, start_f)
            &&& is_zero_instance(st.u_i, r1cs.l as nat)
            &&& is_zero_instance(st.run_u, r1cs.l as nat)
            &&& are_zero_pair(st.cf_w, st.cf_u, cf_r1cs)
        }),
{
    lemma_units::<Fr>();
    lemma_units::<Fq>();
    let st = FoldPot::<CS1, CS2>::first_state(r1cs, cf_r1cs, size_f, start_f, z_0, part2);
    law_dummy_is_zero(st.u_i, r1cs.l as nat);
}

/// The same with several circuits, where the first one that is to be taken is noted, and
/// where pairings are folded, the CyclePair witness and instance are of zeros too.
pub proof fn law_first_state_super<CS1: CommitmentScheme<Fr, G1>, CS2: CommitmentScheme<Fq, Grumpkin>>(
    circuits: Seq<StepCircuit<CS1>>,
    cf_r1cs: R1CS<Fq>,
    cp_r1cs: R1CS<Fq>,
    full: bool,
    z_0: Seq<Fr>,
    part2: PartTwoView,
    pc_0: nat,
)
    requires
        cf_r1cs.wf(),
        cp_r1cs.wf(),
        pc_0 < circuits.len(),
        pc_0 < fr_modulus(),
        forall|k: int| 0 <= k < circuits.len() ==> (#[trigger] circuits[k]).r1cs.wf(),
    ensures
        ({
            let st = FoldPotSuper::<CS1, CS2>::first_state(circuits, cf_r1cs, cp_r1cs, full, z_0, part2, pc_0);
            &&& st.i.val() == 0
            &&& st.z_i == z_0
            &&& st.zi_part2_inst == part2
            &&& st.pc_i.val() == pc_0
            &&& st.w_i == st.run_w[pc_0 as int]
            &&& st.u_i == st.run_u.insts[pc_0 as int]
            &&& st.run_w.len() == circuits.len()
            &&& st.run_u.insts.len() == circuits.len()
            &&& forall|k: int|
                0 <= k < circuits.len() ==> {
                    let c = #[trigger] circuits[k];
                    &&& is_zero_instance(st.run_u.insts[k], c.r1cs.l as nat)
                    &&& is_zero_witness(
                        st.run_w[k],
                        (c.r1cs.a.n_cols - 1 - c.r1cs.l) as nat,
                        c.r1cs.a.n_rows as nat,
                        c.size_f as nat,
                        c.start_f as nat,
                    )
                }
            &&& st.run_u.x_1.val() == 0
            &&& st.run_u.x_2 is Some <==> full
            &&& full ==> st.run_u.x_2->0.val() == 0
            &&& st.run_u.pc_i.val() == 0
            &&& are_zero_pair(st.cf_w, st.cf_u, cf_r1cs)
            &&& st.cp_w is Some <==> full
            &&& st.cp_u is Some <==> full
            &&& full ==> are_zero_pair(st.cp_w->0, st.cp_u->0, cp_r1cs)
        }),
{
    lemma_units::<Fr>();
    lemma_units::<Fq>();
    Fr::lemma_val_of(pc_0);
    let st = FoldPotSuper::<CS1, CS2>::first_state(circuits, cf_r1cs, cp_r1cs, full, z_0, part2, pc_0);
    assert forall|k: int| 0 <= k < circuits.len() implies {
        let c = #[trigger] circuits[k];
        &&& is_zero_instance(st.run_u.insts[k], c.r1cs.l as nat)
        &&& is_zero_witness(
            st.run_w[k],
            (c.r1cs.a.n_cols - 1 - c.r1cs.l) as nat,
            c.r1cs.a.n_rows as nat,
            c.size_f as nat,
            c.start_f as nat,
        )
    } by {
        law_dummy_is_zero(st.run_u.insts[k], circuits[k].r1cs.l as nat);
    }
}

/// The next power of two is one, is not below the number, and its half is, but for one.
pub proof fn law_next_power(n: nat)
    ensures
        exists|k: nat| next_power(n) == #[trigger] pow2(k),
        next_power(n) >= n,
        n > 1 ==> next_power(n) < 2 * n,
        n <= 1 ==> next_power(n) == 1,
{
    vstd::arithmetic::power2::lemma2_to64();
    lemma_doubled(0, n);
}

proof fn lemma_doubled(j: nat, n: nat)
    requires
        pow2(j) < 2 * n || j == 0,
    ensures
        exists|k: nat| doubled_to(pow2(j), n) == #[trigger] pow2(k),
        doubled_to(pow2(j), n) >= n,
        doubled_to(pow2(j), n) < 2 * n || doubled_to(pow2(j), n) == 1,
    decreases 2 * n - pow2(j),
{
    vstd::arithmetic::power2::lemma2_to64();
    vstd::arithmetic::power2::lemma_pow2_pos(j);
    if pow2(j) >= n {
        assert(doubled_to(pow2(j), n) == pow2(j));
    } else {
        vstd::arithmetic::power2::lemma_pow2_unfold(j + 1);
        lemma_doubled(j + 1, n);
    }
}

/// A padded vector has the entries first, zeros behind them, and the next power of two for
/// its length.
pub proof fn law_padded(v: Seq<Fr>)
    ensures
        padded(v).len() == next_power(v.len()),
        forall|k: int| 0 <= k < v.len() ==> padded(v)[k] == #[trigger] v[k],
        forall|k: int| v.len() <= k < padded(v).len() ==> (#[trigger] padded(v)[k]).val() == 0,
{
    lemma_units::<Fr>();
    law_next_power(v.len());
}

/// Text is split at its white space: what stands before and behind such a character is
/// split on its own.
pub proof fn law_words_of_parts(a: Seq<char>, c: char, b: Seq<char>)
    requires
        whitespace(c),
    ensures
        words(a + seq![c] + b) == words(a) + words(b),
{
    lemma_split_parts(a, Seq::empty(), c, b);
}

proof fn lemma_split_parts(a: Seq<char>, word: Seq<char>, c: char, b: Seq<char>)
    requires
        whitespace(c),
    ensures
        split_words(a + seq![c] + b, word) == split_words(a, word) + words(b),
    decreases a.len(),
{
    let s = a + seq![c] + b;
    if a.len() == 0 {
        assert(s[0] == c);
        assert(s.drop_first() =~= b);
        assert(Seq::<Seq<char>>::empty() + words(b) =~= words(b));
        assert(split_words(s, word) =~= split_words(a, word) + words(b));
    } else {
        assert(s[0] == a[0]);
        assert(s.drop_first() =~= a.drop_first() + seq![c] + b);
        if whitespace(a[0]) {
            lemma_split_parts(a.drop_first(), Seq::empty(), c, b);
            assert(split_words(s, word) =~= split_words(a, word) + words(b));
        } else {
            lemma_split_parts(a.drop_first(), word.push(a[0]), c, b);
        }
    }
}

/// Text without white space is one word, and no text has no word.
pub proof fn law_one_word(s: Seq<char>)
    ensures
        is_word(s) ==> words(s) == seq![s],
        s.len() == 0 ==> words(s).len() == 0,
{
    if is_word(s) {
        lemma_no_split(s, Seq::empty());
        assert(Seq::<char>::empty() + s =~= s);
    }
}

proof fn lemma_no_split(s: Seq<char>, word: Seq<char>)
    requires
        forall|i: int| 0 <= i < s.len() ==> !whitespace(#[trigger] s[i]),
        s.len() + word.len() > 0,
    ensures
        split_words(s, word) == seq![word + s],
    decreases s.len(),
{
    if s.len() == 0 {
        assert(word + s =~= word);
    } else {
        let r = s.drop_first();
        assert(!whitespace(s[0]));
        assert forall|i: int| 0 <= i < r.len() implies !whitespace(#[trigger] r[i]) by {
            assert(r[i] == s[i + 1]);
        }
        lemma_no_split(r, word.push(s[0]));
        assert(word.push(s[0]) + r =~= word + s);
    }
}

} // verus!
