//! The setup of a computation with several step circuits: the lengths of its keys,
//! the place of each circuit's witness in the vector of all witnesses, and the state
//! before the first step.
use vstd::prelude::*;
use crate::circuits::CF_IO_LEN;
use crate::commitment::CommitmentScheme;
use crate::curve::Grumpkin;
use crate::curve::G1;
use crate::cyclefold::PairContext;
use crate::cyclepair::CP_IO_LEN;
use crate::field::f_zero;
use crate::field::Field;
use crate::field::FieldModel;
use crate::field_fq::Fq;
use crate::field_fr::Fr;
use crate::foldpot::START_F;
use crate::foldpot_super::FoldPotSuper;
use crate::foldpot_super::StepCircuit;
use crate::foldpot_super::SuperState;
use crate::foldpot_super::SuperStateView;
use crate::instance::dummy_instance_foldpot;
use crate::instance::CommittedInstanceFoldPot;
use crate::instance::InstanceView;
use crate::instance::WitnessFoldPot;
use crate::instance::WitnessFoldPotView;
use crate::instance_super::inst_views;
use crate::instance_super::wit_views;
use crate::instance_super::CommittedInstanceFoldPotSuper;
use crate::instance_super::InstanceSuperView;
use crate::instance_super::WitnessFoldPotSuper;
use crate::limbs::g1_absorbed;
use crate::nova::CommittedInstance;
use crate::nova::CommittedInstanceView;
use crate::nova::Witness;
use crate::nova::WitnessView;
use crate::part_two::chained;
use crate::part_two::PartTwoView;
use crate::part_two::ZiPartTwoInst;
use crate::r1cs::R1CS;
use crate::sponge::PoseidonConfig;
use crate::vecs::copy_of;
use crate::vecs::push_all;

verus! {

/// The sizes of one of the step circuits.
#[derive(Clone, Copy, Debug)]
pub struct CircuitSize {
    /// The numbers of columns and rows of the augmented circuit's system.
    pub n_cols: usize,
    pub n_rows: usize,
    /// How many elements the commitment to the fixed memory is for.
    pub cmf_len: usize,
    /// Where in the witness the fixed memory is.
    pub size_f: usize,
    pub start_f: usize,
}

/// How long vectors a circuit's key has to commit to: the witness, the error and the
/// fixed memory.
pub open spec fn circuit_key_len(c: CircuitSize) -> nat {
    let m = if c.n_cols > c.n_rows { c.n_cols } else { c.n_rows };
    if m >= c.cmf_len { m as nat } else { c.cmf_len as nat }
}

/// How many entries of an assignment are public: the one, and the public values.
pub open spec fn public_len(full: bool) -> nat {
    if full { 4 } else { 3 }
}

/// The length of the first `k` witnesses.
pub open spec fn w_total(sizes: Seq<CircuitSize>, full: bool, k: nat) -> int
    decreases k,
{
    if k == 0 {
        0
    } else {
        w_total(sizes, full, (k - 1) as nat) + sizes[k - 1].n_cols - public_len(full)
    }
}

/// The length of the first `k` errors.
pub open spec fn e_total(sizes: Seq<CircuitSize>, k: nat) -> int
    decreases k,
{
    if k == 0 {
        0
    } else {
        e_total(sizes, (k - 1) as nat) + sizes[k - 1].n_rows
    }
}

/// A row of the matrix that relates the commitments: the columns of its entries
/// start at `col`, the key elements at `key`, and there are `len` of them.
#[derive(Clone, Copy, PartialEq, Eq, Structural, Debug)]
pub struct KeyRow {
    pub col: usize,
    pub key: usize,
    pub len: usize,
}

/// The lengths of the keys and the rows of the matrix that relates the commitments.
#[derive(Debug)]
pub struct KeyLayout {
    /// How long vectors each circuit's key has to commit to.
    pub key_lens: Vec<usize>,
    /// The longest of them.
    pub max_key_len: usize,
    /// The lengths of all witnesses and of all errors.
    pub total_w: usize,
    pub total_e: usize,
    /// The length of the vector of all witnesses: one more, for blinding.
    pub total: usize,
    /// One row for the vector of all witnesses, then three for each circuit: its
    /// witness, its error and its fixed memory.
    pub rows: Vec<KeyRow>,
}

/// The row of the vector of all witnesses.
pub open spec fn row_all(sizes: Seq<CircuitSize>, full: bool) -> KeyRow {
    let n = sizes.len();
    KeyRow { col: 0, key: 0, len: (w_total(sizes, full, n) + e_total(sizes, n) + 1) as usize }
}

/// The row of the `k`-th witness.
pub open spec fn row_w(sizes: Seq<CircuitSize>, full: bool, k: int) -> KeyRow {
    let start = w_total(sizes, full, k as nat) as usize;
    KeyRow { col: start, key: start, len: (sizes[k].n_cols - public_len(full)) as usize }
}

/// The row of the `k`-th error, behind all witnesses.
pub open spec fn row_e(sizes: Seq<CircuitSize>, full: bool, k: int) -> KeyRow {
    let start = (e_total(sizes, k as nat) + w_total(sizes, full, sizes.len())) as usize;
    KeyRow { col: start, key: start, len: sizes[k].n_rows }
}

/// The row of the `k`-th fixed memory: its key is that of the witness.
pub open spec fn row_f(sizes: Seq<CircuitSize>, full: bool, k: int) -> KeyRow {
    let start = w_total(sizes, full, k as nat);
    KeyRow { col: (start + sizes[k].start_f) as usize, key: start as usize, len: sizes[k].size_f }
}

/// The rows of the first `k` circuits.
pub open spec fn layout_rows(sizes: Seq<CircuitSize>, full: bool, k: nat) -> Seq<KeyRow>
    decreases k,
{
    if k == 0 {
        seq![row_all(sizes, full)]
    } else {
        layout_rows(sizes, full, (k - 1) as nat) + seq![
            row_w(sizes, full, k - 1),
            row_e(sizes, full, k - 1),
            row_f(sizes, full, k - 1),
        ]
    }
}

/// Whether the circuits can be laid out: they have public values, the fixed memories
/// lie in the witnesses, and the lengths are machine integers. Pairings are folded
/// with one circuit.
pub open spec fn layout_possible(sizes: Seq<CircuitSize>, full: bool) -> bool {
    &&& full ==> sizes.len() == 1
    &&& forall|k: int|
        0 <= k < sizes.len() ==> {
            &&& (#[trigger] sizes[k]).n_cols >= public_len(full)
            &&& sizes[k].start_f + sizes[k].size_f <= sizes[k].n_cols - public_len(full)
        }
    &&& w_total(sizes, full, sizes.len()) + e_total(sizes, sizes.len()) + 1 <= usize::MAX
}

pub proof fn lemma_totals_monotone(sizes: Seq<CircuitSize>, full: bool, a: nat, b: nat)
    requires
        a <= b <= sizes.len(),
        forall|k: int| 0 <= k < sizes.len() ==> (#[trigger] sizes[k]).n_cols >= public_len(full),
    ensures
        0 <= w_total(sizes, full, a) <= w_total(sizes, full, b),
        0 <= e_total(sizes, a) <= e_total(sizes, b),
    decreases b,
{
    if a < b {
        lemma_totals_monotone(sizes, full, a, (b - 1) as nat);
        assert(sizes[b - 1].n_cols >= public_len(full));
    } else if a > 0 {
        lemma_totals_monotone(sizes, full, (a - 1) as nat, (a - 1) as nat);
        assert(sizes[a - 1].n_cols >= public_len(full));
    }
}

/// The longest of the first `n` keys.
pub open spec fn longest_key(sizes: Seq<CircuitSize>, n: nat) -> nat
    decreases n,
{
    if n == 0 {
        0
    } else {
        let m = longest_key(sizes, (n - 1) as nat);
        if circuit_key_len(sizes[n - 1]) > m {
            circuit_key_len(sizes[n - 1])
        } else {
            m
        }
    }
}

/// The lengths of the keys and the rows of the matrix that relates the commitments.
pub fn preprocess_layout(sizes: &Vec<CircuitSize>, full: bool) -> (r: KeyLayout)
    requires
        layout_possible(sizes@, full),
    ensures
        r.key_lens@ == Seq::new(sizes@.len(), |k: int| circuit_key_len(sizes@[k]) as usize),
        r.max_key_len == longest_key(sizes@, sizes@.len()),
        r.total_w == w_total(sizes@, full, sizes@.len()),
        r.total_e == e_total(sizes@, sizes@.len()),
        r.total == r.total_w + r.total_e + 1,
        r.rows@ == layout_rows(sizes@, full, sizes@.len()),
{
    let vecx_1: usize = if full { 4 } else { 3 };
    let n = sizes.len();
    let ghost lens = Seq::new(sizes@.len(), |k: int| circuit_key_len(sizes@[k]) as usize);
    let mut key_lens: Vec<usize> = Vec::new();
    let mut max_key_len: usize = 0;
    let mut total_w: usize = 0;
    let mut total_e: usize = 0;
    let mut i: usize = 0;
    while i < n
        invariant
            i <= n,
            n == sizes@.len(),
            vecx_1 == public_len(full),
            layout_possible(sizes@, full),
            lens == Seq::new(sizes@.len(), |k: int| circuit_key_len(sizes@[k]) as usize),
            key_lens@ == lens.take(i as int),
            max_key_len == longest_key(sizes@, i as nat),
            total_w == w_total(sizes@, full, i as nat),
            total_e == e_total(sizes@, i as nat),
        decreases n - i,
    {
        let c = sizes[i];
        proof {
            assert(sizes@[i as int].n_cols >= public_len(full));
            lemma_totals_monotone(sizes@, full, (i + 1) as nat, n as nat);
            lemma_totals_monotone(sizes@, full, i as nat, i as nat);
        }
        let max_row_col: usize = if c.n_cols > c.n_rows { c.n_cols } else { c.n_rows };
        let key_len: usize = if max_row_col >= c.cmf_len { max_row_col } else { c.cmf_len };
        if key_len > max_key_len {
            max_key_len = key_len;
        }
        key_lens.push(key_len);
        assert(key_lens@ =~= lens.take(i + 1));
        total_w = total_w + (c.n_cols - vecx_1);
        total_e = total_e + c.n_rows;
        i = i + 1;
    }
    assert(key_lens@ =~= lens);
    let total: usize = total_w + total_e + 1;
    let mut rows: Vec<KeyRow> = Vec::new();
    rows.push(KeyRow { col: 0, key: 0, len: total });
    assert(rows@ =~= layout_rows(sizes@, full, 0));
    let mut w_start: usize = 0;
    let mut e_start: usize = 0;
    i = 0;
    while i < n
        invariant
            i <= n,
            n == sizes@.len(),
            vecx_1 == public_len(full),
            layout_possible(sizes@, full),
            total_w == w_total(sizes@, full, n as nat),
            total_e == e_total(sizes@, n as nat),
            total_w + total_e + 1 <= usize::MAX,
            w_start == w_total(sizes@, full, i as nat),
            e_start == e_total(sizes@, i as nat),
            rows@ == layout_rows(sizes@, full, i as nat),
        decreases n - i,
    {
        let c = sizes[i];
        proof {
            assert(sizes@[i as int].n_cols >= public_len(full));
            lemma_totals_monotone(sizes@, full, (i + 1) as nat, n as nat);
            lemma_totals_monotone(sizes@, full, i as nat, n as nat);
        }
        let w_len: usize = c.n_cols - vecx_1;
        rows.push(KeyRow { col: w_start, key: w_start, len: w_len });
        rows.push(KeyRow { col: e_start + total_w, key: e_start + total_w, len: c.n_rows });
        rows.push(KeyRow { col: w_start + c.start_f, key: w_start, len: c.size_f });
        assert(rows@ =~= layout_rows(sizes@, full, (i + 1) as nat));
        w_start = w_start + w_len;
        e_start = e_start + c.n_rows;
        i = i + 1;
    }
    KeyLayout { key_lens, max_key_len, total_w, total_e, total, rows }
}

/// There is one row for the vector of all witnesses and three for each circuit.
pub proof fn law_layout_row_count(sizes: Seq<CircuitSize>, full: bool, k: nat)
    ensures
        layout_rows(sizes, full, k).len() == 3 * k + 1,
    decreases k,
{
    if k > 0 {
        law_layout_row_count(sizes, full, (k - 1) as nat);
    }
}

/// The witnesses and then the errors lie behind each other in the vector of all
/// witnesses, without a gap, and fill it but for its last element.
pub proof fn law_layout_is_gapless(sizes: Seq<CircuitSize>, full: bool, k: int)
    requires
        layout_possible(sizes, full),
        0 <= k < sizes.len(),
    ensures
        row_w(sizes, full, k).col == w_total(sizes, full, k as nat),
        row_w(sizes, full, k).col + row_w(sizes, full, k).len == (if k + 1 < sizes.len() {
            row_w(sizes, full, k + 1).col as int
        } else {
            row_e(sizes, full, 0).col as int
        }),
        row_e(sizes, full, k).col + row_e(sizes, full, k).len == (if k + 1 < sizes.len() {
            row_e(sizes, full, k + 1).col as int
        } else {
            row_all(sizes, full).len - 1
        }),
{
    let n = sizes.len();
    assert(sizes[k].n_cols >= public_len(full));
    lemma_totals_monotone(sizes, full, k as nat, n);
    lemma_totals_monotone(sizes, full, (k + 1) as nat, n);
    lemma_totals_monotone(sizes, full, 0, n);
}

/// A fixed memory lies in its circuit's witness.
pub proof fn law_fixed_memory_in_witness(sizes: Seq<CircuitSize>, full: bool, k: int)
    requires
        layout_possible(sizes, full),
        0 <= k < sizes.len(),
    ensures
        row_w(sizes, full, k).col <= row_f(sizes, full, k).col,
        row_f(sizes, full, k).col + row_f(sizes, full, k).len <= row_w(sizes, full, k).col + row_w(
            sizes,
            full,
            k,
        ).len,
        row_f(sizes, full, k).key == row_w(sizes, full, k).key,
{
    let n = sizes.len();
    assert(sizes[k].n_cols >= public_len(full));
    lemma_totals_monotone(sizes, full, k as nat, n);
    lemma_totals_monotone(sizes, full, (k + 1) as nat, n);
}

/// The elements of the keys behind each other: of each key as many as its circuit's
/// witness has, then of each as many as the error has, and one element more.
pub open spec fn key_row(keys: Seq<Seq<G1>>, sizes: Seq<CircuitSize>, full: bool, last: G1) -> Seq<G1> {
    key_part_w(keys, sizes, full, sizes.len()) + key_part_e(keys, sizes, sizes.len()) + seq![last]
}

pub open spec fn key_part_w(keys: Seq<Seq<G1>>, sizes: Seq<CircuitSize>, full: bool, n: nat) -> Seq<G1>
    decreases n,
{
    if n == 0 {
        Seq::empty()
    } else {
        key_part_w(keys, sizes, full, (n - 1) as nat) + keys[n - 1].take(sizes[n - 1].n_cols - public_len(full))
    }
}

pub open spec fn key_part_e(keys: Seq<Seq<G1>>, sizes: Seq<CircuitSize>, n: nat) -> Seq<G1>
    decreases n,
{
    if n == 0 {
        Seq::empty()
    } else {
        key_part_e(keys, sizes, (n - 1) as nat) + keys[n - 1].take(sizes[n - 1].n_rows as int)
    }
}

/// The elements of the keys behind each other.
pub fn build_key_row(keys: &Vec<Vec<G1>>, sizes: &Vec<CircuitSize>, full: bool, last: &G1) -> (r: Vec<G1>)
    requires
        layout_possible(sizes@, full),
        keys@.len() == sizes@.len(),
        forall|k: int| 0 <= k < sizes@.len() ==> circuit_key_len(#[trigger] sizes@[k]) <= keys@[k]@.len(),
    ensures
        r@ == key_row(crate::vecs::rows(keys@), sizes@, full, *last),
        r@.len() == w_total(sizes@, full, sizes@.len()) + e_total(sizes@, sizes@.len()) + 1,
{
    let vecx_1: usize = if full { 4 } else { 3 };
    let ghost ks = crate::vecs::rows(keys@);
    let n = sizes.len();
    let mut r: Vec<G1> = Vec::new();
    let mut i: usize = 0;
    while i < n
        invariant
            i <= n,
            n == sizes@.len(),
            n == keys@.len(),
            ks == crate::vecs::rows(keys@),
            vecx_1 == public_len(full),
            layout_possible(sizes@, full),
            forall|k: int| 0 <= k < n ==> circuit_key_len(#[trigger] sizes@[k]) <= keys@[k]@.len(),
            r@ == key_part_w(ks, sizes@, full, i as nat),
            r@.len() == w_total(sizes@, full, i as nat),
        decreases n - i,
    {
        let c = sizes[i];
        assert(sizes@[i as int].n_cols >= public_len(full));
        assert(circuit_key_len(sizes@[i as int]) <= keys@[i as int]@.len());
        let part = crate::vecs::copy_range(&keys[i], 0, c.n_cols - vecx_1);
        assert(part@ =~= ks[i as int].take(c.n_cols - public_len(full)));
        push_all(&mut r, &part);
        i = i + 1;
    }
    let ghost head = r@;
    i = 0;
    while i < n
        invariant
            i <= n,
            n == sizes@.len(),
            n == keys@.len(),
            ks == crate::vecs::rows(keys@),
            head.len() == w_total(sizes@, full, n as nat),
            forall|k: int| 0 <= k < n ==> circuit_key_len(#[trigger] sizes@[k]) <= keys@[k]@.len(),
            r@ == head + key_part_e(ks, sizes@, i as nat),
            r@.len() == head.len() + e_total(sizes@, i as nat),
        decreases n - i,
    {
        let c = sizes[i];
        assert(circuit_key_len(sizes@[i as int]) <= keys@[i as int]@.len());
        let part = crate::vecs::copy_range(&keys[i], 0, c.n_rows);
        assert(part@ =~= ks[i as int].take(c.n_rows as int));
        push_all(&mut r, &part);
        assert(r@ =~= head + key_part_e(ks, sizes@, (i + 1) as nat));
        i = i + 1;
    }
    r.push(*last);
    assert(r@ =~= key_row(ks, sizes@, full, *last));
    r
}

/// What preprocessing is given for each circuit: the size of its fixed memory. The
/// fixed memory is at its usual place.
#[derive(Debug)]
pub struct PreprocessorParamFoldPotSuper {
    pub sizes_f: Vec<usize>,
    pub starts_f: Vec<usize>,
    pub lk_size: usize,
    pub b_full_mode: bool,
}

impl PreprocessorParamFoldPotSuper {
    pub fn new(vec_size_f: &Vec<usize>, lk_size: usize, b_full_mode: bool) -> (r: PreprocessorParamFoldPotSuper)
        ensures
            r.sizes_f@ == vec_size_f@,
            r.starts_f@ == crate::vecs::repeated(START_F, vec_size_f@.len()),
            r.lk_size == lk_size,
            r.b_full_mode == b_full_mode,
    {
        PreprocessorParamFoldPotSuper {
            sizes_f: copy_of(vec_size_f),
            starts_f: crate::vecs::filled(START_F, vec_size_f.len()),
            lk_size,
            b_full_mode,
        }
    }

    /// The size of the `k`-th circuit, of which `system` is the augmented system.
    pub open spec fn circuit_size(&self, system: R1CS<Fr>, cmf_len: usize, k: int) -> CircuitSize {
        CircuitSize {
            n_cols: system.a.n_cols,
            n_rows: system.a.n_rows,
            cmf_len,
            size_f: self.sizes_f@[k],
            start_f: self.starts_f@[k],
        }
    }

    /// The sizes of the circuits, from their augmented systems.
    pub fn circuit_sizes(&self, systems: &Vec<R1CS<Fr>>, cmf_lens: &Vec<usize>) -> (r: Vec<CircuitSize>)
        requires
            systems@.len() == self.sizes_f@.len(),
            systems@.len() == self.starts_f@.len(),
            systems@.len() == cmf_lens@.len(),
        ensures
            r@ == Seq::new(systems@.len(), |k: int| self.circuit_size(systems@[k], cmf_lens@[k], k)),
    {
        let ghost all = Seq::new(systems@.len(), |k: int| self.circuit_size(systems@[k], cmf_lens@[k], k));
        let mut r: Vec<CircuitSize> = Vec::new();
        let mut i: usize = 0;
        while i < systems.len()
            invariant
                i <= systems@.len(),
                systems@.len() == self.sizes_f@.len(),
                systems@.len() == self.starts_f@.len(),
                systems@.len() == cmf_lens@.len(),
                all == Seq::new(systems@.len(), |k: int| self.circuit_size(systems@[k], cmf_lens@[k], k)),
                r@ == all.take(i as int),
            decreases systems@.len() - i,
        {
            r.push(
                CircuitSize {
                    n_cols: systems[i].a.n_cols,
                    n_rows: systems[i].a.n_rows,
                    cmf_len: cmf_lens[i],
                    size_f: self.sizes_f[i],
                    start_f: self.starts_f[i],
                },
            );
            assert(r@ =~= all.take(i + 1));
            i = i + 1;
        }
        assert(r@ =~= all);
        r
    }

    /// The matrix that relates the commitment to all witnesses to those of the single
    /// circuits: `keys` are the circuits' keys, and `kzg_row` is the key for the vector
    /// of all witnesses, whose last element is for blinding.
    pub fn preprocess(&self, sizes: &Vec<CircuitSize>, keys: &Vec<Vec<G1>>, kzg_row: &Vec<G1>) -> (r: KeyMatrix)
        requires
            layout_possible(sizes@, self.b_full_mode),
            keys@.len() == sizes@.len(),
            forall|k: int| 0 <= k < sizes@.len() ==> circuit_key_len(#[trigger] sizes@[k]) <= keys@[k]@.len(),
            kzg_row@.len() == w_total(sizes@, self.b_full_mode, sizes@.len()) + e_total(sizes@, sizes@.len()) + 1,
        ensures
            r.wf(),
            r.kzg_row@ == kzg_row@,
            r.ped_row@ == key_row(crate::vecs::rows(keys@), sizes@, self.b_full_mode, kzg_row@.last()),
            r.rows@ == layout_rows(sizes@, self.b_full_mode, sizes@.len()),
    {
        proof {
            lemma_totals_monotone(sizes@, self.b_full_mode, 0, sizes@.len());
            lemma_row_bounds(sizes@, self.b_full_mode, sizes@.len());
        }
        let layout = preprocess_layout(sizes, self.b_full_mode);
        let last = &kzg_row[kzg_row.len() - 1];
        let ped_row = build_key_row(keys, sizes, self.b_full_mode, last);
        KeyMatrix { kzg_row: copy_of(kzg_row), ped_row, rows: layout.rows }
    }
}

/// The matrix that relates the commitments, as its two keys and, row by row, the part
/// of a key that the row holds. The first row takes from the key for the vector of
/// all witnesses, the others from the circuits' keys behind each other.
#[derive(Debug)]
pub struct KeyMatrix {
    pub kzg_row: Vec<G1>,
    pub ped_row: Vec<G1>,
    pub rows: Vec<KeyRow>,
}

impl KeyMatrix {
    /// Both keys have one element for each column, and no row reaches beyond them.
    pub open spec fn wf(&self) -> bool {
        &&& self.ped_row@.len() == self.kzg_row@.len()
        &&& forall|i: int| 0 <= i < self.rows@.len() ==> row_fits(#[trigger] self.rows@[i], self.kzg_row@.len())
    }
}

/// Whether the row lies within as many columns and takes no more of the key.
pub open spec fn row_fits(row: KeyRow, n_cols: nat) -> bool {
    row.col + row.len <= n_cols && row.key + row.len <= n_cols
}

proof fn lemma_row_bounds(sizes: Seq<CircuitSize>, full: bool, k: nat)
    requires
        layout_possible(sizes, full),
        k <= sizes.len(),
    ensures
        forall|i: int|
            0 <= i < layout_rows(sizes, full, k).len() ==> row_fits(
                #[trigger] layout_rows(sizes, full, k)[i],
                (w_total(sizes, full, sizes.len()) + e_total(sizes, sizes.len()) + 1) as nat,
            ),
    decreases k,
{
    let n = sizes.len();
    lemma_totals_monotone(sizes, full, 0, n);
    if k > 0 {
        lemma_row_bounds(sizes, full, (k - 1) as nat);
        assert(sizes[k - 1].n_cols >= public_len(full));
        lemma_totals_monotone(sizes, full, (k - 1) as nat, n);
        lemma_totals_monotone(sizes, full, k, n);
        let before = layout_rows(sizes, full, (k - 1) as nat);
        let rows = layout_rows(sizes, full, k);
        assert forall|i: int| 0 <= i < rows.len() implies row_fits(
            #[trigger] rows[i],
            (w_total(sizes, full, n) + e_total(sizes, n) + 1) as nat,
        ) by {
            if i < before.len() {
                assert(rows[i] == before[i]);
            }
        }
    }
}

/// The running witnesses before the first step.
pub open spec fn first_wits<CS1: CommitmentScheme<Fr, G1>>(circuits: Seq<StepCircuit<CS1>>) -> Seq<
    WitnessFoldPotView,
> {
    Seq::new(circuits.len(), |k: int| first_wit(circuits[k]))
}

/// The witness of a circuit before the first step.
pub open spec fn first_wit<CS1: CommitmentScheme<Fr, G1>>(c: StepCircuit<CS1>) -> WitnessFoldPotView {
    WitnessFoldPotView::dummy(c.w_len(), c.r1cs.a.n_rows as nat, c.size_f as nat, c.start_f as nat)
}

/// The running instances before the first step.
pub open spec fn first_insts<CS1: CommitmentScheme<Fr, G1>>(circuits: Seq<StepCircuit<CS1>>) -> Seq<InstanceView> {
    Seq::new(circuits.len(), |k: int| InstanceView::dummy(circuits[k].r1cs.l as nat))
}

impl<CS1: CommitmentScheme<Fr, G1>, CS2: CommitmentScheme<Fq, Grumpkin>> FoldPotSuper<CS1, CS2> {
    /// The state before the first step, which takes the circuit `pc_0`.
    pub open spec fn first_state(
        circuits: Seq<StepCircuit<CS1>>,
        cf_r1cs: R1CS<Fq>,
        cp_r1cs: R1CS<Fq>,
        full: bool,
        z_0: Seq<Fr>,
        part2: PartTwoView,
        pc_0: nat,
    ) -> SuperStateView {
        let cp_w = WitnessView::dummy((cp_r1cs.a.n_cols - 1 - cp_r1cs.l) as nat, cp_r1cs.a.n_rows as nat);
        SuperStateView {
            i: f_zero::<Fr>(),
            z_i: z_0,
            zi_part2_inst: part2,
            w_i: first_wit(circuits[pc_0 as int]),
            u_i: InstanceView::dummy(circuits[pc_0 as int].r1cs.l as nat),
            run_w: first_wits(circuits),
            run_u: InstanceSuperView {
                insts: first_insts(circuits),
                x_1: f_zero::<Fr>(),
                x_2: if full { Some(f_zero::<Fr>()) } else { None },
                pc_i: f_zero::<Fr>(),
            },
            cf_w: WitnessView::dummy((cf_r1cs.a.n_cols - 1 - cf_r1cs.l) as nat, cf_r1cs.a.n_rows as nat),
            cf_u: CommittedInstanceView::dummy(cf_r1cs.l as nat),
            cp_w: if full { Some(cp_w) } else { None },
            cp_u: if full { Some(CommittedInstanceView::dummy(cp_r1cs.l as nat)) } else { None },
            pc_i: Fr::of(pc_0),
        }
    }

    /// The computation before its first step, which takes the circuit `pc_0`. The
    /// first state `z_0` holds the last link of the chain of the fixed memories'
    /// digests, known from a first pass, and the digest of its second part.
    pub fn init_adv(
        circuits: Vec<StepCircuit<CS1>>,
        poseidon_config: PoseidonConfig,
        hiding: bool,
        cf: PairContext<CS2>,
        cp: PairContext<CS2>,
        pp_hash: &Fr,
        z_0: &Vec<Fr>,
        pc_0: usize,
        b_full: bool,
        ch: &Fr,
        rc: &Fr,
        n_words: usize,
    ) -> (r: FoldPotSuper<CS1, CS2>)
        requires
            0 < circuits@.len() <= u32::MAX,
            forall|k: int|
                0 <= k < circuits@.len() ==> (#[trigger] circuits@[k]).wf(if b_full { 3nat } else { 2nat }),
            cf.r1cs.wf(),
            cf.r1cs.l == CF_IO_LEN,
            cp.r1cs.wf(),
            cp.r1cs.l == CP_IO_LEN,
            poseidon_config@.wf(),
            pc_0 < circuits@.len(),
            z_0@.len() == 2,
            z_0@[1] == PartTwoView::new(*ch, *rc, b_full, n_words as nat).hash(poseidon_config@),
        ensures
            r.circuits == circuits,
            r.poseidon_config == poseidon_config,
            r.hiding == hiding,
            r.cf == cf,
            r.cp == cp,
            r.pp_hash == *pp_hash,
            r.z_0@ == z_0@,
            r.b_full_mode == b_full,
            r.pc_i1 == Fr::of(pc_0 as nat),
            r.state@ == FoldPotSuper::<CS1, CS2>::first_state(
                circuits@,
                cf.r1cs,
                cp.r1cs,
                b_full,
                z_0@,
                PartTwoView::new(*ch, *rc, b_full, n_words as nat),
                pc_0 as nat,
            ),
            r.wf(),
    {
        let part2 = ZiPartTwoInst::new(ch, rc, b_full, n_words);
        let zero = Fr::zero();
        let pc = Fr::from_u64(pc_0 as u64);
        let n = circuits.len();
        let ghost tw = first_wits(circuits@);
        let ghost tu = first_insts(circuits@);
        let mut vec_wit: Vec<WitnessFoldPot> = Vec::new();
        let mut vec_inst: Vec<CommittedInstanceFoldPot> = Vec::new();
        let mut k: usize = 0;
        assert(wit_views(vec_wit@) =~= tw.take(0));
        assert(inst_views(vec_inst@) =~= tu.take(0));
        while k < n
            invariant
                k <= n,
                n == circuits@.len(),
                forall|i: int|
                    0 <= i < circuits@.len() ==> (#[trigger] circuits@[i]).wf(if b_full { 3nat } else { 2nat }),
                tw == first_wits(circuits@),
                tu == first_insts(circuits@),
                wit_views(vec_wit@) == tw.take(k as int),
                inst_views(vec_inst@) == tu.take(k as int),
            decreases n - k,
        {
            let c = &circuits[k];
            assert(circuits@[k as int].wf(if b_full { 3nat } else { 2nat }));
            let (w, u) = dummy_instance_foldpot(&c.r1cs, c.size_f, c.start_f);
            let ghost (bw, bu) = (vec_wit@, vec_inst@);
            vec_wit.push(w);
            vec_inst.push(u);
            assert(wit_views(vec_wit@) =~= wit_views(bw).push(tw[k as int]));
            assert(inst_views(vec_inst@) =~= inst_views(bu).push(tu[k as int]));
            assert(tw.take(k + 1) =~= tw.take(k as int).push(tw[k as int]));
            assert(tu.take(k + 1) =~= tu.take(k as int).push(tu[k as int]));
            k = k + 1;
        }
        assert(tw.take(k as int) =~= tw);
        assert(tu.take(k as int) =~= tu);
        assert(circuits@[pc_0 as int].wf(if b_full { 3nat } else { 2nat }));
        let c = &circuits[pc_0];
        let (w_i, u_i) = dummy_instance_foldpot(&c.r1cs, c.size_f, c.start_f);
        let cf_w_len: usize = cf.r1cs.a.n_cols - 1 - cf.r1cs.l;
        let cp_w_len: usize = cp.r1cs.a.n_cols - 1 - cp.r1cs.l;
        let state = SuperState {
            i: zero,
            z_i: copy_of(z_0),
            zi_part2_inst: part2,
            w_i,
            u_i,
            run_w: WitnessFoldPotSuper { vec_wit },
            run_u: CommittedInstanceFoldPotSuper {
                vec_inst,
                x_1: zero,
                x_2: if b_full { Some(zero) } else { None },
                pc_i: zero,
            },
            cf_w: Witness::dummy(cf_w_len, cf.r1cs.a.n_rows),
            cf_u: CommittedInstance::dummy(cf.r1cs.l),
            cp_w: if b_full { Some(Witness::dummy(cp_w_len, cp.r1cs.a.n_rows)) } else { None },
            cp_u: if b_full { Some(CommittedInstance::dummy(cp.r1cs.l)) } else { None },
            pc_i: pc,
        };
        assert(state@ =~= FoldPotSuper::<CS1, CS2>::first_state(
            circuits@,
            cf.r1cs,
            cp.r1cs,
            b_full,
            z_0@,
            PartTwoView::new(*ch, *rc, b_full, n_words as nat),
            pc_0 as nat,
        ));
        let r = FoldPotSuper {
            circuits,
            poseidon_config,
            hiding,
            cf,
            cp,
            pp_hash: *pp_hash,
            z_0: copy_of(z_0),
            b_full_mode: b_full,
            pc_i1: pc,
            state,
        };
        proof {
            assert forall|i: int| 0 <= i < r.circuits@.len() implies {
                &&& (#[trigger] r.state@.run_w[i]).w.len() == r.circuits@[i].w_len()
                &&& r.state@.run_w[i].e.len() == r.circuits@[i].r1cs.a.n_rows
                &&& r.state@.run_u.insts[i].x.len() == r.x_len()
            } by {
                assert(r.circuits@[i].wf(r.x_len()));
            }
        }
        r
    }

    /// The current state.
    pub fn state(&self) -> (z: Vec<Fr>)
        ensures
            z@ == self.state.z_i@,
    {
        copy_of(&self.state.z_i)
    }

    /// The running and the incoming instances, the CycleFold instance and, where
    /// pairings are folded too, the CyclePair instance, each with its witness.
    pub fn instances(&self) -> (r: (
        (&CommittedInstanceFoldPotSuper, &WitnessFoldPotSuper),
        (&CommittedInstanceFoldPot, &WitnessFoldPot),
        (&CommittedInstance, &Witness),
        Option<(&CommittedInstance, &Witness)>,
    ))
        requires
            self.wf(),
        ensures
            r.0.0@ == self.state@.run_u,
            wit_views(r.0.1.vec_wit@) == self.state@.run_w,
            r.1.0@ == self.state@.u_i,
            r.1.1@ == self.state@.w_i,
            r.2.0@ == self.state@.cf_u,
            r.2.1@ == self.state@.cf_w,
            r.3 is Some == self.b_full_mode,
            r.3 matches Some(cp) ==> {
                &&& Some(cp.0@) == self.state@.cp_u
                &&& Some(cp.1@) == self.state@.cp_w
            },
    {
        let cp = match (&self.state.cp_u, &self.state.cp_w) {
            (Some(u), Some(w)) => Some((u, w)),
            _ => None,
        };
        (
            (&self.state.run_u, &self.state.run_w),
            (&self.state.u_i, &self.state.w_i),
            (&self.state.cf_u, &self.state.cf_w),
            cp,
        )
    }

    /// The next link of the chain of the fixed memories' digests, and the commitment
    /// that it is for.
    #[allow(non_snake_case)]
    pub fn compute_step_hc_cmF(&self, hc_cm_f: &Fr, cm_f: &G1) -> (r: (Fr, G1))
        requires
            self.poseidon_config@.wf(),
        ensures
            r.0 == chained(self.poseidon_config@, *hc_cm_f, g1_absorbed(*cm_f)),
            r.1 == *cm_f,
    {
        crate::foldpot_super::compute_step_hc_cmF_adv(hc_cm_f, cm_f, &self.poseidon_config)
    }
}

} // verus!
