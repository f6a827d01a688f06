//! Planning: which circuit proves the segments of a word.
use vstd::prelude::*;
use vstd::string::StringExecFns;
use crate::commitment::Elements;
use crate::error::outcome;
use crate::error::Error;
use crate::error::ErrorView;
use crate::error_text::error_text;
use crate::field::FieldModel;
use crate::field_fr::Fr;
use crate::vecs::copy_range;
use crate::vecs::joined;
use crate::vecs::repeated;
use crate::vecs::rows;

verus! {

/// A number of things as mathematical data.
pub type Count = nat;

/// What is known of a word besides its elements.
#[derive(Debug)]
pub struct WordInfo<I> {
    pub info: I,
    /// The first nibbles behind the segment, where the circuit looks ahead.
    pub halo_nibbles: Vec<u8>,
}

/// What a circuit can handle: how many nibbles behind a segment it looks at, and its
/// sizes by name.
#[derive(Debug)]
pub struct Capacity {
    pub halo_nibbles: usize,
    pub sizes: Vec<(String, usize)>,
}

#[verifier::ext_equal]
pub struct CapacityView {
    pub halo_nibbles: usize,
    pub sizes: Seq<(Seq<char>, usize)>,
}

impl View for Capacity {
    type V = CapacityView;

    open spec fn view(&self) -> CapacityView {
        CapacityView { halo_nibbles: self.halo_nibbles, sizes: sizes_view(self.sizes@) }
    }
}

pub open spec fn capacity_views(v: Seq<Capacity>) -> Seq<CapacityView> {
    v.map_values(|c: Capacity| c@)
}

/// A circuit's side that knows which words it can handle. The advice `A` holds hints
/// for the witness of a segment, and `I` is what is known of a word.
pub trait GadgetMapper<A, I> {
    /// How long a segment can be.
    spec fn max_len(&self) -> Count;

    /// What the circuit can handle.
    spec fn capacity(&self) -> CapacityView;

    /// The nibbles that the packed elements hold.
    spec fn nibbles(&self, word: Elements<Fr>) -> Elements<u8>;

    /// The advice for a segment, or what the circuit lacks for it.
    spec fn advice(
        &self,
        seg: Elements<Fr>,
        info: I,
        halo: Elements<u8>,
        prev: Option<A>,
        seg_id: Count,
    ) -> Result<A, ErrorView>;

    fn max_word_len(&self) -> (n: usize)
        ensures
            n == self.max_len(),
    ;

    fn get_capacity(&self) -> (c: Capacity)
        ensures
            c@ == self.capacity(),
    ;

    fn packed_to_nibbles(&self, word: &Vec<Fr>) -> (r: Vec<u8>)
        ensures
            r@ == self.nibbles(word@),
    ;

    /// The advice for the segment `seg_id` of a word, counted from zero, after the
    /// advice `prev` for the segment before.
    fn gen_nd_advice(&self, seg: &Vec<Fr>, info: &I, halo: &Vec<u8>, prev: Option<&A>, seg_id: usize) -> (r: Result<
        A,
        Error,
    >)
        ensures
            outcome(r) == self.advice(seg@, *info, halo@, opt_deref(prev), seg_id as nat),
    ;
}

pub open spec fn opt_deref<A>(p: Option<&A>) -> Option<A> {
    match p {
        Some(a) => Some(*a),
        None => None,
    }
}

/// A word without elements has no segments.
pub proof fn lemma_no_segments(len: nat, max: nat)
    requires
        max > 0,
    ensures
        len == 0 ==> num_segs(len, max) == 0,
        len > 0 ==> num_segs(len, max) > 0,
{
    vstd::arithmetic::div_mod::lemma_fundamental_div_mod(len as int, max as int);
    if len == 0 {
        vstd::arithmetic::div_mod::lemma_small_mod(0, max);
        vstd::arithmetic::div_mod::lemma_basic_div(0, max as int);
    } else if len % max == 0 && len / max == 0 {
        assert(max * (len / max) == 0) by (nonlinear_arith)
            requires
                len / max == 0,
        ;
    }
}

/// How many segments of at most `max` elements a word of `len` elements has.
pub open spec fn num_segs(len: nat, max: nat) -> nat {
    if len % max == 0 {
        len / max
    } else {
        len / max + 1
    }
}

/// Where the segment `k` ends.
pub open spec fn seg_end(len: nat, max: nat, k: nat) -> nat {
    if (k + 1) * max > len {
        len
    } else {
        (k + 1) * max
    }
}

/// The segment `k` of a word.
pub open spec fn segment(word: Seq<Fr>, max: nat, k: nat) -> Seq<Fr> {
    word.subrange((k * max) as int, seg_end(word.len(), max, k) as int)
}

/// The sizes of the segments.
pub open spec fn seg_sizes(len: nat, max: nat) -> Seq<usize> {
    Seq::new(num_segs(len, max), |k: int| (seg_end(len, max, k as nat) - k * max) as usize)
}

/// The nibbles that the circuit sees behind the segment `k`: the first of the next
/// segment where the planner and the circuit look ahead and there is one, else those that
/// are known.
pub open spec fn halo_of<A, I, M: GadgetMapper<A, I>>(
    m: M,
    ahead: bool,
    word: Seq<Fr>,
    known: Seq<u8>,
    k: nat,
) -> Seq<u8> {
    let end = seg_end(word.len(), m.max_len(), k);
    let halo_len = m.capacity().halo_nibbles as nat;
    if ahead && halo_len > 0 && end < word.len() {
        let next_end = if end + m.max_len() > word.len() {
            word.len()
        } else {
            end + m.max_len()
        };
        let next = m.nibbles(word.subrange(end as int, next_end as int));
        if halo_len <= next.len() {
            next.take(halo_len as int)
        } else {
            next
        }
    } else {
        known
    }
}

/// The advice for the first `n` segments of a word, each after the one before, or the
/// first thing that the circuit lacks.
pub open spec fn advices<A, I, M: GadgetMapper<A, I>>(m: M, ahead: bool, word: Seq<Fr>, info: WordInfo<I>, n: nat) -> Result<
    Seq<A>,
    ErrorView,
>
    decreases n,
{
    if n == 0 {
        Ok(Seq::empty())
    } else {
        match advices(m, ahead, word, info, (n - 1) as nat) {
            Err(e) => Err(e),
            Ok(before) => {
                let k = (n - 1) as nat;
                let prev = if k == 0 {
                    None
                } else {
                    Some(before.last())
                };
                match m.advice(
                    segment(word, m.max_len(), k),
                    info.info,
                    halo_of(m, ahead, word, info.halo_nibbles@, k),
                    prev,
                    k,
                ) {
                    Err(e) => Err(e),
                    Ok(a) => Ok(before.push(a)),
                }
            },
        }
    }
}

/// The advice for all segments of a word.
pub open spec fn word_advices<A, I, M: GadgetMapper<A, I>>(m: M, ahead: bool, word: Seq<Fr>, info: WordInfo<I>) -> Result<
    Seq<A>,
    ErrorView,
> {
    advices(m, ahead, word, info, num_segs(word.len(), m.max_len()))
}

/// Each segment has one advice.
pub proof fn lemma_advices_len<A, I, M: GadgetMapper<A, I>>(
    m: M,
    ahead: bool,
    word: Seq<Fr>,
    info: WordInfo<I>,
    n: nat,
)
    ensures
        advices(m, ahead, word, info, n) matches Ok(v) ==> v.len() == n,
    decreases n,
{
    if n > 0 {
        lemma_advices_len(m, ahead, word, info, (n - 1) as nat);
    }
}

/// Where the first segments already lack something, so does the whole.
proof fn lemma_lacking<A, I, M: GadgetMapper<A, I>>(
    m: M,
    ahead: bool,
    word: Seq<Fr>,
    info: WordInfo<I>,
    k: nat,
    n: nat,
)
    requires
        k <= n,
        advices(m, ahead, word, info, k) is Err,
    ensures
        advices(m, ahead, word, info, n) == advices(m, ahead, word, info, k),
    decreases n,
{
    if k < n {
        lemma_lacking(m, ahead, word, info, k, (n - 1) as nat);
    }
}

/// A plan for a word: its segments, all proved by one circuit.
#[derive(Debug)]
pub struct Plan<A> {
    pub layer: usize,
    pub num_segs: usize,
    pub vec_size: Vec<usize>,
    pub vec_pci: Vec<usize>,
    /// The capacity that each segment needs, which is that of its circuit.
    pub vec_cap: Vec<Capacity>,
    /// The advice for each segment, where it is kept.
    pub vec_adv: Vec<A>,
}

impl<A> Plan<A> {
    /// Whether this is the plan for a word with the circuit `m` of the given layer.
    pub open spec fn is_for<I, M: GadgetMapper<A, I>>(
        self,
        m: M,
        ahead: bool,
        layer: nat,
        word: Seq<Fr>,
        info: WordInfo<I>,
        save: bool,
    ) -> bool {
        let n = num_segs(word.len(), m.max_len());
        &&& self.layer == layer
        &&& self.num_segs == n
        &&& self.vec_size@ == seg_sizes(word.len(), m.max_len())
        &&& self.vec_pci@ == Seq::new(n, |k: int| layer as usize)
        &&& capacity_views(self.vec_cap@) == repeated(m.capacity(), n)
        &&& word_advices(m, ahead, word, info) is Ok
        &&& self.vec_adv@ == (if save {
            word_advices(m, ahead, word, info)->Ok_0
        } else {
            Seq::empty()
        })
    }
}

/// The segments before the segment `k` lie within the word, and `k` counts a segment
/// exactly where it begins within the word.
pub proof fn lemma_segment_bounds(len: nat, max: nat, k: nat)
    requires
        max > 0,
        k < num_segs(len, max),
    ensures
        k * max < len,
        k * max < seg_end(len, max, k) <= len,
        k + 1 < num_segs(len, max) ==> seg_end(len, max, k) == (k + 1) * max,
        k + 1 == num_segs(len, max) ==> seg_end(len, max, k) == len,
        (k + 1) * max <= len + max,
{
    vstd::arithmetic::div_mod::lemma_fundamental_div_mod(len as int, max as int);
    vstd::arithmetic::div_mod::lemma_mod_bound(len as int, max as int);
    let q = len / max;
    assert(k * max <= q * max) by (nonlinear_arith)
        requires
            k <= q,
            max > 0,
    ;
    assert(max * q == q * max) by (nonlinear_arith);
    assert((k + 1) * max == k * max + max) by (nonlinear_arith);
    if k < q {
        assert((k + 1) * max <= q * max) by (nonlinear_arith)
            requires
                k + 1 <= q,
                max > 0,
        ;
    }
    if k + 1 < num_segs(len, max) {
        assert(k + 1 <= q);
    }
    if k + 1 == num_segs(len, max) {
        if len % max == 0 {
            assert((k + 1) * max == q * max);
        } else {
            assert(k == q);
        }
    }
}

/// The segments are the word: laid behind each other they give it back, none is empty
/// and none is longer than the circuit allows.
pub proof fn law_segments_cover_word(word: Seq<Fr>, max: nat)
    requires
        max > 0,
    ensures
        joined(Seq::new(num_segs(word.len(), max), |k: int| segment(word, max, k as nat))) == word,
        forall|k: int|
            0 <= k < num_segs(word.len(), max) ==> 0 < (#[trigger] segment(word, max, k as nat)).len() <= max,
{
    let n = num_segs(word.len(), max);
    assert forall|k: int| 0 <= k < n implies 0 < (#[trigger] segment(word, max, k as nat)).len() <= max by {
        lemma_segment_bounds(word.len(), max, k as nat);
        assert((k + 1) * max == k * max + max) by (nonlinear_arith);
    }
    lemma_joined_segments(word, max, n);
    if n == 0 {
        vstd::arithmetic::div_mod::lemma_fundamental_div_mod(word.len() as int, max as int);
        assert(max * (word.len() / max) == 0) by (nonlinear_arith)
            requires
                word.len() / max == 0,
        ;
        assert(word =~= Seq::empty());
    } else {
        lemma_segment_bounds(word.len(), max, (n - 1) as nat);
        assert(word.take(word.len() as int) =~= word);
    }
}

/// The first `n` segments behind each other are the word up to the end of the last.
proof fn lemma_joined_segments(word: Seq<Fr>, max: nat, n: nat)
    requires
        max > 0,
        n <= num_segs(word.len(), max),
    ensures
        joined(Seq::new(n, |k: int| segment(word, max, k as nat))) == word.take(
            if n == 0 {
                0
            } else {
                seg_end(word.len(), max, (n - 1) as nat) as int
            },
        ),
    decreases n,
{
    let segs = Seq::new(n, |k: int| segment(word, max, k as nat));
    if n == 0 {
        assert(word.take(0) =~= Seq::empty());
    } else {
        lemma_joined_segments(word, max, (n - 1) as nat);
        assert(segs.drop_last() =~= Seq::new((n - 1) as nat, |k: int| segment(word, max, k as nat)));
        lemma_segment_bounds(word.len(), max, (n - 1) as nat);
        let begin = (n - 1) * max;
        let end = seg_end(word.len(), max, (n - 1) as nat) as int;
        if n >= 2 {
            lemma_segment_bounds(word.len(), max, (n - 2) as nat);
            assert(seg_end(word.len(), max, (n - 2) as nat) == begin);
        } else {
            assert(begin == 0) by (nonlinear_arith)
                requires
                    begin == (n - 1) * max,
                    n == 1,
            ;
        }
        assert(word.take(begin) + word.subrange(begin, end) =~= word.take(end));
    }
}

/// The ladder of circuits: one in each layer, cheapest first.
pub struct CapacityPlanner<M> {
    pub layered_circs: Vec<Vec<M>>,
    /// Whether a circuit sees the nibbles behind a segment as the word has them. Else it
    /// sees those that the word's info holds, whatever the segment.
    pub look_ahead: bool,
}

impl<M> CapacityPlanner<M> {
    /// The planner for the given ladder, which looks ahead.
    pub fn new(layered_circs: Vec<Vec<M>>) -> (r: CapacityPlanner<M>)
        ensures
            r.layered_circs == layered_circs,
            r.look_ahead,
    {
        CapacityPlanner { layered_circs, look_ahead: true }
    }

    /// The planner for the given ladder, which hands on a word's info as it is.
    pub fn without_look_ahead(layered_circs: Vec<Vec<M>>) -> (r: CapacityPlanner<M>)
        ensures
            r.layered_circs == layered_circs,
            !r.look_ahead,
    {
        CapacityPlanner { layered_circs, look_ahead: false }
    }

    /// The circuit of a layer.
    pub open spec fn circ(&self, layer: int) -> M {
        self.layered_circs@[layer]@[0]
    }

    /// Whether each layer has one circuit and all allow segments of the same length.
    pub open spec fn wf<A, I>(&self) -> bool where M: GadgetMapper<A, I> {
        &&& self.layered_circs@.len() > 0
        &&& forall|l: int| 0 <= l < self.layered_circs@.len() ==> (#[trigger] self.layered_circs@[l])@.len() == 1
        &&& forall|l: int|
            0 <= l < self.layered_circs@.len() ==> (#[trigger] self.circ(l)).max_len() == self.circ(0).max_len()
        &&& 0 < self.circ(0).max_len()
    }

    /// Whether the circuit of a layer can handle the word.
    pub open spec fn works<A, I>(&self, layer: int, word: Seq<Fr>, info: WordInfo<I>) -> bool where
        M: GadgetMapper<A, I>,
     {
        word_advices::<A, I, M>(self.circ(layer), self.look_ahead, word, info) is Ok
    }
}

/// Words longer than this, in elements, are not sampled.
pub const LONG_BAR: usize = 135300;

/// What planning a word returns.
pub open spec fn plan_outcome<A>(r: Result<Plan<A>, Error>) -> Result<int, ErrorView> {
    match r {
        Ok(p) => Ok(p.layer as int),
        Err(e) => Err(e@),
    }
}

impl<M> CapacityPlanner<M> {
    /// The layer that a binary search between `lo` and `hi` ends with, where `best` is
    /// the best one so far.
    pub open spec fn search<A, I>(&self, word: Seq<Fr>, info: WordInfo<I>, lo: int, hi: int, best: int) -> int where
        M: GadgetMapper<A, I>,

        decreases hi - lo + 1,
    {
        if lo > hi || lo < 0 {
            best
        } else {
            let mid = (lo + hi) / 2;
            if self.works::<A, I>(mid, word, info) {
                self.search::<A, I>(word, info, lo, mid - 1, mid)
            } else {
                self.search::<A, I>(word, info, mid + 1, hi, best)
            }
        }
    }

    /// The segment in the middle of a word.
    pub open spec fn sample<A, I>(&self, word: Seq<Fr>) -> Seq<Fr> where M: GadgetMapper<A, I> {
        word.subrange((word.len() / 2) as int, (word.len() / 2 + self.circ(0).max_len()) as int)
    }

    /// Whether a layer is guessed from a sample of the word: it is neither very short
    /// nor very long.
    pub open spec fn sampled<A, I>(&self, word: Seq<Fr>) -> bool where M: GadgetMapper<A, I> {
        4 * self.circ(0).max_len() <= word.len() <= LONG_BAR
    }

    /// A layer that works for the word: the one that is best for the sample, where that
    /// works for the whole word, else the last.
    pub open spec fn working<A, I>(&self, word: Seq<Fr>, info: WordInfo<I>) -> Result<int, ErrorView> where
        M: GadgetMapper<A, I>,
     {
        let last = self.layered_circs@.len() - 1;
        let sample = self.sample::<A, I>(word);
        let guess = if self.sampled::<A, I>(word) {
            self.search::<A, I>(sample, info, 0, last, last)
        } else {
            last
        };
        if self.sampled::<A, I>(word) && !self.works::<A, I>(last, sample, info) {
            Err(word_advices::<A, I, M>(self.circ(last), self.look_ahead, sample, info)->Err_0)
        } else if self.works::<A, I>(guess, word, info) {
            Ok(guess)
        } else if self.works::<A, I>(last, word, info) {
            Ok(last)
        } else {
            Err(word_advices::<A, I, M>(self.circ(last), self.look_ahead, word, info)->Err_0)
        }
    }

    /// The layer that is planned for the word.
    pub open spec fn planned<A, I>(&self, word: Seq<Fr>, info: WordInfo<I>) -> Result<int, ErrorView> where
        M: GadgetMapper<A, I>,
     {
        match self.working::<A, I>(word, info) {
            Err(e) => Err(e),
            Ok(top) => Ok(self.search::<A, I>(word, info, 0, top, top)),
        }
    }

    /// The lowest layer from `lo` to `hi` that works.
    pub open spec fn first_working<A, I>(&self, word: Seq<Fr>, info: WordInfo<I>, lo: int, hi: int) -> Option<int> where
        M: GadgetMapper<A, I>,

        decreases hi - lo + 1,
    {
        if lo > hi {
            None
        } else if self.works::<A, I>(lo, word, info) {
            Some(lo)
        } else {
            self.first_working::<A, I>(word, info, lo + 1, hi)
        }
    }
}

impl<M> CapacityPlanner<M> {
    /// The advice for the word with the circuit of a layer, segment by segment.
    pub fn gen_nd_advice_at_layer<A, I>(&self, layer_i: usize, b_save_advice: bool, word: &Vec<Fr>, word_info: &WordInfo<I>) -> (r:
        Result<Plan<A>, Error>) where M: GadgetMapper<A, I>
        requires
            self.wf::<A, I>(),
            layer_i < self.layered_circs@.len(),
        ensures
            match r {
                Ok(p) => p.is_for(
                    self.circ(layer_i as int),
                    self.look_ahead,
                    layer_i as nat,
                    word@,
                    *word_info,
                    b_save_advice,
                ),
                Err(e) => word_advices::<A, I, M>(self.circ(layer_i as int), self.look_ahead, word@, *word_info) == Err::<
                    Seq<A>,
                    ErrorView,
                >(e@),
            },
    {
        assert(self.layered_circs@[layer_i as int]@.len() == 1);
        let circ = &self.layered_circs[layer_i][0];
        let ghost m = self.circ(layer_i as int);
        assert(m.max_len() == self.circ(0).max_len());
        let max_wlen = circ.max_word_len();
        let wlen = word.len();
        let ghost max = max_wlen as nat;
        let num: usize = if wlen % max_wlen == 0 {
            wlen / max_wlen
        } else {
            proof {
                vstd::arithmetic::div_mod::lemma_fundamental_div_mod(wlen as int, max_wlen as int);
                let q = wlen as int / max_wlen as int;
                assert(q <= max_wlen * q) by (nonlinear_arith)
                    requires
                        max_wlen >= 1,
                        q >= 0,
                ;
            }
            wlen / max_wlen + 1
        };
        assert(num == num_segs(wlen as nat, max));
        let m_halo = circ.get_capacity().halo_nibbles;
        let mut vec_size: Vec<usize> = Vec::new();
        let mut vec_pci: Vec<usize> = Vec::new();
        let mut vec_cap: Vec<Capacity> = Vec::new();
        let mut vec_adv: Vec<A> = Vec::new();
        let mut start: usize = 0;
        let mut i: usize = 0;
        assert(0 * max == 0);
        while i < num
            invariant
                i <= num,
                num == num_segs(wlen as nat, max),
                wlen == word@.len(),
                max == max_wlen,
                max > 0,
                max == m.max_len(),
                m_halo == m.capacity().halo_nibbles,
                *circ == m,
                m == self.circ(layer_i as int),
                i < num ==> start == i * max,
                vec_size@ == seg_sizes(wlen as nat, max).take(i as int),
                vec_pci@ == Seq::new(num as nat, |k: int| layer_i).take(i as int),
                capacity_views(vec_cap@) == repeated(m.capacity(), i as nat),
                vec_adv@.len() == i,
                advices::<A, I, M>(m, self.look_ahead, word@, *word_info, i as nat) == Ok::<Seq<A>, ErrorView>(vec_adv@),
            decreases num - i,
        {
            proof {
                lemma_segment_bounds(wlen as nat, max, i as nat);
            }
            let end: usize = if wlen - start < max_wlen {
                wlen
            } else {
                start + max_wlen
            };
            proof {
                assert((i + 1) * max == i * max + max) by (nonlinear_arith);
                assert(end == seg_end(wlen as nat, max, i as nat));
            }
            let seg = copy_range(word, start, end);
            let halo = self.halo::<A, I>(circ, m_halo, max_wlen, word, end, &word_info.halo_nibbles, Ghost(i as nat));
            let prev: Option<&A> = if i == 0 {
                None
            } else {
                Some(&vec_adv[i - 1])
            };
            assert(opt_deref(prev) == (if i == 0 { None } else { Some(vec_adv@.last()) }));
            match circ.gen_nd_advice(&seg, &word_info.info, &halo, prev, i) {
                Err(e) => {
                    proof {
                        lemma_lacking::<A, I, M>(m, self.look_ahead, word@, *word_info, (i + 1) as nat, num as nat);
                    }
                    return Err(e);
                },
                Ok(a) => {
                    vec_adv.push(a);
                },
            }
            vec_size.push(end - start);
            vec_pci.push(layer_i);
            let ghost caps = vec_cap@;
            assert(capacity_views(caps).len() == i);
            vec_cap.push(circ.get_capacity());
            assert forall|k: int| 0 <= k < vec_cap@.len() implies capacity_views(vec_cap@)[k] == m.capacity() by {
                if k < i {
                    assert(capacity_views(caps)[k] == m.capacity());
                }
            }
            assert(capacity_views(vec_cap@) =~= repeated(m.capacity(), (i + 1) as nat));
            assert(vec_size@ =~= seg_sizes(wlen as nat, max).take(i + 1));
            assert(vec_pci@ =~= Seq::new(num as nat, |k: int| layer_i).take(i + 1));
            start = end;
            i = i + 1;
        }
        assert(vec_size@ =~= seg_sizes(wlen as nat, max));
        assert(vec_pci@ =~= Seq::new(num as nat, |k: int| layer_i));
        let kept: Vec<A> = if b_save_advice {
            vec_adv
        } else {
            Vec::new()
        };
        Ok(Plan { layer: layer_i, num_segs: num, vec_size, vec_pci, vec_cap, vec_adv: kept })
    }

    /// The nibbles that the circuit sees behind the segment that ends at `end`.
    fn halo<A, I>(
        &self,
        circ: &M,
        m_halo: usize,
        max_wlen: usize,
        word: &Vec<Fr>,
        end: usize,
        known: &Vec<u8>,
        k: Ghost<nat>,
    ) -> (r: Vec<u8>) where M: GadgetMapper<A, I>
        requires
            m_halo == circ.capacity().halo_nibbles,
            max_wlen == circ.max_len(),
            end == seg_end(word@.len(), circ.max_len(), k@),
            end <= word@.len(),
        ensures
            r@ == halo_of::<A, I, M>(*circ, self.look_ahead, word@, known@, k@),
    {
        let wlen = word.len();
        if self.look_ahead && m_halo > 0 && end < wlen {
            let next_end: usize = if wlen - end < max_wlen {
                wlen
            } else {
                end + max_wlen
            };
            let next = circ.packed_to_nibbles(&copy_range(word, end, next_end));
            if m_halo <= next.len() {
                let r = copy_range(&next, 0, m_halo);
                assert(r@ =~= next@.take(m_halo as int));
                r
            } else {
                next
            }
        } else {
            crate::vecs::copy_of(known)
        }
    }

    /// The lowest layer that works for the word, found by binary search below the layer
    /// of `top`, which is a plan that works. Layers that cost more can handle more.
    pub fn bin_search_best_layer<A, I>(
        &self,
        b_save_advice: bool,
        word: &Vec<Fr>,
        word_info: &WordInfo<I>,
        min_layer: usize,
        top: Plan<A>,
    ) -> (r: Plan<A>) where M: GadgetMapper<A, I>
        requires
            self.wf::<A, I>(),
            top.layer < self.layered_circs@.len(),
            top.is_for(self.circ(top.layer as int), self.look_ahead, top.layer as nat, word@, *word_info, b_save_advice),
        ensures
            r.layer == self.search::<A, I>(word@, *word_info, min_layer as int, top.layer as int, top.layer as int),
            r.layer < self.layered_circs@.len(),
            r.is_for(self.circ(r.layer as int), self.look_ahead, r.layer as nat, word@, *word_info, b_save_advice),
    {
        let mut lo = min_layer;
        let n: usize = self.layered_circs.len();
        let mut past: usize = top.layer + 1;
        let ghost target = self.search::<A, I>(
            word@,
            *word_info,
            min_layer as int,
            top.layer as int,
            top.layer as int,
        );
        let mut best = top;
        while lo < past
            invariant
                self.wf::<A, I>(),
                past <= self.layered_circs@.len(),
                best.layer < self.layered_circs@.len(),
                best.is_for(self.circ(best.layer as int), self.look_ahead, best.layer as nat, word@, *word_info, b_save_advice),
                target == self.search::<A, I>(word@, *word_info, lo as int, past - 1, best.layer as int),
            decreases past - lo,
        {
            let mid = lo + (past - 1 - lo) / 2;
            assert(mid == (lo + (past - 1)) / 2);
            match self.gen_nd_advice_at_layer(mid, b_save_advice, word, word_info) {
                Ok(p) => {
                    best = p;
                    past = mid;
                },
                Err(_) => {
                    lo = mid + 1;
                },
            }
        }
        best
    }

    /// A plan for the word in a layer that works. For words of middling length a segment
    /// in the middle is sampled to guess the layer.
    pub fn find_working_layer_for_wd<A, I>(&self, b_save_advice: bool, word: &Vec<Fr>, word_info: &WordInfo<I>) -> (r: Result<
        Plan<A>,
        Error,
    >) where M: GadgetMapper<A, I>
        requires
            self.wf::<A, I>(),
        ensures
            plan_outcome(r) == self.working::<A, I>(word@, *word_info),
            r matches Ok(p) ==> p.layer < self.layered_circs@.len() && p.is_for(
                self.circ(p.layer as int),
                self.look_ahead,
                p.layer as nat,
                word@,
                *word_info,
                b_save_advice,
            ),
    {
        let full_len = word.len();
        assert(self.layered_circs@[0]@.len() == 1);
        let max_wlen = self.layered_circs[0][0].max_word_len();
        let last = self.layered_circs.len() - 1;
        let guessed: usize = if full_len / 4 < max_wlen || full_len > LONG_BAR {
            assert(!self.sampled::<A, I>(word@));
            last
        } else {
            assert(self.sampled::<A, I>(word@));
            let seg = copy_range(word, full_len / 2, full_len / 2 + max_wlen);
            let top = match self.gen_nd_advice_at_layer(last, b_save_advice, &seg, word_info) {
                Err(e) => { return Err(e); },
                Ok(p) => p,
            };
            self.bin_search_best_layer(b_save_advice, &seg, word_info, 0, top).layer
        };
        match self.gen_nd_advice_at_layer(guessed, b_save_advice, word, word_info) {
            Ok(p) => Ok(p),
            Err(_) => self.gen_nd_advice_at_layer(last, b_save_advice, word, word_info),
        }
    }

    /// The plan for the word with the lowest layer that works for it.
    pub fn plan_nd_advice_new<A, I>(&self, b_save_advice: bool, word: &Vec<Fr>, word_info: &WordInfo<I>) -> (r: Result<
        Plan<A>,
        Error,
    >) where M: GadgetMapper<A, I>
        requires
            self.wf::<A, I>(),
        ensures
            plan_outcome(r) == self.planned::<A, I>(word@, *word_info),
            r matches Ok(p) ==> p.layer < self.layered_circs@.len() && p.is_for(
                self.circ(p.layer as int),
                self.look_ahead,
                p.layer as nat,
                word@,
                *word_info,
                b_save_advice,
            ),
    {
        match self.find_working_layer_for_wd(b_save_advice, word, word_info) {
            Err(e) => Err(e),
            Ok(top) => Ok(self.bin_search_best_layer(b_save_advice, word, word_info, 0, top)),
        }
    }

    /// The plan for the word.
    pub fn plan_nd_advice<A, I>(&self, b_save_advice: bool, word: &Vec<Fr>, word_info: &WordInfo<I>) -> (r: Result<
        Plan<A>,
        Error,
    >) where M: GadgetMapper<A, I>
        requires
            self.wf::<A, I>(),
        ensures
            plan_outcome(r) == self.planned::<A, I>(word@, *word_info),
            r matches Ok(p) ==> p.layer < self.layered_circs@.len() && p.is_for(
                self.circ(p.layer as int),
                self.look_ahead,
                p.layer as nat,
                word@,
                *word_info,
                b_save_advice,
            ),
    {
        self.plan_nd_advice_new(b_save_advice, word, word_info)
    }

    /// The plan with the lowest layer from `min_layer` to `max_layer` that works for the
    /// word, where every layer is tried. Where none works, what the last one lacks.
    pub fn par_search_best_layer<A, I>(
        &self,
        b_save_advice: bool,
        word: &Vec<Fr>,
        word_info: &WordInfo<I>,
        min_layer: usize,
        max_layer: usize,
    ) -> (r: Result<Plan<A>, Error>) where M: GadgetMapper<A, I>
        requires
            self.wf::<A, I>(),
            max_layer < self.layered_circs@.len(),
        ensures
            plan_outcome(r) == (match self.first_working::<A, I>(
                word@,
                *word_info,
                min_layer as int,
                max_layer as int,
            ) {
                Some(l) => Ok(l),
                None => if min_layer <= max_layer {
                    Err(word_advices::<A, I, M>(self.circ(max_layer as int), self.look_ahead, word@, *word_info)->Err_0)
                } else {
                    Err(ErrorView::NotSupported("No suitable layer found"@))
                },
            }),
            r matches Ok(p) ==> p.layer < self.layered_circs@.len() && p.is_for(
                self.circ(p.layer as int),
                self.look_ahead,
                p.layer as nat,
                word@,
                *word_info,
                b_save_advice,
            ),
    {
        let ghost target = self.first_working::<A, I>(word@, *word_info, min_layer as int, max_layer as int);
        let mut err = Error::NotSupported("No suitable layer found".to_owned());
        let n: usize = self.layered_circs.len();
        let mut l = min_layer;
        while l <= max_layer
            invariant
                self.wf::<A, I>(),
                n == self.layered_circs@.len(),
                max_layer < n,
                l <= max_layer + 1 || l == min_layer,
                target == self.first_working::<A, I>(word@, *word_info, min_layer as int, max_layer as int),
                target == self.first_working::<A, I>(word@, *word_info, l as int, max_layer as int),
                min_layer <= l,
                l == min_layer ==> err@ == ErrorView::NotSupported("No suitable layer found"@),
                l > min_layer ==> word_advices::<A, I, M>(self.circ(l - 1), self.look_ahead, word@, *word_info) == Err::<
                    Seq<A>,
                    ErrorView,
                >(err@),
            decreases max_layer + 1 - l,
        {
            match self.gen_nd_advice_at_layer(l, b_save_advice, word, word_info) {
                Ok(p) => {
                    assert(self.works::<A, I>(l as int, word@, *word_info));
                    return Ok(p);
                },
                Err(e) => {
                    assert(!self.works::<A, I>(l as int, word@, *word_info));
                    err = e;
                },
            }
            l = l + 1;
        }
        Err(err)
    }
}

/// The layers are a ladder for a word: where one works, so does each above it.
pub open spec fn ladder<A, I, M: GadgetMapper<A, I>>(p: CapacityPlanner<M>, word: Seq<Fr>, info: WordInfo<I>) -> bool {
    forall|l: int, m: int|
        0 <= l <= m < p.layered_circs@.len() && #[trigger] p.works::<A, I>(l, word, info) ==> #[trigger] p.works::<
            A,
            I,
        >(m, word, info)
}

/// A binary search that has ruled out all layers below `lo` and knows that `best`, next
/// to the layers that are left, works, ends with the lowest layer that works.
proof fn lemma_search<A, I, M: GadgetMapper<A, I>>(
    p: CapacityPlanner<M>,
    word: Seq<Fr>,
    info: WordInfo<I>,
    lo: int,
    hi: int,
    best: int,
)
    requires
        ladder::<A, I, M>(p, word, info),
        0 <= lo <= hi + 1,
        best == hi || best == hi + 1,
        0 <= best < p.layered_circs@.len(),
        p.works::<A, I>(best, word, info),
        forall|l: int| 0 <= l < lo ==> !#[trigger] p.works::<A, I>(l, word, info),
    ensures
        ({
            let r = p.search::<A, I>(word, info, lo, hi, best);
            &&& 0 <= r <= best
            &&& p.works::<A, I>(r, word, info)
            &&& forall|l: int| 0 <= l < r ==> !#[trigger] p.works::<A, I>(l, word, info)
        }),
    decreases hi - lo + 1,
{
    if lo <= hi {
        let mid = (lo + hi) / 2;
        if p.works::<A, I>(mid, word, info) {
            lemma_search::<A, I, M>(p, word, info, lo, mid - 1, mid);
        } else {
            lemma_search::<A, I, M>(p, word, info, mid + 1, hi, best);
        }
    }
}

/// On a ladder the plan for a word has the lowest layer that works, and a word has a
/// plan wherever the last layer works for it and for the sample.
pub proof fn law_plan_is_lowest<A, I, M: GadgetMapper<A, I>>(p: CapacityPlanner<M>, word: Seq<Fr>, info: WordInfo<I>)
    requires
        p.wf::<A, I>(),
        ladder::<A, I, M>(p, word, info),
    ensures
        p.planned::<A, I>(word, info) matches Ok(r) ==> {
            &&& 0 <= r < p.layered_circs@.len()
            &&& p.works::<A, I>(r, word, info)
            &&& forall|l: int| 0 <= l < r ==> !#[trigger] p.works::<A, I>(l, word, info)
        },
        ({
            let last = p.layered_circs@.len() - 1;
            p.works::<A, I>(last, word, info) && p.works::<A, I>(last, p.sample::<A, I>(word), info)
                ==> p.planned::<A, I>(word, info) is Ok
        }),
{
    let last = p.layered_circs@.len() - 1;
    let sample = p.sample::<A, I>(word);
    lemma_search_range::<A, I, M>(p, sample, info, 0, last, last);
    if p.working::<A, I>(word, info) is Ok {
        let top = p.working::<A, I>(word, info)->Ok_0;
        lemma_search::<A, I, M>(p, word, info, 0, top, top);
    }
}

/// A binary search ends within its bounds or with the best layer so far.
proof fn lemma_search_range<A, I, M: GadgetMapper<A, I>>(
    p: CapacityPlanner<M>,
    word: Seq<Fr>,
    info: WordInfo<I>,
    lo: int,
    hi: int,
    best: int,
)
    requires
        0 <= lo,
    ensures
        ({
            let r = p.search::<A, I>(word, info, lo, hi, best);
            r == best || lo <= r <= hi
        }),
    decreases hi - lo + 1,
{
    if lo <= hi {
        let mid = (lo + hi) / 2;
        if p.works::<A, I>(mid, word, info) {
            lemma_search_range::<A, I, M>(p, word, info, lo, mid - 1, mid);
        } else {
            lemma_search_range::<A, I, M>(p, word, info, mid + 1, hi, best);
        }
    }
}

/// Trying every layer finds the lowest one that works.
pub proof fn law_first_working_is_lowest<A, I, M: GadgetMapper<A, I>>(
    p: CapacityPlanner<M>,
    word: Seq<Fr>,
    info: WordInfo<I>,
    lo: int,
    hi: int,
)
    ensures
        match p.first_working::<A, I>(word, info, lo, hi) {
            Some(r) => {
                &&& lo <= r <= hi
                &&& p.works::<A, I>(r, word, info)
                &&& forall|l: int| lo <= l < r ==> !#[trigger] p.works::<A, I>(l, word, info)
            },
            None => forall|l: int| lo <= l <= hi ==> !#[trigger] p.works::<A, I>(l, word, info),
        },
    decreases hi - lo + 1,
{
    if lo <= hi && !p.works::<A, I>(lo, word, info) {
        law_first_working_is_lowest::<A, I, M>(p, word, info, lo + 1, hi);
    }
}

/// What a word lacks, as names and sizes. Another error has one entry, with its text
/// behind `label`.
pub open spec fn lacking(label: Seq<char>, e: ErrorView) -> Seq<(Seq<char>, usize)> {
    match e {
        ErrorView::CapErr(v) => v,
        _ => seq![(label + error_text(e), 0usize)],
    }
}

/// Names and sizes as mathematical data.
pub open spec fn sizes_view(v: Seq<(String, usize)>) -> Seq<(Seq<char>, usize)> {
    v.map_values(|p: (String, usize)| (p.0@, p.1))
}

/// What a word lacks, as names and sizes. Another error has one entry, with its text
/// behind `label`.
fn list_lacking(label: &str, e: Error) -> (v: Vec<(String, usize)>)
    ensures
        sizes_view(v@) == lacking(label@, e@),
{
    match e {
        Error::CapErr(v) => v,
        _ => {
            let mut v: Vec<(String, usize)> = Vec::new();
            let mut name: String = label.to_owned();
            name.append(e.text().as_str());
            v.push((name, 0));
            assert(sizes_view(v@) =~= lacking(label@, e@));
            v
        },
    }
}

/// The number of segments of the first `n` words.
pub open spec fn total_segs(words: Seq<Seq<Fr>>, max: nat, n: nat) -> nat
    decreases n,
{
    if n == 0 {
        0
    } else {
        total_segs(words, max, (n - 1) as nat) + num_segs(words[n - 1].len(), max)
    }
}

/// Words have no more segments than elements.
proof fn lemma_total_segs(words: Seq<Seq<Fr>>, max: nat, n: nat)
    requires
        max > 0,
        n <= words.len(),
    ensures
        total_segs(words, max, n) <= joined(words.take(n as int)).len() <= joined(words).len(),
    decreases n,
{
    lemma_prefix_len(words, n);
    if n > 0 {
        lemma_total_segs(words, max, (n - 1) as nat);
        assert(words.take(n as int).drop_last() =~= words.take(n - 1));
        let len = words[n - 1].len();
        let k = num_segs(len, max);
        if k > 0 {
            lemma_segment_bounds(len, max, (k - 1) as nat);
            assert(k - 1 <= (k - 1) * max) by (nonlinear_arith)
                requires
                    max >= 1,
                    k >= 1,
            ;
        }
    }
}

proof fn lemma_prefix_len(v: Seq<Seq<Fr>>, n: nat)
    requires
        n <= v.len(),
    ensures
        joined(v.take(n as int)).len() <= joined(v).len(),
    decreases v.len(),
{
    if n == v.len() {
        assert(v.take(n as int) =~= v);
    } else {
        lemma_prefix_len(v.drop_last(), n);
        assert(v.drop_last().take(n as int) =~= v.take(n as int));
    }
}

impl<M> CapacityPlanner<M> {
    /// Plans all words. Returns the number of steps, or what the first word that cannot
    /// be planned lacks.
    pub fn capacity_probe<A, I>(&self, words: &Vec<Vec<Fr>>, word_infos: &Vec<WordInfo<I>>) -> (r: Result<
        usize,
        Vec<(String, usize)>,
    >) where M: GadgetMapper<A, I>
        requires
            self.wf::<A, I>(),
            words@.len() <= word_infos@.len(),
            joined(rows(words@)).len() <= usize::MAX,
        ensures
            match r {
                Ok(n) => n == total_segs(rows(words@), self.circ(0).max_len(), words@.len()) && forall|i: int|
                    0 <= i < words@.len() ==> (#[trigger] self.planned::<A, I>(words@[i]@, word_infos@[i])) is Ok,
                Err(v) => exists|i: int|
                    0 <= i < words@.len() && (#[trigger] self.planned::<A, I>(words@[i]@, word_infos@[i])) is Err
                        && sizes_view(v@) == lacking(
                        "non-cap error: "@,
                        self.planned::<A, I>(words@[i]@, word_infos@[i])->Err_0,
                    ) && forall|j: int|
                        0 <= j < i ==> (#[trigger] self.planned::<A, I>(words@[j]@, word_infos@[j])) is Ok,
            },
    {
        let ghost all = rows(words@);
        let ghost max = self.circ(0).max_len();
        let mut total: usize = 0;
        let mut i: usize = 0;
        while i < words.len()
            invariant
                i <= words@.len(),
                words@.len() <= word_infos@.len(),
                all == rows(words@),
                max == self.circ(0).max_len(),
                self.wf::<A, I>(),
                joined(all).len() <= usize::MAX,
                total == total_segs(all, max, i as nat),
                forall|j: int|
                    0 <= j < i ==> (#[trigger] self.planned::<A, I>(words@[j]@, word_infos@[j])) is Ok,
            decreases words.len() - i,
        {
            match self.plan_nd_advice(false, &words[i], &word_infos[i]) {
                Ok(p) => {
                    proof {
                        assert(self.circ(p.layer as int).max_len() == max);
                        assert(all[i as int] == words@[i as int]@);
                        lemma_total_segs(all, max, (i + 1) as nat);
                    }
                    total = total + p.num_segs;
                },
                Err(e) => {
                    assert(self.planned::<A, I>(words@[i as int]@, word_infos@[i as int]) is Err);
                    return Err(list_lacking("non-cap error: ", e));
                },
            }
            i = i + 1;
        }
        Ok(total)
    }

    /// Plans all words and returns for each one what it lacks, none where it is planned.
    pub fn capacity_probe_collect<A, I>(&self, words: &Vec<Vec<Fr>>, word_infos: &Vec<WordInfo<I>>) -> (r: Vec<
        Option<Vec<(String, usize)>>,
    >) where M: GadgetMapper<A, I>
        requires
            self.wf::<A, I>(),
            words@.len() <= word_infos@.len(),
        ensures
            r@.len() == words@.len(),
            forall|i: int|
                0 <= i < words@.len() ==> match #[trigger] r@[i] {
                    None => self.planned::<A, I>(words@[i]@, word_infos@[i]) is Ok,
                    Some(v) => {
                        let p = self.planned::<A, I>(words@[i]@, word_infos@[i]);
                        p is Err && sizes_view(v@) == lacking("non-cap: "@, p->Err_0)
                    },
                },
    {
        let mut r: Vec<Option<Vec<(String, usize)>>> = Vec::new();
        let mut i: usize = 0;
        while i < words.len()
            invariant
                i <= words@.len(),
                words@.len() <= word_infos@.len(),
                self.wf::<A, I>(),
                r@.len() == i,
                forall|k: int|
                    0 <= k < i ==> match #[trigger] r@[k] {
                        None => self.planned::<A, I>(words@[k]@, word_infos@[k]) is Ok,
                        Some(v) => {
                            let p = self.planned::<A, I>(words@[k]@, word_infos@[k]);
                            p is Err && sizes_view(v@) == lacking("non-cap: "@, p->Err_0)
                        },
                    },
            decreases words.len() - i,
        {
            match self.plan_nd_advice(false, &words[i], &word_infos[i]) {
                Ok(_) => {
                    r.push(None);
                },
                Err(e) => {
                    r.push(Some(list_lacking("non-cap: ", e)));
                },
            }
            i = i + 1;
        }
        r
    }
}

/// A circuit that sums the elements of a lookup table: of one element where it is odd,
/// or of up to two elements where the first is even.
#[derive(Debug, Clone, Copy, PartialEq, Eq, Structural)]
pub struct SumMapper {
    pub b_odd: bool,
}

impl SumMapper {
    pub fn new(b_odd: bool) -> (r: SumMapper)
        ensures
            r.b_odd == b_odd,
    {
        SumMapper { b_odd }
    }

    /// Whether the circuit can handle a word with the first element `w0`.
    pub fn can_handle(&self, w0: &Fr) -> (b: bool)
        ensures
            b == ((w0.val() % 2 == 1) == self.b_odd),
    {
        let odd = w0.low_u64() % 2 == 1;
        let ghost v = w0.val();
        assert((v % 0x1_0000_0000_0000_0000) % 2 == v % 2);
        odd == self.b_odd
    }
}

impl GadgetMapper<(), ()> for SumMapper {
    open spec fn max_len(&self) -> nat {
        if self.b_odd { 1 } else { 2 }
    }

    open spec fn capacity(&self) -> CapacityView {
        CapacityView { halo_nibbles: 0, sizes: seq![("word_seg_len"@, self.max_len() as usize)] }
    }

    open spec fn nibbles(&self, word: Seq<Fr>) -> Seq<u8> {
        Seq::empty()
    }

    open spec fn advice(&self, seg: Seq<Fr>, info: (), halo: Seq<u8>, prev: Option<()>, seg_id: nat) -> Result<
        (),
        ErrorView,
    > {
        if seg.len() > self.max_len() {
            Err(ErrorView::CapErr(seq![("max_word_len"@, seg.len() as usize)]))
        } else if seg.len() == 0 || (seg[0].val() % 2 == 1) != self.b_odd {
            Err(ErrorView::CapErr(seq![("w0_val%2==1 != b_odd"@, seg.len() as usize)]))
        } else {
            Ok(())
        }
    }

    fn max_word_len(&self) -> (n: usize) {
        if self.b_odd { 1 } else { 2 }
    }

    fn get_capacity(&self) -> (c: Capacity) {
        let mut sizes: Vec<(String, usize)> = Vec::new();
        sizes.push(("word_seg_len".to_owned(), self.max_word_len()));
        assert(sizes_view(sizes@) =~= seq![("word_seg_len"@, self.max_len() as usize)]);
        Capacity { halo_nibbles: 0, sizes }
    }

    fn packed_to_nibbles(&self, word: &Vec<Fr>) -> (r: Vec<u8>) {
        Vec::new()
    }

    fn gen_nd_advice(&self, seg: &Vec<Fr>, info: &(), halo: &Vec<u8>, prev: Option<&()>, seg_id: usize) -> (r: Result<
        (),
        Error,
    >) {
        let n = seg.len();
        if n > self.max_word_len() {
            return Err(one_lacking("max_word_len".to_owned(), n));
        }
        if n == 0 || !self.can_handle(&seg[0]) {
            return Err(one_lacking("w0_val%2==1 != b_odd".to_owned(), n));
        }
        Ok(())
    }
}

/// The error that one thing is lacking.
fn one_lacking(name: String, n: usize) -> (e: Error)
    ensures
        e@ == ErrorView::CapErr(seq![(name@, n)]),
{
    let mut v: Vec<(String, usize)> = Vec::new();
    v.push((name, n));
    assert(v@.map_values(|p: (String, usize)| (p.0@, p.1)) =~= seq![(name@, n)]);
    Error::CapErr(v)
}

} // verus!
