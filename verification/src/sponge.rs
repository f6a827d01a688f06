//! The Poseidon sponge over BN254's scalar field.
use vstd::prelude::*;
use ark_bn254::Fr as ArkFr;
use ark_crypto_primitives::sponge::poseidon::PoseidonConfig as ArkConfig;
use ark_crypto_primitives::sponge::poseidon::PoseidonSponge;
use ark_crypto_primitives::sponge::CryptographicSponge;
use ark_crypto_primitives::sponge::FieldBasedCryptographicSponge;
use ark_ff::BigInt;
use ark_ff::PrimeField;
use crate::bigint::ark_to_bits_le;
use crate::bigint::bits_value;
use crate::field::FieldModel;
use crate::field_fr::Fr;
use crate::vecs::copy_of;
use crate::vecs::copy_rows;
use crate::vecs::rows;

verus! {

/// How many bits a challenge of a folding step has.
pub const N_BITS_RO: usize = 128;

/// How many low bits of a squeezed element are handed out as bits.
pub const USABLE_BITS: usize = 253;

/// The parameters of the Poseidon permutation and its sponge.
#[derive(Debug)]
pub struct PoseidonConfig {
    /// Number of rounds with an S-box on every element.
    pub full_rounds: usize,
    /// Number of rounds with an S-box on the first element alone.
    pub partial_rounds: usize,
    /// Exponent of the S-box.
    pub alpha: u64,
    /// The constants that are added in each round.
    pub ark: Vec<Vec<Fr>>,
    /// The mixing matrix.
    pub mds: Vec<Vec<Fr>>,
    /// How many elements a permutation absorbs or hands out.
    pub rate: usize,
    /// How many elements are never touched from outside.
    pub capacity: usize,
}

/// Poseidon's parameters as mathematical data.
pub struct PoseidonConfigView {
    pub full_rounds: usize,
    pub partial_rounds: usize,
    pub alpha: u64,
    pub ark: Seq<Seq<Fr>>,
    pub mds: Seq<Seq<Fr>>,
    pub rate: usize,
    pub capacity: usize,
}

impl View for PoseidonConfig {
    type V = PoseidonConfigView;

    open spec fn view(&self) -> PoseidonConfigView {
        PoseidonConfigView {
            full_rounds: self.full_rounds,
            partial_rounds: self.partial_rounds,
            alpha: self.alpha,
            ark: rows(self.ark@),
            mds: rows(self.mds@),
            rate: self.rate,
            capacity: self.capacity,
        }
    }
}

impl PoseidonConfigView {
    /// Whether the tables have the sizes that the numbers tell and something can
    /// be absorbed.
    pub open spec fn wf(self) -> bool {
        let width = self.rate + self.capacity;
        &&& self.rate > 0
        &&& width <= usize::MAX
        &&& self.full_rounds + self.partial_rounds == self.ark.len()
        &&& forall|i: int| 0 <= i < self.ark.len() ==> (#[trigger] self.ark[i]).len() == width
        &&& self.mds.len() == width
        &&& forall|i: int| 0 <= i < self.mds.len() ==> (#[trigger] self.mds[i]).len() == width
    }
}

impl Clone for PoseidonConfig {
    fn clone(&self) -> (r: PoseidonConfig)
        ensures
            r@ == self@,
    {
        PoseidonConfig {
            full_rounds: self.full_rounds,
            partial_rounds: self.partial_rounds,
            alpha: self.alpha,
            ark: copy_rows(&self.ark),
            mds: copy_rows(&self.mds),
            rate: self.rate,
            capacity: self.capacity,
        }
    }
}

/// What was done to a sponge.
#[derive(Debug)]
pub enum SpongeOp {
    Absorb(Vec<Fr>),
    Squeeze(usize),
}

pub enum SpongeOpView {
    Absorb(Seq<Fr>),
    Squeeze(nat),
}

impl View for SpongeOp {
    type V = SpongeOpView;

    open spec fn view(&self) -> SpongeOpView {
        match self {
            SpongeOp::Absorb(v) => SpongeOpView::Absorb(v@),
            SpongeOp::Squeeze(n) => SpongeOpView::Squeeze(*n as nat),
        }
    }
}

/// A sponge: its parameters and what was done to it since it was made.
#[derive(Debug)]
pub struct Sponge {
    pub config: PoseidonConfig,
    pub log: Vec<SpongeOp>,
}

pub struct SpongeView {
    pub config: PoseidonConfigView,
    pub log: Seq<SpongeOpView>,
}

pub open spec fn ops(log: Seq<SpongeOp>) -> Seq<SpongeOpView> {
    log.map_values(|o: SpongeOp| o@)
}

impl View for Sponge {
    type V = SpongeView;

    open spec fn view(&self) -> SpongeView {
        SpongeView { config: self.config@, log: ops(self.log@) }
    }
}

/// The elements that `ark_crypto_primitives`' Poseidon sponge with the parameters
/// `config` hands out when, after `log`, `n` elements are asked for.
pub uninterp spec fn poseidon_output(config: PoseidonConfigView, log: Seq<SpongeOpView>, n: nat) -> Seq<Fr>;

impl SpongeView {
    /// A sponge to which nothing was done.
    pub open spec fn fresh(config: PoseidonConfigView) -> SpongeView {
        SpongeView { config, log: Seq::empty() }
    }

    /// The sponge after it absorbed `elems`.
    pub open spec fn absorbed(self, elems: Seq<Fr>) -> SpongeView {
        SpongeView { config: self.config, log: self.log.push(SpongeOpView::Absorb(elems)) }
    }

    /// The next `n` elements that the sponge hands out.
    pub open spec fn output(self, n: nat) -> Seq<Fr> {
        poseidon_output(self.config, self.log, n)
    }

    /// The sponge after it handed out `n` elements.
    pub open spec fn squeezed(self, n: nat) -> SpongeView {
        SpongeView { config: self.config, log: self.log.push(SpongeOpView::Squeeze(n)) }
    }

    /// How many elements give `n` bits.
    pub open spec fn elements_for_bits(n: nat) -> nat {
        ((n + USABLE_BITS - 1) / USABLE_BITS as int) as nat
    }

    /// The next `n` bits that the sponge hands out.
    pub open spec fn output_bits(self, n: nat) -> Seq<bool> {
        usable_bits(self.output(SpongeView::elements_for_bits(n))).take(n as int)
    }
}

/// The 256 binary digits of `n`, least significant first.
pub open spec fn binary(n: nat) -> Seq<bool> {
    choose|s: Seq<bool>| s.len() == 256 && bits_value(s) == n
}

/// The low bits of the elements behind each other.
pub open spec fn usable_bits(elems: Seq<Fr>) -> Seq<bool>
    decreases elems.len(),
{
    if elems.len() == 0 {
        Seq::empty()
    } else {
        usable_bits(elems.drop_last()) + binary(elems.last().val()).take(USABLE_BITS as int)
    }
}

/// Binary digits are determined by their number.
proof fn lemma_bits_unique(s: Seq<bool>, t: Seq<bool>)
    requires
        s.len() == t.len(),
        bits_value(s) == bits_value(t),
    ensures
        s == t,
    decreases s.len(),
{
    if s.len() > 0 {
        lemma_bits_unique(s.drop_first(), t.drop_first());
        assert forall|i: int| 0 <= i < s.len() implies s[i] == t[i] by {
            if i > 0 {
                assert(s[i] == s.drop_first()[i - 1]);
                assert(t[i] == t.drop_first()[i - 1]);
            }
        }
    }
    assert(s =~= t);
}

/// The parameters as mathematical data.
pub open spec fn config_of(
    full_rounds: usize,
    partial_rounds: usize,
    alpha: u64,
    ark: Seq<Seq<Fr>>,
    mds: Seq<Seq<Fr>>,
    rate: usize,
    capacity: usize,
) -> PoseidonConfigView {
    PoseidonConfigView { full_rounds, partial_rounds, alpha, ark, mds, rate, capacity }
}

/// `ark_crypto_primitives`' `PoseidonSponge`: a sponge with the given parameters is
/// made, absorbs and hands out what `log` tells, and then hands out `n` elements.
#[verifier::external_body]
fn ark_poseidon(
    full_rounds: usize,
    partial_rounds: usize,
    alpha: u64,
    ark: &Vec<Vec<Fr>>,
    mds: &Vec<Vec<Fr>>,
    rate: usize,
    capacity: usize,
    log: &Vec<SpongeOp>,
    n: usize,
) -> (r: Vec<Fr>)
    requires
        config_of(full_rounds, partial_rounds, alpha, rows(ark@), rows(mds@), rate, capacity).wf(),
    ensures
        r@ == poseidon_output(
            config_of(full_rounds, partial_rounds, alpha, rows(ark@), rows(mds@), rate, capacity),
            ops(log@),
            n as nat,
        ),
        r@.len() == n,
{
    let conv = |v: &Vec<Fr>| -> Vec<ArkFr> { v.iter().map(|e| BigInt(e.limbs()).into()).collect() };
    let [ark, mds] = [ark, mds].map(|m| m.iter().map(conv).collect());
    let mut sponge = PoseidonSponge::new(
        &ArkConfig::new(full_rounds, partial_rounds, alpha, mds, ark, rate, capacity));
    for op in log {
        match op {
            SpongeOp::Absorb(v) => sponge.absorb(&conv(v)),
            SpongeOp::Squeeze(k) => drop(sponge.squeeze_native_field_elements(*k)),
        }
    }
    sponge.squeeze_native_field_elements(n).iter().map(|e| Fr::from_limbs(e.into_bigint().0)).collect()
}

impl Sponge {
    pub open spec fn wf(&self) -> bool {
        self@.config.wf()
    }

    /// A sponge to which nothing was done.
    pub fn new(config: &PoseidonConfig) -> (r: Sponge)
        ensures
            r@ == SpongeView::fresh(config@),
    {
        let r = Sponge { config: config.clone(), log: Vec::new() };
        assert(ops(r.log@) =~= Seq::empty());
        r
    }

    /// A sponge to which the same was done.
    pub fn dup(&self) -> (r: Sponge)
        ensures
            r@ == self@,
    {
        let mut log: Vec<SpongeOp> = Vec::new();
        let mut i: usize = 0;
        while i < self.log.len()
            invariant
                i <= self.log@.len(),
                ops(log@) == ops(self.log@).take(i as int),
            decreases self.log.len() - i,
        {
            let ghost before = log@;
            match &self.log[i] {
                SpongeOp::Absorb(v) => log.push(SpongeOp::Absorb(copy_of(v))),
                SpongeOp::Squeeze(n) => log.push(SpongeOp::Squeeze(*n)),
            }
            assert(ops(log@) =~= ops(before).push(ops(self.log@)[i as int]));
            assert(ops(self.log@).take(i + 1) =~= ops(self.log@).take(i as int).push(ops(self.log@)[i as int]));
            i = i + 1;
        }
        assert(ops(self.log@).take(i as int) =~= ops(self.log@));
        Sponge { config: self.config.clone(), log }
    }

    /// Absorbs the elements of a vector.
    pub fn absorb(&mut self, elems: &Vec<Fr>)
        ensures
            final(self)@ == old(self)@.absorbed(elems@),
    {
        self.log.push(SpongeOp::Absorb(copy_of(elems)));
        assert(ops(self.log@) =~= ops(old(self).log@).push(SpongeOpView::Absorb(elems@)));
    }

    /// Absorbs one element.
    pub fn absorb_one(&mut self, elem: &Fr)
        ensures
            final(self)@ == old(self)@.absorbed(seq![*elem]),
    {
        let mut v: Vec<Fr> = Vec::new();
        v.push(*elem);
        assert(v@ =~= seq![*elem]);
        self.absorb(&v);
    }

    /// Hands out `n` elements.
    pub fn squeeze(&mut self, n: usize) -> (r: Vec<Fr>)
        requires
            old(self).wf(),
        ensures
            r@ == old(self)@.output(n as nat),
            r@.len() == n,
            final(self)@ == old(self)@.squeezed(n as nat),
    {
        let c = &self.config;
        let r = ark_poseidon(
            c.full_rounds,
            c.partial_rounds,
            c.alpha,
            &c.ark,
            &c.mds,
            c.rate,
            c.capacity,
            &self.log,
            n,
        );
        self.log.push(SpongeOp::Squeeze(n));
        assert(ops(self.log@) =~= ops(old(self).log@).push(SpongeOpView::Squeeze(n as nat)));
        r
    }

    /// Hands out `n` bits: the low bits of as many elements as it takes.
    pub fn squeeze_bits(&mut self, n: usize) -> (r: Vec<bool>)
        requires
            old(self).wf(),
            n + USABLE_BITS <= usize::MAX,
        ensures
            r@ == old(self)@.output_bits(n as nat),
            r@.len() == n,
            final(self)@ == old(self)@.squeezed(SpongeView::elements_for_bits(n as nat)),
    {
        let k: usize = (n + (USABLE_BITS - 1)) / USABLE_BITS;
        let elems = self.squeeze(k);
        let mut bits: Vec<bool> = Vec::new();
        let mut i: usize = 0;
        assert(elems@.take(0) =~= Seq::empty());
        while i < k
            invariant
                i <= k,
                k == elems@.len(),
                bits@ == usable_bits(elems@.take(i as int)),
                bits@.len() == i * USABLE_BITS,
            decreases k - i,
        {
            let all = ark_to_bits_le(elems[i].limbs());
            proof {
                lemma_bits_unique(all@, binary(elems@[i as int].val()));
            }
            let low = crate::vecs::copy_range(&all, 0, USABLE_BITS);
            assert(low@ =~= binary(elems@[i as int].val()).take(USABLE_BITS as int));
            crate::vecs::push_all(&mut bits, &low);
            assert(elems@.take(i + 1).drop_last() =~= elems@.take(i as int));
            i = i + 1;
        }
        assert(elems@.take(k as int) =~= elems@);
        assert(k * USABLE_BITS >= n);
        let r = crate::vecs::copy_range(&bits, 0, n);
        assert(r@ =~= bits@.take(n as int));
        r
    }

    /// Hands out one element.
    pub fn squeeze_one(&mut self) -> (r: Fr)
        requires
            old(self).wf(),
        ensures
            r == old(self)@.output(1)[0],
            final(self)@ == old(self)@.squeezed(1),
    {
        let v = self.squeeze(1);
        v[0]
    }
}

} // verus!
