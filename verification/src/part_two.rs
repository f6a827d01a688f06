//! The second part of a state: what the steps hand on besides the chain of digests
//! of the fixed memories.
use vstd::prelude::*;
use crate::field::f_zero;
use crate::field::Field;
use crate::field::FieldModel;
use crate::field_fr::Fr;
use crate::limbs::absorb_g1;
use crate::limbs::g1_absorbed;
use crate::curve::G1;
use crate::sponge::PoseidonConfig;
use crate::sponge::PoseidonConfigView;
use crate::sponge::Sponge;
use crate::sponge::SpongeView;
use crate::vecs::copy_of;
use crate::vecs::filled;
use crate::vecs::push_all;
use crate::vecs::repeated;

verus! {

/// How many elements of the scalar field encode the input of a pairing circuit.
pub const CYCLEPAIR_INPUT_LEN: usize = 160;

/// The second part of a state.
#[derive(Debug)]
pub struct ZiPartTwoInst {
    /// The challenge at which the polynomials are evaluated.
    pub ch: Fr,
    /// The coefficient by which evaluations are combined.
    pub rc: Fr,
    /// The sums of the evaluations so far: of the lookup table, of the words and of
    /// what is left.
    pub sum_kzg_eval_lk: Fr,
    pub sum_kzg_eval_word: Fr,
    pub sum_kzg_eval_others: Fr,
    /// The result so far.
    pub f_result: Fr,
    /// How many words there are.
    pub n_words: Fr,
    /// The input of the pairing circuit, where pairings are folded too.
    pub cyclepair_input: Option<Vec<Fr>>,
}

#[verifier::ext_equal]
pub struct PartTwoView {
    pub ch: Fr,
    pub rc: Fr,
    pub sum_kzg_eval_lk: Fr,
    pub sum_kzg_eval_word: Fr,
    pub sum_kzg_eval_others: Fr,
    pub f_result: Fr,
    pub n_words: Fr,
    pub cyclepair_input: Option<Seq<Fr>>,
}

impl View for ZiPartTwoInst {
    type V = PartTwoView;

    open spec fn view(&self) -> PartTwoView {
        PartTwoView {
            ch: self.ch,
            rc: self.rc,
            sum_kzg_eval_lk: self.sum_kzg_eval_lk,
            sum_kzg_eval_word: self.sum_kzg_eval_word,
            sum_kzg_eval_others: self.sum_kzg_eval_others,
            f_result: self.f_result,
            n_words: self.n_words,
            cyclepair_input: crate::curve::opt_view(self.cyclepair_input),
        }
    }
}

impl PartTwoView {
    /// The second part of a first state.
    pub open spec fn new(ch: Fr, rc: Fr, full_mode: bool, n_words: nat) -> PartTwoView {
        PartTwoView {
            ch,
            rc,
            sum_kzg_eval_lk: f_zero::<Fr>(),
            sum_kzg_eval_word: f_zero::<Fr>(),
            sum_kzg_eval_others: f_zero::<Fr>(),
            f_result: f_zero::<Fr>(),
            n_words: Fr::of(n_words),
            cyclepair_input: if full_mode {
                Some(repeated(f_zero::<Fr>(), CYCLEPAIR_INPUT_LEN as nat))
            } else {
                None
            },
        }
    }

    pub open spec fn elements(self) -> Seq<Fr> {
        let head = seq![
            self.ch,
            self.rc,
            self.sum_kzg_eval_lk,
            self.sum_kzg_eval_word,
            self.sum_kzg_eval_others,
            self.f_result,
            self.n_words,
        ];
        match self.cyclepair_input {
            Some(v) => head + v,
            None => head,
        }
    }

    pub open spec fn hash(self, config: PoseidonConfigView) -> Fr {
        digest(config, self.elements())
    }
}

/// The digest of a list of elements.
pub open spec fn digest(config: PoseidonConfigView, elems: Seq<Fr>) -> Fr {
    SpongeView::fresh(config).absorbed(elems).output(1)[0]
}

/// The digest of a list of elements.
pub fn digest_of(config: &PoseidonConfig, elems: &Vec<Fr>) -> (h: Fr)
    requires
        config@.wf(),
    ensures
        h == digest(config@, elems@),
{
    let mut s = Sponge::new(config);
    s.absorb(elems);
    s.squeeze_one()
}

/// The next link of a chain of digests.
pub open spec fn chained(config: PoseidonConfigView, h: Fr, elems: Seq<Fr>) -> Fr {
    digest(config, seq![h] + elems)
}

/// The next link of a chain of digests.
pub fn chain(config: &PoseidonConfig, h: &Fr, elems: &Vec<Fr>) -> (r: Fr)
    requires
        config@.wf(),
    ensures
        r == chained(config@, *h, elems@),
{
    let mut v: Vec<Fr> = Vec::new();
    v.push(*h);
    push_all(&mut v, elems);
    assert(v@ =~= seq![*h] + elems@);
    digest_of(config, &v)
}

/// The next link of the chain of digests of the fixed memories, that of a step whose
/// fixed memory has the commitment `cm_f`.
pub fn compute_step_hc(config: &PoseidonConfig, hc: &Fr, cm_f: &G1) -> (r: Fr)
    requires
        config@.wf(),
    ensures
        r == chained(config@, *hc, g1_absorbed(*cm_f)),
{
    chain(config, hc, &absorb_g1(cm_f))
}

impl ZiPartTwoInst {
    /// The second part of a first state.
    pub fn new(ch: &Fr, rc: &Fr, full_mode: bool, n_words: usize) -> (r: ZiPartTwoInst)
        requires
            n_words <= u64::MAX,
        ensures
            r@ == PartTwoView::new(*ch, *rc, full_mode, n_words as nat),
    {
        ZiPartTwoInst {
            ch: *ch,
            rc: *rc,
            sum_kzg_eval_lk: Fr::zero(),
            sum_kzg_eval_word: Fr::zero(),
            sum_kzg_eval_others: Fr::zero(),
            f_result: Fr::zero(),
            n_words: Fr::from_u64(n_words as u64),
            cyclepair_input: if full_mode {
                Some(filled(Fr::zero(), CYCLEPAIR_INPUT_LEN))
            } else {
                None
            },
        }
    }

    pub fn dup(&self) -> (r: ZiPartTwoInst)
        ensures
            r@ == self@,
    {
        ZiPartTwoInst {
            ch: self.ch,
            rc: self.rc,
            sum_kzg_eval_lk: self.sum_kzg_eval_lk,
            sum_kzg_eval_word: self.sum_kzg_eval_word,
            sum_kzg_eval_others: self.sum_kzg_eval_others,
            f_result: self.f_result,
            n_words: self.n_words,
            cyclepair_input: match &self.cyclepair_input {
                Some(v) => Some(copy_of(v)),
                None => None,
            },
        }
    }

    /// The digest.
    pub fn hash(&self, config: &PoseidonConfig) -> (h: Fr)
        requires
            config@.wf(),
        ensures
            h == self@.hash(config@),
    {
        let mut v: Vec<Fr> = Vec::new();
        v.push(self.ch);
        v.push(self.rc);
        v.push(self.sum_kzg_eval_lk);
        v.push(self.sum_kzg_eval_word);
        v.push(self.sum_kzg_eval_others);
        v.push(self.f_result);
        v.push(self.n_words);
        match &self.cyclepair_input {
            Some(input) => push_all(&mut v, input),
            None => {},
        }
        assert(v@ =~= self@.elements());
        digest_of(config, &v)
    }
}

} // verus!
