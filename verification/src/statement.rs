//! The statement of a step and what it is built from.
use vstd::prelude::*;
use crate::field_fr::Fr;

verus! {

/// What a step's statement tells besides the word: where in the run the step is,
/// and the values of the batch proof that belong to its word.
#[derive(Clone, Copy, PartialEq, Eq, Structural, Debug)]
pub struct StatementExtraInfo {
    pub total_words: Fr,
    /// The word that the step works on, counted from one.
    pub word_id: Fr,
    /// The segment of the word, counted from one.
    pub subseg_id: Fr,
    pub total_word_len: Fr,
    pub total_word_segs: Fr,
    pub n_circ: Fr,
    /// The circuit of the step before, which is folded in this step.
    pub pc_i: Fr,
    /// The circuit of this step.
    pub pc_i1: Fr,
    /// How much of the word the step covers.
    pub act_word_subseg_size: Fr,
    pub batch_r: Fr,
    pub batch_v: Fr,
    pub r_all_words: Fr,
    pub r_kzg_len: Fr,
    pub r_vec_r: Fr,
    pub r_vec_v: Fr,
    pub r_word_i: Fr,
    /// How much of the word the steps up to this one cover.
    pub accumulated_word_len: Fr,
}

/// The statement of a step.
#[derive(Debug)]
pub struct StatementInst {
    pub pc_i: Fr,
    pub pc_i1: Fr,
    pub n_circ: Fr,
    pub n_circ_minus_pc: Fr,
    pub act_input_size: Fr,
    pub act_output_size: Fr,
    pub act_lookup_share_size: Fr,
    pub act_word_subseg_size: Fr,
    pub word_id: Fr,
    pub subseg_id: Fr,
    pub total_word_len: Fr,
    pub total_word_segs: Fr,
    pub total_words: Fr,
    pub r_f: Fr,
    pub inp_buf: Vec<Fr>,
    pub oup_buf: Vec<Fr>,
    pub word_subseg: Vec<Fr>,
    pub data: Vec<Fr>,
    pub subtable_id: Vec<Fr>,
    pub col1_share: Vec<Fr>,
    pub col2_share: Vec<Fr>,
    pub m_share: Vec<Fr>,
}

#[verifier::ext_equal]
pub struct StatementView {
    pub pc_i: Fr,
    pub pc_i1: Fr,
    pub n_circ: Fr,
    pub n_circ_minus_pc: Fr,
    pub act_input_size: Fr,
    pub act_output_size: Fr,
    pub act_lookup_share_size: Fr,
    pub act_word_subseg_size: Fr,
    pub word_id: Fr,
    pub subseg_id: Fr,
    pub total_word_len: Fr,
    pub total_word_segs: Fr,
    pub total_words: Fr,
    pub r_f: Fr,
    pub inp_buf: Seq<Fr>,
    pub oup_buf: Seq<Fr>,
    pub word_subseg: Seq<Fr>,
    pub data: Seq<Fr>,
    pub subtable_id: Seq<Fr>,
    pub col1_share: Seq<Fr>,
    pub col2_share: Seq<Fr>,
    pub m_share: Seq<Fr>,
}

impl View for StatementInst {
    type V = StatementView;

    open spec fn view(&self) -> StatementView {
        StatementView {
            pc_i: self.pc_i,
            pc_i1: self.pc_i1,
            n_circ: self.n_circ,
            n_circ_minus_pc: self.n_circ_minus_pc,
            act_input_size: self.act_input_size,
            act_output_size: self.act_output_size,
            act_lookup_share_size: self.act_lookup_share_size,
            act_word_subseg_size: self.act_word_subseg_size,
            word_id: self.word_id,
            subseg_id: self.subseg_id,
            total_word_len: self.total_word_len,
            total_word_segs: self.total_word_segs,
            total_words: self.total_words,
            r_f: self.r_f,
            inp_buf: self.inp_buf@,
            oup_buf: self.oup_buf@,
            word_subseg: self.word_subseg@,
            data: self.data@,
            subtable_id: self.subtable_id@,
            col1_share: self.col1_share@,
            col2_share: self.col2_share@,
            m_share: self.m_share@,
        }
    }
}

} // verus!
