//! The decider circuit of the two computations: the first checks the statement, the
//! second the pairings on the commitments of the first.
use vstd::prelude::*;
use crate::commitment::CommitmentScheme;
use crate::commitment::PedersenGrumpkin;
use crate::curve::G1;
use crate::curve::G2;
use crate::curve::GT_LEN;
use crate::cyclepair::g1_elements;
use crate::cyclepair::g2_elements;
use crate::decider_circuits::opens;
use crate::decider_circuits::Phase1Circuit;
use crate::decider_circuits::Phase1CircuitRet;
use crate::decider_circuits::Phase1RetView;
use crate::decider_circuits::Phase2CircuitRet;
use crate::error::Error;
use crate::error::ErrorView;
use crate::field::f_zero;
use crate::field::Field;
use crate::field::FieldModel;
use crate::field_fq::fq_modulus;
use crate::field_fq::Fq;
use crate::field_fr::Fr;
use crate::foldpot::check_pair_relation;
use crate::foldpot::pair_check;
use crate::foldpot_super::FoldPotSuper;
use crate::foldpot_super::opt_pair;
use crate::foldpot_super::opt_witness;
use crate::instance_super::chain_a;
use crate::instance_super::chain_b;
use crate::instance_super::cyclepair_row;
use crate::instance_super::fqs_limbs;
use crate::instance_super::pairing_product;
use crate::instance_super::CYCLEPAIR_ROW_LEN;
use crate::limbs::f1_limbs_to_f2;
use crate::limbs::fq_limbs;
use crate::limbs::g1_limbs;
use crate::limbs::inputize;
use crate::limbs::law_limbs_round_trip;
use crate::limbs::limbs_number;
use crate::limbs::N_LIMBS;
use crate::part_two::chain;
use crate::part_two::chained;
use crate::part_two::digest;
use crate::part_two::digest_of;
use crate::sponge::PoseidonConfigView;
use crate::sponge::Sponge;
use crate::vecs::copy_range;
use crate::vecs::push_all;
use crate::vecs::rows;
use crate::vecs::same_elements;

verus! {

/// Where the point of the first group begins in a row of CyclePair inputs.
pub const ROW_A: usize = 60;

/// Where the point of the second group begins in a row of CyclePair inputs.
pub const ROW_B: usize = 75;

/// Where the point of the second group ends in a row of CyclePair inputs.
pub const ROW_B_END: usize = 100;

/// The hash chain of the points of the first group in the first `n` rows.
pub open spec fn rows_chain_a(config: PoseidonConfigView, v: Seq<Seq<Fr>>, n: nat) -> Fr
    decreases n,
{
    if n == 0 {
        f_zero::<Fr>()
    } else {
        chained(
            config,
            rows_chain_a(config, v, (n - 1) as nat),
            v[n - 1].subrange(ROW_A as int, ROW_B as int),
        )
    }
}

/// The hash chain of the points of the second group in the first `n` rows.
pub open spec fn rows_chain_b(config: PoseidonConfigView, v: Seq<Seq<Fr>>, n: nat) -> Fr
    decreases n,
{
    if n == 0 {
        f_zero::<Fr>()
    } else {
        chained(
            config,
            rows_chain_b(config, v, (n - 1) as nat),
            v[n - 1].subrange(ROW_B as int, ROW_B_END as int),
        )
    }
}

/// The circuit that checks the end of the computation on pairings.
pub struct Phase2Circuit<CS1: CommitmentScheme<Fr, G1>> {
    pub main_circ: Phase1Circuit<CS1>,
    /// The inputs of the pairing steps, one row for each.
    pub cyclepair_inputs: Vec<Vec<Fr>>,
}

impl<CS1: CommitmentScheme<Fr, G1>> Phase2Circuit<CS1> {
    /// Whether the sizes fit together, and pairings are folded.
    pub open spec fn wf(&self) -> bool {
        &&& self.main_circ.wf()
        &&& self.main_circ.b_full_mode
        &&& self.main_circ.cp_u is Some
        &&& self.main_circ.cp_w is Some
        &&& self.cyclepair_inputs@.len() > 0
        &&& forall|i: int|
            0 <= i < self.cyclepair_inputs@.len() ==> (#[trigger] self.cyclepair_inputs@[i])@.len()
                == CYCLEPAIR_ROW_LEN
    }

    /// The result that the last state has to show: the digest of the two hash chains.
    pub open spec fn expected_result(&self) -> Fr {
        let config = self.main_circ.poseidon_config@;
        let v = rows(self.cyclepair_inputs@);
        digest(config, seq![rows_chain_a(config, v, v.len()), rows_chain_b(config, v, v.len())])
    }

    /// The last link of the hash chain of the points of the second group.
    pub open spec fn hashchain_b(&self) -> Fr {
        let v = rows(self.cyclepair_inputs@);
        rows_chain_b(self.main_circ.poseidon_config@, v, v.len())
    }

    /// Whether the points of the first group, but for the last, are `coms`.
    pub open spec fn points_ok(&self, coms: Seq<G1>) -> bool {
        forall|i: int|
            0 <= i < coms.len() ==> (#[trigger] self.cyclepair_inputs@[i])@.subrange(
                ROW_A as int,
                ROW_A + 2 * N_LIMBS,
            ) == g1_limbs(coms[i])
    }

    /// Whether the CyclePair instance is the one that the incoming instance tells, its
    /// commitments are those to its witness, and the witness satisfies the system.
    pub open spec fn cyclepair_ok(&self) -> bool {
        let c = self.main_circ;
        let (u, w) = (opt_pair(c.cp_u)->0, opt_witness(c.cp_w)->0);
        &&& c.u_i.x@[2] == u.hash_cyclefold(c.sponge(), c.pp_hash)
        &&& c.cp.cs.blinded(w.e, w.r_e) == Some(u.cm_e)
        &&& c.cp.cs.blinded(w.w, w.r_w) == Some(u.cm_w)
        &&& pair_check(c.cp.r1cs, w, u) is Ok
    }

    /// Whether the circuit's constraints hold, where `coms` are the commitments of
    /// the first circuit.
    pub open spec fn satisfied(&self, coms: Seq<G1>) -> bool {
        &&& self.points_ok(coms)
        &&& self.main_circ.satisfied()
        &&& self.expected_result() == self.main_circ.zi_part2_inst.f_result
        &&& self.cyclepair_ok()
    }

    /// The circuit for the end of a computation on the given pairing inputs.
    pub fn from_nova(
        nova: FoldPotSuper<CS1, PedersenGrumpkin>,
        com_all_w_2: &G1,
        r_all_w_2: &Fr,
        cyclepair_inputs: Vec<Vec<Fr>>,
    ) -> (r: Result<Phase2Circuit<CS1>, Error>)
        requires
            nova.wf(),
        ensures
            r is Ok <==> nova.cm_t(nova.state@) is Some,
            r matches Err(e) ==> e@ == ErrorView::CommitmentFail,
            r matches Ok(c) ==> {
                &&& c.main_circ.made_from(nova, *com_all_w_2, *r_all_w_2)
                &&& c.cyclepair_inputs == cyclepair_inputs
            },
    {
        match Phase1Circuit::from_nova(nova, com_all_w_2, r_all_w_2) {
            Err(e) => Err(e),
            Ok(main_circ) => Ok(Phase2Circuit { main_circ, cyclepair_inputs }),
        }
    }

    /// The result that the last state has to show, and the last link of the hash
    /// chain of the points of the second group.
    pub fn process_cyclepair_inp(&self) -> (r: (Fr, Fr))
        requires
            self.wf(),
        ensures
            r.0 == self.expected_result(),
            r.1 == self.hashchain_b(),
    {
        let config = &self.main_circ.poseidon_config;
        let ghost v = rows(self.cyclepair_inputs@);
        let mut hc_a = Fr::zero();
        let mut hc_b = Fr::zero();
        let n = self.cyclepair_inputs.len();
        let mut i: usize = 0;
        while i < n
            invariant
                i <= n,
                n == self.cyclepair_inputs@.len(),
                v == rows(self.cyclepair_inputs@),
                self.wf(),
                *config == self.main_circ.poseidon_config,
                hc_a == rows_chain_a(config@, v, i as nat),
                hc_b == rows_chain_b(config@, v, i as nat),
            decreases n - i,
        {
            let row = &self.cyclepair_inputs[i];
            assert(row@.len() == CYCLEPAIR_ROW_LEN);
            let a = copy_range(row, ROW_A, ROW_B);
            let b = copy_range(row, ROW_B, ROW_B_END);
            assert(v[i as int] == row@);
            hc_a = chain(config, &hc_a, &a);
            hc_b = chain(config, &hc_b, &b);
            i = i + 1;
        }
        let mut ends: Vec<Fr> = Vec::new();
        ends.push(hc_a);
        ends.push(hc_b);
        assert(ends@ =~= seq![hc_a, hc_b]);
        (digest_of(config, &ends), hc_b)
    }

    /// Checks that the points of the first group, but for the last, are `coms`.
    fn check_points(&self, coms: &Vec<G1>) -> (b: bool)
        requires
            self.wf(),
            coms@.len() < self.cyclepair_inputs@.len(),
        ensures
            b == self.points_ok(coms@),
    {
        let mut i: usize = 0;
        while i < coms.len()
            invariant
                i <= coms@.len() < self.cyclepair_inputs@.len(),
                self.wf(),
                forall|j: int|
                    0 <= j < i ==> (#[trigger] self.cyclepair_inputs@[j])@.subrange(
                        ROW_A as int,
                        ROW_A + 2 * N_LIMBS,
                    ) == g1_limbs(coms@[j]),
            decreases coms.len() - i,
        {
            let row = &self.cyclepair_inputs[i];
            assert(row@.len() == CYCLEPAIR_ROW_LEN);
            let given = copy_range(row, ROW_A, ROW_A + 2 * N_LIMBS);
            let expected = inputize(&coms[i]);
            if !same_elements(&given, &expected) {
                assert(self.cyclepair_inputs@[i as int]@.subrange(ROW_A as int, ROW_A + 2 * N_LIMBS) != g1_limbs(
                    coms@[i as int],
                ));
                return false;
            }
            i = i + 1;
        }
        true
    }

    /// Checks the CyclePair instance.
    fn check_cyclepair(&self) -> (b: bool)
        requires
            self.wf(),
        ensures
            b == self.cyclepair_ok(),
    {
        let c = &self.main_circ;
        let (u, w) = match (&c.cp_u, &c.cp_w) {
            (Some(u), Some(w)) => (u, w),
            _ => {
                return false;
            },
        };
        let sponge = Sponge::new(&c.poseidon_config);
        let x = u.hash_cyclefold(&sponge, &c.pp_hash);
        if !c.u_i.x[2].same(&x) {
            return false;
        }
        if !opens(&c.cp.cs, &w.e, &w.r_e, &u.cm_e) || !opens(&c.cp.cs, &w.w, &w.r_w, &u.cm_w) {
            return false;
        }
        check_pair_relation(&c.cp.r1cs, w, u).is_ok()
    }

    /// Checks the circuit's constraints, given what the first circuit gives, and hands
    /// out what this one gives.
    pub fn generate_constraints_adv(&self, circ1_res: &Phase1CircuitRet) -> (r: Result<Phase2CircuitRet, Error>)
        requires
            self.wf(),
            circ1_res.vec_coms@.len() + 1 == self.cyclepair_inputs@.len(),
        ensures
            r is Ok <==> self.satisfied(circ1_res.vec_coms@),
            r matches Ok(ret) ==> {
                &&& ret.hashchain_b == self.hashchain_b()
                &&& ret.main_ret@ == self.main_circ.ret()
            },
            r matches Err(e) ==> e@ == ErrorView::NotSatisfied,
    {
        let (expected, hashchain_b) = self.process_cyclepair_inp();
        if !self.check_points(&circ1_res.vec_coms) {
            return Err(Error::NotSatisfied);
        }
        let main_ret = match self.main_circ.generate_constraints_adv() {
            Err(e) => { return Err(e); },
            Ok(m) => m,
        };
        if !expected.same(&main_ret.final_result) || !self.check_cyclepair() {
            return Err(Error::NotSatisfied);
        }
        Ok(Phase2CircuitRet { hashchain_b, main_ret })
    }
}

/// How many public inputs the decider circuit has.
pub const TWO_PHASE_INPUT_LEN: usize = 38;

/// The public inputs of the decider circuit.
#[allow(non_snake_case)]
#[derive(Debug, Clone, Copy, PartialEq, Eq, Structural)]
pub struct TwoPhaseCircInput {
    /// The challenge, the combination coefficient and the sum of the evaluations in
    /// the last state of the first computation.
    pub ch1: Fr,
    pub rc1: Fr,
    pub kzg_sum1: Fr,
    /// Where the polynomial of all witnesses of the first computation is evaluated,
    /// and its value.
    pub kzg_all_com_ch1: Fr,
    pub eval_w_e1: Fr,
    /// Where the polynomial of all witnesses of the second computation is evaluated,
    /// and its value.
    pub kzg_all_com_ch2: Fr,
    pub eval_w_e2: Fr,
    /// The digest of the key against which the pairings check.
    pub qa_nizk_vkey_hash: Fr,
    /// The commitments of the folded instance of the second computation.
    pub comE2: G1,
    pub comW2: G1,
    pub comF2: G1,
}

/// The point whose coordinates have the given limbs.
pub open spec fn point_of_limbs(v: Seq<Fr>) -> G1 {
    G1::of_xy(
        Fq::of(limbs_number(v.subrange(0, N_LIMBS as int)) % fq_modulus()),
        Fq::of(limbs_number(v.subrange(N_LIMBS as int, 2 * N_LIMBS)) % fq_modulus()),
    )
}

/// The point whose coordinates have the limbs that begin at `from`.
fn point_at(v: &Vec<Fr>, from: usize) -> (r: G1)
    requires
        from + 2 * N_LIMBS <= v@.len(),
    ensures
        r == point_of_limbs(v@.subrange(from as int, from + 2 * N_LIMBS)),
{
    let n: usize = v.len();
    let x = f1_limbs_to_f2(&copy_range(v, from, from + N_LIMBS));
    let y = f1_limbs_to_f2(&copy_range(v, from + N_LIMBS, from + 2 * N_LIMBS));
    proof {
        let s = v@.subrange(from as int, from + 2 * N_LIMBS);
        assert(s.subrange(0, N_LIMBS as int) =~= v@.subrange(from as int, from + N_LIMBS));
        assert(s.subrange(N_LIMBS as int, 2 * N_LIMBS) =~= v@.subrange(from + N_LIMBS, from + 2 * N_LIMBS));
    }
    G1::from_coordinates(&x, &y)
}

impl TwoPhaseCircInput {
    /// The inputs as one vector.
    pub open spec fn vector(self) -> Seq<Fr> {
        seq![
            self.ch1,
            self.rc1,
            self.kzg_sum1,
            self.kzg_all_com_ch1,
            self.eval_w_e1,
            self.kzg_all_com_ch2,
            self.eval_w_e2,
            self.qa_nizk_vkey_hash,
        ] + g1_limbs(self.comE2) + g1_limbs(self.comW2) + g1_limbs(self.comF2)
    }

    /// The inputs that the vector holds.
    pub open spec fn of_vector(v: Seq<Fr>) -> TwoPhaseCircInput {
        TwoPhaseCircInput {
            ch1: v[0],
            rc1: v[1],
            kzg_sum1: v[2],
            kzg_all_com_ch1: v[3],
            eval_w_e1: v[4],
            kzg_all_com_ch2: v[5],
            eval_w_e2: v[6],
            qa_nizk_vkey_hash: v[7],
            comE2: point_of_limbs(v.subrange(8, 18)),
            comW2: point_of_limbs(v.subrange(18, 28)),
            comF2: point_of_limbs(v.subrange(28, 38)),
        }
    }

    /// The inputs as one vector: the eight values, then the limbs of the coordinates
    /// of the commitments to errors, witnesses and fixed memory.
    pub fn to_vec(&self) -> (v: Vec<Fr>)
        ensures
            v@ == self.vector(),
            v@.len() == TWO_PHASE_INPUT_LEN,
    {
        let mut v: Vec<Fr> = Vec::new();
        v.push(self.ch1);
        v.push(self.rc1);
        v.push(self.kzg_sum1);
        v.push(self.kzg_all_com_ch1);
        v.push(self.eval_w_e1);
        v.push(self.kzg_all_com_ch2);
        v.push(self.eval_w_e2);
        v.push(self.qa_nizk_vkey_hash);
        assert(v@ =~= seq![
            self.ch1,
            self.rc1,
            self.kzg_sum1,
            self.kzg_all_com_ch1,
            self.eval_w_e1,
            self.kzg_all_com_ch2,
            self.eval_w_e2,
            self.qa_nizk_vkey_hash,
        ]);
        push_all(&mut v, &inputize(&self.comE2));
        push_all(&mut v, &inputize(&self.comW2));
        push_all(&mut v, &inputize(&self.comF2));
        v
    }

    /// Parses the inputs from a vector.
    pub fn from_vec(v: &Vec<Fr>) -> (r: TwoPhaseCircInput)
        requires
            v@.len() == TWO_PHASE_INPUT_LEN,
        ensures
            r == TwoPhaseCircInput::of_vector(v@),
    {
        TwoPhaseCircInput {
            ch1: v[0],
            rc1: v[1],
            kzg_sum1: v[2],
            kzg_all_com_ch1: v[3],
            eval_w_e1: v[4],
            kzg_all_com_ch2: v[5],
            eval_w_e2: v[6],
            qa_nizk_vkey_hash: v[7],
            comE2: point_at(v, 8),
            comW2: point_at(v, 18),
            comF2: point_at(v, 28),
        }
    }
}

/// Whether the coordinates of the point are below the modulus, and (0, 0) is not
/// written as a point apart from infinity.
pub open spec fn reduced(p: G1) -> bool {
    &&& p.proper()
    &&& p.xy().0.val() < fq_modulus()
    &&& p.xy().1.val() < fq_modulus()
}

proof fn lemma_point_of_limbs(p: G1)
    requires
        reduced(p),
    ensures
        point_of_limbs(g1_limbs(p)) == p,
{
    let s = g1_limbs(p);
    assert(s.subrange(0, N_LIMBS as int) =~= fq_limbs(p.xy().0));
    assert(s.subrange(N_LIMBS as int, 2 * N_LIMBS) =~= fq_limbs(p.xy().1));
    law_limbs_round_trip(p.xy().0);
    law_limbs_round_trip(p.xy().1);
}

/// Parsing gives back the inputs that were written.
pub proof fn law_input_round_trip(inp: TwoPhaseCircInput)
    requires
        reduced(inp.comE2),
        reduced(inp.comW2),
        reduced(inp.comF2),
    ensures
        TwoPhaseCircInput::of_vector(inp.vector()) == inp,
{
    let v = inp.vector();
    assert(v.subrange(8, 18) =~= g1_limbs(inp.comE2));
    assert(v.subrange(18, 28) =~= g1_limbs(inp.comW2));
    assert(v.subrange(28, 38) =~= g1_limbs(inp.comF2));
    lemma_point_of_limbs(inp.comE2);
    lemma_point_of_limbs(inp.comW2);
    lemma_point_of_limbs(inp.comF2);
}

/// The decider circuit of the two computations.
pub struct TwoPhaseDeciderEthCircuitSuper<CS1: CommitmentScheme<Fr, G1>> {
    pub circ1: Phase1Circuit<CS1>,
    pub circ2: Phase2Circuit<CS1>,
    /// The public inputs.
    pub inp: TwoPhaseCircInput,
}

/// The public inputs that belong to what the two circuits give.
pub open spec fn given_inputs(ret1: Phase1RetView, hashchain_b: Fr, ret2: Phase1RetView) -> TwoPhaseCircInput {
    TwoPhaseCircInput {
        ch1: ret1.ch,
        rc1: ret1.rc,
        kzg_sum1: ret1.kzg_sum,
        kzg_all_com_ch1: ret1.kzg_all_com_ch,
        eval_w_e1: ret1.eval_w_e,
        kzg_all_com_ch2: ret2.kzg_all_com_ch,
        eval_w_e2: ret2.eval_w_e,
        qa_nizk_vkey_hash: hashchain_b,
        comE2: ret2.u_i1_0_cm_e,
        comW2: ret2.u_i1_0_cm_w,
        comF2: ret2.u_i1_0_cm_f,
    }
}

impl<CS1: CommitmentScheme<Fr, G1>> TwoPhaseDeciderEthCircuitSuper<CS1> {
    /// Whether the sizes fit together: there is a pairing for each commitment of the
    /// first computation and one more.
    pub open spec fn wf(&self) -> bool {
        &&& self.circ1.wf()
        &&& self.circ2.wf()
        &&& self.circ1.ret().vec_coms.len() + 1 == self.circ2.cyclepair_inputs@.len()
    }

    /// Whether the circuit's constraints hold: those of the two circuits, and the
    /// public inputs are what these give.
    pub open spec fn satisfied(&self) -> bool {
        &&& self.circ1.satisfied()
        &&& self.circ2.satisfied(self.circ1.ret().vec_coms)
        &&& given_inputs(self.circ1.ret(), self.circ2.hashchain_b(), self.circ2.main_circ.ret()).vector()
            == self.inp.vector()
    }

    /// The circuit for the ends of two computations.
    pub fn from_nova(
        nova1: FoldPotSuper<CS1, PedersenGrumpkin>,
        nova2: FoldPotSuper<CS1, PedersenGrumpkin>,
        cyclepair_inputs: Vec<Vec<Fr>>,
        com_all_w_1: &G1,
        r_all_w_1: &Fr,
        com_all_w_2: &G1,
        r_all_w_2: &Fr,
        inp: TwoPhaseCircInput,
    ) -> (r: Result<TwoPhaseDeciderEthCircuitSuper<CS1>, Error>)
        requires
            nova1.wf(),
            nova2.wf(),
        ensures
            r is Ok <==> nova1.cm_t(nova1.state@) is Some && nova2.cm_t(nova2.state@) is Some,
            r matches Err(e) ==> e@ == ErrorView::CommitmentFail,
            r matches Ok(c) ==> {
                &&& c.circ1.made_from(nova1, *com_all_w_1, *r_all_w_1)
                &&& c.circ2.main_circ.made_from(nova2, *com_all_w_2, *r_all_w_2)
                &&& c.circ2.cyclepair_inputs == cyclepair_inputs
                &&& c.inp == inp
            },
    {
        let circ1 = match Phase1Circuit::from_nova(nova1, com_all_w_1, r_all_w_1) {
            Err(e) => { return Err(e); },
            Ok(c) => c,
        };
        let circ2 = match Phase2Circuit::from_nova(nova2, com_all_w_2, r_all_w_2, cyclepair_inputs) {
            Err(e) => { return Err(e); },
            Ok(c) => c,
        };
        Ok(TwoPhaseDeciderEthCircuitSuper { circ1, circ2, inp })
    }

    /// Checks the circuit's constraints.
    pub fn generate_constraints(&self) -> (r: Result<(), Error>)
        requires
            self.wf(),
        ensures
            r is Ok <==> self.satisfied(),
            r matches Err(e) ==> e@ == ErrorView::NotSatisfied,
    {
        let ret1 = match self.circ1.generate_constraints_adv() {
            Err(e) => { return Err(e); },
            Ok(c) => c,
        };
        let ret2 = match self.circ2.generate_constraints_adv(&ret1) {
            Err(e) => { return Err(e); },
            Ok(c) => c,
        };
        let main = &ret2.main_ret;
        let given = TwoPhaseCircInput {
            ch1: ret1.ch,
            rc1: ret1.rc,
            kzg_sum1: ret1.kzg_sum,
            kzg_all_com_ch1: ret1.kzg_all_com_ch,
            eval_w_e1: ret1.eval_w_e,
            kzg_all_com_ch2: main.kzg_all_com_ch,
            eval_w_e2: main.eval_w_e,
            qa_nizk_vkey_hash: ret2.hashchain_b,
            comE2: main.u_i1_0_cm_e,
            comW2: main.u_i1_0_cm_w,
            comF2: main.u_i1_0_cm_f,
        };
        assert(given == given_inputs(ret1@, ret2.hashchain_b, main@));
        if same_elements(&given.to_vec(), &self.inp.to_vec()) {
            Ok(())
        } else {
            Err(Error::NotSatisfied)
        }
    }
}

proof fn lemma_fqs_limbs_len(v: Seq<Fq>)
    ensures
        fqs_limbs(v).len() == v.len() * N_LIMBS,
    decreases v.len(),
{
    if v.len() > 0 {
        lemma_fqs_limbs_len(v.drop_last());
    }
}

/// The rows for pairings have the length of a row only where each product of pairings
/// has the length of an element of the target group.
proof fn lemma_product_len(config: PoseidonConfigView, v: Seq<Seq<Fr>>, a: Seq<G1>, b: Seq<G2>, n: nat)
    requires
        n <= v.len(),
        forall|i: int| 0 <= i < n ==> #[trigger] v[i] == cyclepair_row(config, a, b, i),
        forall|i: int| 0 <= i < n ==> (#[trigger] v[i]).len() == CYCLEPAIR_ROW_LEN,
    ensures
        pairing_product(a, b, n)->0.len() == GT_LEN,
    decreases n,
{
    if n > 0 {
        let i = n - 1;
        lemma_product_len(config, v, a, b, i as nat);
        lemma_fqs_limbs_len(pairing_product(a, b, i as nat)->0);
        lemma_fqs_limbs_len(g1_elements(a[i]));
        lemma_fqs_limbs_len(g2_elements(b[i]));
        lemma_fqs_limbs_len(pairing_product(a, b, n)->0);
        assert(v[i].len() == CYCLEPAIR_ROW_LEN);
    }
}

/// On the rows that are made for pairings, the chains of the circuit are the chains
/// of the points: what the last state has to show depends on the points alone.
pub proof fn law_rows_chain_points(config: PoseidonConfigView, v: Seq<Seq<Fr>>, a: Seq<G1>, b: Seq<G2>, n: nat)
    requires
        n <= v.len(),
        forall|i: int| 0 <= i < n ==> #[trigger] v[i] == cyclepair_row(config, a, b, i),
        forall|i: int| 0 <= i < n ==> (#[trigger] v[i]).len() == CYCLEPAIR_ROW_LEN,
    ensures
        rows_chain_a(config, v, n) == chain_a(config, a, n),
        rows_chain_b(config, v, n) == chain_b(config, b, n),
    decreases n,
{
    if n > 0 {
        law_rows_chain_points(config, v, a, b, (n - 1) as nat);
        let i = n - 1;
        let row = v[i];
        lemma_product_len(config, v, a, b, i as nat);
        lemma_fqs_limbs_len(pairing_product(a, b, i as nat)->0);
        lemma_fqs_limbs_len(g1_elements(a[i]));
        lemma_fqs_limbs_len(g2_elements(b[i]));
        assert(row == cyclepair_row(config, a, b, i));
        assert(row.subrange(ROW_A as int, ROW_B as int) =~= fqs_limbs(g1_elements(a[i])));
        assert(row.subrange(ROW_B as int, ROW_B_END as int) =~= fqs_limbs(g2_elements(b[i])));
    }
}

} // verus!
