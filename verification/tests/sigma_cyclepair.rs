use ark_bn254::Fr as ArkFr;
use ark_ff::BigInteger;
use ark_ff::PrimeField;
use ark_std::UniformRand;
use ark_std::test_rng;
use foldpot::error::Error;
use foldpot::field::Field;
use foldpot::field_fr::Fr;
use foldpot::sigma_cyclepair::FoldPairGadget;
use foldpot::sigma_cyclepair::FoldPairMapper;
use foldpot::sigma_cyclepair::compute_hc;
use foldpot::sigma_cyclepair::compute_hc_var;
use foldpot::sigma_cyclepair::compute_hc_var_nonnative;
use foldpot::statement::StatementExtraInfo;
use sha2::Digest;

fn fr(x: ArkFr) -> Fr {
    Fr::from_limbs(x.into_bigint().0)
}

#[test]
fn test_sha2() {
    let mut rng = test_rng();
    let hc = (fr(ArkFr::rand(&mut rng)), fr(ArkFr::rand(&mut rng)));
    let a = vec![fr(ArkFr::rand(&mut rng)), fr(ArkFr::rand(&mut rng)), fr(ArkFr::rand(&mut rng))];
    let res = compute_hc(&hc, &a);
    let res_var = compute_hc_var(&hc, &a);
    assert!(res_var.0 == res.0);
    assert!(res_var.1 == res.1);
    let res_var2 = compute_hc_var_nonnative(&hc, &a);
    assert!(res_var2.0 == res.0);
    assert!(res_var2.1 == res.1);
}

#[test]
fn chain_link_is_the_digest() {
    let v: Vec<ArkFr> = (1..6u64).map(ArkFr::from).collect();
    let bytes: Vec<u8> = v.iter().flat_map(|x| x.into_bigint().to_bytes_le()).collect();
    let d = sha2::Sha256::digest(&bytes);
    let half = |b: &[u8]| fr(ArkFr::from_le_bytes_mod_order(b));
    let rest = v[2..].iter().map(|x| fr(*x)).collect();
    let res = compute_hc(&(fr(v[0]), fr(v[1])), &rest);
    assert_eq!(res, (half(&d[..16]), half(&d[16..])));
    assert_ne!(res, compute_hc(&(fr(v[1]), fr(v[0])), &rest));
}

fn extra_info() -> StatementExtraInfo {
    let (zero, one) = (Fr::zero(), Fr::one());
    StatementExtraInfo {
        total_words: one,
        word_id: one,
        subseg_id: zero,
        total_word_len: Fr::from_u64(32),
        total_word_segs: one,
        n_circ: one,
        pc_i: zero,
        pc_i1: zero,
        act_word_subseg_size: Fr::from_u64(8),
        batch_r: zero,
        batch_v: zero,
        r_all_words: zero,
        r_kzg_len: zero,
        r_vec_r: zero,
        r_vec_v: zero,
        r_word_i: zero,
        accumulated_word_len: Fr::from_u64(32),
    }
}

/// A word of a pairing with the chains: 12 + 3 + 5 + 12 elements, then the two links
/// before, twice, and the two links after, twice.
fn word(a: &[u64], b: &[u64]) -> Vec<Fr> {
    let mut w: Vec<Fr> = (0..12).map(Fr::from_u64).collect();
    let point = |v: &[u64]| v.iter().map(|x| Fr::from_u64(*x)).collect::<Vec<Fr>>();
    w.extend(point(a));
    w.extend(point(b));
    w.extend((100..112).map(Fr::from_u64));
    let (hc_a, hc_b) = ((Fr::from_u64(5), Fr::from_u64(6)), (Fr::from_u64(7), Fr::from_u64(8)));
    let (out_a, out_b) = (compute_hc(&hc_a, &point(a)), compute_hc(&hc_b, &point(b)));
    w.extend([hc_a.0, hc_a.1, hc_b.0, hc_b.1, out_a.0, out_a.1, out_b.0, out_b.1]);
    w
}

#[test]
fn test_sigma_cyclepair() {
    let mapper = FoldPairMapper {};
    assert_eq!(mapper.max_word_len(), 40);
    assert_eq!(mapper.create_gadgets().len(), 1);
    let inp = word(&[11, 12, 0], &[13, 14, 15, 16, 0]);
    assert_eq!(inp.len(), 40);
    let ea = extra_info();
    let stmt = mapper.build_statement(&inp, &ea);
    assert_eq!(stmt.inp_buf, [&inp[..12], &inp[32..36]].concat());
    assert_eq!(stmt.oup_buf, [&inp[20..32], &inp[36..]].concat());
    assert_eq!(stmt.data, inp[12..20].to_vec());
    assert!(stmt.word_subseg.is_empty());
    assert_eq!(stmt.subtable_id, vec![Fr::zero(); 40]);
    assert_eq!(stmt.word_id, ea.word_id);
    assert_eq!(stmt.subseg_id, ea.subseg_id);
    assert_eq!(stmt.total_word_len, ea.total_word_len);
    assert_eq!(stmt.act_word_subseg_size, ea.act_word_subseg_size);
    let idx = (0..40).collect();
    let gadget = FoldPairGadget {};
    assert_eq!(gadget.get_msg_size(), (40, 0, 0, 0));
    assert!(gadget.assert_msg3(&inp, &idx).is_ok());
    // the statement's parts in another order, and where the gadget's elements are in it
    let parts = [stmt.inp_buf, stmt.oup_buf, stmt.data].concat();
    let places = (0..12).chain(32..40).chain(16..28).chain(12..16).chain(28..32).collect();
    assert!(gadget.assert_msg3(&parts, &places).is_ok());
    let mut wrong = inp.clone();
    wrong[12] = wrong[12].plus(&Fr::one());
    assert!(matches!(gadget.assert_msg3(&wrong, &idx), Err(Error::NotSatisfied)));
}
