use foldpot::capacity_planner::Capacity;
use foldpot::capacity_planner::CapacityPlanner;
use foldpot::capacity_planner::CapacityView;
use foldpot::capacity_planner::Count;
use foldpot::capacity_planner::GadgetMapper;
use foldpot::capacity_planner::Plan;
use foldpot::capacity_planner::SumMapper;
use foldpot::capacity_planner::WordInfo;
use foldpot::commitment::Elements;
use foldpot::error::Error;
use foldpot::error::ErrorView;
use foldpot::field_fr::Fr;

/// A mapper that takes segments of up to `max` elements, each up to `top`, and looks
/// `halo` nibbles ahead. Its advice is the segment's place and what it saw ahead.
struct Segments {
    max: usize,
    halo: usize,
    top: u64,
}

type Advice = (usize, Vec<u8>);

impl GadgetMapper<Advice, ()> for Segments {
    fn max_len(&self) -> Count {
        unreachable!()
    }

    fn capacity(&self) -> CapacityView {
        unreachable!()
    }

    fn nibbles(&self, _word: Elements<Fr>) -> Elements<u8> {
        unreachable!()
    }

    fn advice(
        &self,
        _seg: Elements<Fr>,
        _info: (),
        _halo: Elements<u8>,
        _prev: Option<Advice>,
        _seg_id: Count,
    ) -> Result<Advice, ErrorView> {
        unreachable!()
    }

    fn max_word_len(&self) -> usize {
        self.max
    }

    fn get_capacity(&self) -> Capacity {
        Capacity { halo_nibbles: self.halo, sizes: vec![("word_seg_len".to_string(), self.max)] }
    }

    fn packed_to_nibbles(&self, word: &Vec<Fr>) -> Vec<u8> {
        word.iter().map(|x| (x.low_u64() % 16) as u8).collect()
    }

    fn gen_nd_advice(
        &self,
        seg: &Vec<Fr>,
        _info: &(),
        halo: &Vec<u8>,
        prev: Option<&Advice>,
        seg_id: usize,
    ) -> Result<Advice, Error> {
        if let Some(p) = prev {
            assert_eq!(p.0 + 1, seg_id);
        }
        if seg.contains(&Fr::from_u64(u64::MAX)) {
            return Err(Error::NotExpectedLength(seg.len(), self.max));
        }
        match seg.iter().map(|x| x.low_u64()).filter(|x| *x > self.top).max() {
            Some(x) => Err(Error::CapErr(vec![(format!("top"), x as usize)])),
            None => Ok((seg_id, halo.clone())),
        }
    }
}

fn no_info() -> WordInfo<()> {
    WordInfo { info: (), halo_nibbles: vec![] }
}

/// A ladder of circuits that take larger and larger elements.
fn ladder(tops: &[u64], max: usize, halo: usize) -> CapacityPlanner<Segments> {
    CapacityPlanner::new(tops.iter().map(|top| vec![Segments { max, halo, top: *top }]).collect())
}

fn word(v: &[u64]) -> Vec<Fr> {
    v.iter().map(|x| Fr::from_u64(*x)).collect()
}

fn lacking(r: Result<Plan<Advice>, Error>) -> usize {
    match r {
        Err(Error::CapErr(v)) => v[0].1,
        _ => panic!("no lack"),
    }
}

#[test]
fn lowest_layer_that_works() {
    let p = ladder(&[10, 100, 1000, 10000], 2, 0);
    for (top, layer) in [(5, 0), (10, 0), (11, 1), (100, 1), (101, 2), (5000, 3)] {
        let w = word(&[1, top, 3]);
        for plan in [
            p.plan_nd_advice(true, &w, &no_info()).unwrap(),
            p.plan_nd_advice_new(true, &w, &no_info()).unwrap(),
            p.par_search_best_layer(true, &w, &no_info(), 0, 3).unwrap(),
        ] {
            assert_eq!(plan.layer, layer);
            assert_eq!(plan.num_segs, 2);
            assert_eq!(plan.vec_size, vec![2, 1]);
            assert_eq!(plan.vec_pci, vec![layer, layer]);
            assert_eq!(plan.vec_adv.len(), 2);
        }
    }
}

#[test]
fn working_layer_is_guessed() {
    let p = ladder(&[10, 100, 1000, 10000], 2, 0);
    let find = |v: &[u64]| p.find_working_layer_for_wd(true, &word(v), &no_info()).unwrap().layer;
    // a short word is tried in the last layer
    assert_eq!(find(&[1, 2, 3]), 3);
    // the middle of a longer one tells the layer, unless that does not work for all
    assert_eq!(find(&[1, 1, 1, 1, 50, 50, 1, 1, 1, 1]), 1);
    assert_eq!(find(&[500, 1, 1, 1, 50, 50, 1, 1, 1, 1]), 3);
}

#[test]
fn word_that_no_circuit_takes() {
    let p = ladder(&[10, 100], 2, 0);
    let w = word(&[1, 101]);
    assert_eq!(lacking(p.plan_nd_advice(true, &w, &no_info())), 101);
    assert_eq!(lacking(p.plan_nd_advice_new(true, &w, &no_info())), 101);
    assert_eq!(lacking(p.find_working_layer_for_wd(true, &w, &no_info())), 101);
}

#[test]
fn advice_is_kept_where_it_is_asked_for() {
    let p = ladder(&[10], 2, 0);
    let w = word(&[1, 2, 3, 4, 5]);
    let plan = p.gen_nd_advice_at_layer(0, true, &w, &no_info()).unwrap();
    assert_eq!(plan.vec_adv, vec![(0, vec![]), (1, vec![]), (2, vec![])]);
    let plan = p.gen_nd_advice_at_layer(0, false, &w, &no_info()).unwrap();
    assert!(plan.vec_adv.is_empty());
    assert_eq!(plan.vec_size, vec![2, 2, 1]);
    // one capacity for each segment
    let caps: Vec<_> = plan.vec_cap.iter().map(|c| (c.halo_nibbles, c.sizes.clone())).collect();
    assert_eq!(caps, vec![(0, vec![("word_seg_len".to_string(), 2)]); 3]);
    assert!(p.gen_nd_advice_at_layer(0, true, &vec![], &no_info()).unwrap().vec_cap.is_empty());
}

#[test]
fn nibbles_ahead() {
    let p = ladder(&[100], 2, 1);
    let info = WordInfo { info: (), halo_nibbles: vec![9] };
    let plan = p.gen_nd_advice_at_layer(0, true, &word(&[1, 2, 19, 4, 5]), &info).unwrap();
    // the next segment's first nibble, and what is known behind the word
    assert_eq!(plan.vec_adv, vec![(0, vec![3]), (1, vec![5]), (2, vec![9])]);
}

#[test]
fn search_below_a_working_layer() {
    let p = ladder(&[10, 100, 1000, 10000], 2, 0);
    let w = word(&[50]);
    let top = p.gen_nd_advice_at_layer(3, true, &w, &no_info()).unwrap();
    assert_eq!(p.bin_search_best_layer(true, &w, &no_info(), 0, top).layer, 1);
    let top = p.gen_nd_advice_at_layer(3, true, &w, &no_info()).unwrap();
    assert_eq!(p.bin_search_best_layer(true, &w, &no_info(), 2, top).layer, 2);
}

#[test]
fn capacities_of_many_words() {
    let p = ladder(&[10, 100], 2, 0);
    let infos = || vec![no_info(), no_info()];
    let fine = vec![word(&[1, 2]), word(&[50, 60, 70])];
    // one segment and two
    assert_eq!(p.capacity_probe(&fine, &infos()), Ok(3));
    assert_eq!(p.capacity_probe_collect(&fine, &infos()), vec![None, None]);
    // infos without words are left alone
    let more = || vec![no_info(), no_info(), no_info()];
    assert_eq!(p.capacity_probe(&fine, &more()), Ok(3));
    assert_eq!(p.capacity_probe_collect(&fine, &more()), vec![None, None]);
    assert_eq!(p.capacity_probe(&vec![], &more()), Ok(0));
    let large = vec![word(&[1, 2]), word(&[500])];
    assert_eq!(p.capacity_probe(&large, &infos()), Err(vec![(format!("top"), 500)]));
    assert_eq!(
        p.capacity_probe_collect(&large, &infos()),
        vec![None, Some(vec![(format!("top"), 500)])],
    );
}

#[test]
fn circuits_for_sums() {
    let (odd, even) = (SumMapper::new(true), SumMapper::new(false));
    assert!(odd.can_handle(&Fr::from_u64(3)) && !odd.can_handle(&Fr::from_u64(4)));
    assert!(even.can_handle(&Fr::from_u64(4)) && !even.can_handle(&Fr::from_u64(3)));
    assert_eq!(<SumMapper as GadgetMapper<(), ()>>::max_word_len(&odd), 1);
    let cap = <SumMapper as GadgetMapper<(), ()>>::get_capacity(&even);
    assert_eq!((cap.halo_nibbles, cap.sizes), (0, vec![("word_seg_len".to_string(), 2)]));
    let p = CapacityPlanner::new(vec![vec![even]]);
    let plan = p.plan_nd_advice(true, &word(&[4, 2, 2]), &no_info()).unwrap();
    assert_eq!(plan.vec_size, vec![2, 1]);
    assert!(matches!(
        p.plan_nd_advice(true, &word(&[4, 2, 1]), &no_info()),
        Err(Error::CapErr(v)) if v == vec![(format!("w0_val%2==1 != b_odd"), 1)],
    ));
}

#[test]
fn errors_that_are_no_lack() {
    let p = ladder(&[10], 2, 0);
    let words = vec![word(&[1]), word(&[1, 2, u64::MAX]), word(&[11])];
    let infos = vec![no_info(), no_info(), no_info()];
    let entry = |name: &str| vec![(name.to_string(), 0)];
    assert_eq!(p.capacity_probe(&words, &infos), Err(entry("non-cap error: NotExpectedLength(1, 2)")));
    assert_eq!(
        p.capacity_probe_collect(&words, &infos),
        vec![None, Some(entry("non-cap: NotExpectedLength(1, 2)")), Some(vec![("top".to_string(), 11)])],
    );
}
