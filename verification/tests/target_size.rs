use goop_converter::target_size::{
    target_search_outcome, target_search_step, target_size_failure, SearchStep,
};

/// The sizes the search encodes, quality 100 first, up to the first fit.
fn encoded(size_at: impl Fn(u8) -> u64, target: u64) -> Vec<u64> {
    let mut sizes = Vec::new();
    for quality in (1u8..=100).rev() {
        let size = size_at(quality);
        sizes.push(size);
        if size <= target {
            break;
        }
    }
    sizes
}

#[test]
fn the_first_fit_from_quality_100_down_wins() {
    let sizes = encoded(|q| match q { 100 => 60, 99 => 40, 98 => 45, _ => 10 }, 50);
    assert_eq!(sizes, vec![60, 40]);
    assert_eq!(target_search_outcome(&sizes, 50), Ok((99, 2)));
}

#[test]
fn a_higher_quality_is_accepted_when_quality_one_misses() {
    let sizes = encoded(|q| match q { 80 => 40, 1 => 60, _ => 70 }, 50);
    assert_eq!(target_search_outcome(&sizes, 50), Ok((80, 21)));
}

#[test]
fn every_quality_is_tried_once_before_quality_one_wins() {
    let sizes = encoded(|q| q as u64, 1);
    assert_eq!(sizes.len(), 100);
    assert_eq!(target_search_outcome(&sizes, 1), Ok((1, 100)));
    assert_eq!(target_search_outcome(&vec![1], 1), Ok((100, 1)));
}

#[test]
fn the_smallest_candidate_is_reported_when_none_fits() {
    let sizes = encoded(|q| if q == 37 { 7 } else { 20 }, 5);
    assert_eq!(target_search_outcome(&sizes, 5), Err(7));
    let message = target_size_failure(5, 7).user_message();
    assert!(message.contains("smallest attempted final size was 7 bytes"));
    assert!(message.contains("after 100 attempts"));
}

#[test]
fn each_step_decides_from_one_candidate() {
    assert_eq!(target_search_step(0, 40, 50, u64::MAX), SearchStep::Fits { quality: 100, attempts: 1 });
    assert_eq!(target_search_step(3, 60, 50, 55), SearchStep::Next { quality: 96, smallest: 55 });
    assert_eq!(target_search_step(99, 60, 50, 70), SearchStep::Exhausted { smallest: 60 });
}
