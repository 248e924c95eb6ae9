use goop_converter::naming::{
    allocate_output_path, candidate_name, next_candidate, pick_candidate, stem_of, CandidateStep,
};

#[test]
fn stem_of_strips_extension() {
    assert_eq!(stem_of("/tmp/video.mp4"), "video");
    assert_eq!(stem_of("/tmp/my.clip.webm"), "my.clip");
    assert_eq!(stem_of("video"), "video");
}

#[test]
fn candidates_number_from_one_in_parentheses() {
    assert_eq!(candidate_name("clip", "mp4", 0), "clip.mp4");
    assert_eq!(candidate_name("clip", "mp4", 1), "clip (1).mp4");
    assert_eq!(candidate_name("clip", "mp4", 12), "clip (12).mp4");
}

#[test]
fn a_free_name_is_taken_as_is() {
    let p = allocate_output_path("/goop-no-such-directory", "clip", "mp4");
    assert_eq!(p, "/goop-no-such-directory/clip.mp4");
}

#[test]
fn nothing_taken_picks_the_plain_name() {
    // Nothing exists: the plain name is free.
    assert_eq!(pick_candidate(&vec![false]), 0);
    assert_eq!(candidate_name("clip", "mp4", pick_candidate(&vec![false])), "clip.mp4");
}

#[test]
fn a_taken_plain_name_picks_number_one() {
    // Only "clip.mp4" exists.
    assert_eq!(candidate_name("clip", "mp4", pick_candidate(&vec![true, false])), "clip (1).mp4");
}

#[test]
fn taken_numbers_pick_the_next_free_one() {
    // "clip.mp4", "clip (1).mp4" and "clip (2).mp4" exist.
    let k = pick_candidate(&vec![true, true, true, false]);
    assert_eq!(candidate_name("clip", "mp4", k), "clip (3).mp4");
}

#[test]
fn every_candidate_taken_falls_back_to_the_plain_name() {
    assert_eq!(pick_candidate(&vec![true; 10_000]), 0);
    assert_eq!(pick_candidate(&vec![true; 9_999]), 0);
    assert_eq!(next_candidate(9_999, true), CandidateStep::Use(0));
    assert_eq!(next_candidate(7, true), CandidateStep::Try(8));
    assert_eq!(next_candidate(7, false), CandidateStep::Use(7));
}
