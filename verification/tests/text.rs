use watchlist::text::{merge_strings, CONFLICT_MARKER};

fn merged(local: &str, other: &str) -> String {
    let mut text = String::from(local);
    merge_strings(&mut text, other);
    text
}

#[test]
fn empty_local_note_takes_the_other() {
    assert_eq!(merged("", "seen twice"), "seen twice");
}

#[test]
fn empty_other_note_changes_nothing() {
    assert_eq!(merged("seen twice", ""), "seen twice");
}

#[test]
fn two_empty_notes_stay_empty() {
    assert_eq!(merged("", ""), "");
}

#[test]
fn a_note_merged_with_itself_stays() {
    assert_eq!(merged("slow start, great ending", "slow start, great ending"), "slow start, great ending");
}

#[test]
fn a_longer_other_note_wins() {
    assert_eq!(merged("good", "good movie, rewatch S2"), "good movie, rewatch S2");
}

#[test]
fn a_shorter_other_note_is_dropped() {
    assert_eq!(merged("good movie, rewatch S2", "good"), "good movie, rewatch S2");
}

#[test]
fn diverging_notes_are_both_kept() {
    assert_eq!(merged("loved it", "hated it"), "loved it\n>>>>>>>>\nhated it");
}

#[test]
fn the_marker_is_a_line_of_eight_signs() {
    assert_eq!(CONFLICT_MARKER, "\n>>>>>>>>\n");
    assert_eq!(merged("a", "b"), format!("a{}b", CONFLICT_MARKER));
}

#[test]
fn the_order_of_the_sides_matters() {
    assert_eq!(merged("left", "right"), "left\n>>>>>>>>\nright");
    assert_eq!(merged("right", "left"), "right\n>>>>>>>>\nleft");
}

#[test]
fn a_note_found_in_the_middle_is_no_prefix() {
    assert_eq!(merged("movie", "good movie"), "movie\n>>>>>>>>\ngood movie");
}

#[test]
fn merging_again_after_a_win_changes_nothing() {
    let once = merged("good", "good movie");
    assert_eq!(merged(&once, "good movie"), once);
}

#[test]
fn merging_again_after_a_conflict_grows() {
    let once = merged("loved it", "hated it");
    assert_eq!(merged(&once, "hated it"), "loved it\n>>>>>>>>\nhated it\n>>>>>>>>\nhated it");
}

#[test]
fn notes_beyond_ascii_merge_by_characters() {
    assert_eq!(merged("très", "très bien"), "très bien");
    assert_eq!(merged("é", "e"), "é\n>>>>>>>>\ne");
}
