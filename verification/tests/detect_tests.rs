use replay_notes::detect::get_presses;
use replay_notes::recording::Frame;

fn frames_from(masks: &[u32]) -> Vec<Frame> {
    masks.iter().map(|&m| Frame { buttons_mask: m }).collect()
}

const MASK: u32 = 0x4;

#[test]
fn rising_edges_scenario() {
    // unset, unset, set, set, unset, set -> edges register at 2 and 5
    let frames = frames_from(&[0, 0, MASK, MASK, 0, MASK]);
    assert_eq!(get_presses(&frames, MASK), vec![2, 5]);
}

#[test]
fn no_transitions_all_up_is_empty() {
    let frames = frames_from(&[0, 0, 0, 0]);
    assert_eq!(get_presses(&frames, MASK), Vec::<usize>::new());
}

#[test]
fn no_transitions_all_down_is_empty() {
    let frames = frames_from(&[MASK, MASK, MASK]);
    assert_eq!(get_presses(&frames, MASK), Vec::<usize>::new());
}

#[test]
fn index_zero_never_emitted() {
    // pressed from the very first frame: that press has no rising edge
    let frames = frames_from(&[MASK, MASK, 0, MASK]);
    assert_eq!(get_presses(&frames, MASK), vec![3]);
}

#[test]
fn falling_edge_ignored() {
    let frames = frames_from(&[MASK, 0]);
    assert_eq!(get_presses(&frames, MASK), Vec::<usize>::new());
}

#[test]
fn empty_sequence_no_presses() {
    let frames = frames_from(&[]);
    assert_eq!(get_presses(&frames, MASK), Vec::<usize>::new());
}

#[test]
fn single_frame_no_presses() {
    let frames = frames_from(&[MASK]);
    assert_eq!(get_presses(&frames, MASK), Vec::<usize>::new());
}

#[test]
fn only_trigger_bit_counts() {
    // other buttons held throughout; the trigger bit rises at frame 1
    let frames = frames_from(&[0x1, 0x1 | MASK, 0x1 | MASK]);
    assert_eq!(get_presses(&frames, MASK), vec![1]);
}

#[test]
fn back_to_back_presses() {
    let frames = frames_from(&[0, MASK, 0, MASK, 0, MASK]);
    assert_eq!(get_presses(&frames, MASK), vec![1, 3, 5]);
}
