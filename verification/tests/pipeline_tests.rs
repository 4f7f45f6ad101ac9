use replay_notes::notes::Notes;
use replay_notes::pipeline::{add_press_note, annotate_presses, run};
use replay_notes::recording::{Config, Frame, Recording};
use replay_notes::PipelineError;

const MASK: u32 = 0x4;
const MESSAGE: &[u8] = b"Auto-inserted note for button press";

fn frames_from(masks: &[u32]) -> Vec<Frame> {
    masks.iter().map(|&m| Frame { buttons_mask: m }).collect()
}

fn config() -> Config {
    Config {
        identity_filter: b"pineapple".to_vec(),
        trigger_button: MASK,
        clip_len: 300,
        message: MESSAGE.to_vec(),
    }
}

#[test]
fn press_far_in_gets_full_clip() {
    let mut notes = Notes::new();
    let msg = MESSAGE.to_vec();
    let added = add_press_note(&mut notes, 400, 300, &msg);
    assert!(added);
    assert_eq!(notes.start_frames, vec![100]);
    assert_eq!(notes.frame_lengths, vec![300]);
    assert_eq!(notes.data_idx, vec![0]);
    assert_eq!(notes.data, MESSAGE.to_vec());
}

#[test]
fn press_near_start_gets_clamped_clip() {
    let mut notes = Notes::new();
    let msg = MESSAGE.to_vec();
    let added = add_press_note(&mut notes, 50, 300, &msg);
    assert!(added);
    // start = max(0, 50 - 300) = 0, end = 50, length = 50
    assert_eq!(notes.start_frames, vec![0]);
    assert_eq!(notes.frame_lengths, vec![50]);
}

#[test]
fn candidate_at_existing_end_is_skipped() {
    let mut notes = Notes::new();
    notes.start_frames.push(100);
    notes.frame_lengths.push(300);
    notes.data_idx.push(0);
    let before = notes.clone();
    let msg = MESSAGE.to_vec();
    // existing annotation ends at 100 + 300 = 400: collision
    let added = add_press_note(&mut notes, 400, 300, &msg);
    assert!(!added);
    assert_eq!(notes, before);
}

#[test]
fn candidate_at_existing_start_is_skipped() {
    let mut notes = Notes::new();
    notes.start_frames.push(400);
    notes.frame_lengths.push(25);
    notes.data_idx.push(0);
    let before = notes.clone();
    let msg = MESSAGE.to_vec();
    let added = add_press_note(&mut notes, 400, 300, &msg);
    assert!(!added);
    assert_eq!(notes, before);
}

#[test]
fn annotate_counts_added_and_skipped() {
    let mut notes = Notes::new();
    notes.start_frames.push(360);
    notes.frame_lengths.push(40);
    notes.data_idx.push(0);
    let msg = MESSAGE.to_vec();
    // 400 collides with the end 360 + 40; 900 does not
    let (added, skipped) = annotate_presses(&mut notes, &vec![400, 900], 300, &msg);
    assert_eq!(added, 1);
    assert_eq!(skipped, 1);
    assert_eq!(notes.start_frames, vec![360, 600]);
    assert_eq!(notes.frame_lengths, vec![40, 300]);
}

#[test]
fn collision_with_note_added_same_run() {
    let mut notes = Notes::new();
    let msg = MESSAGE.to_vec();
    // the first press writes start=100..end=400; the second candidate
    // then hits that annotation's start and is skipped
    let (added, skipped) = annotate_presses(&mut notes, &vec![400, 100], 300, &msg);
    assert_eq!(added, 1);
    assert_eq!(skipped, 1);
    assert_eq!(notes.start_frames, vec![100]);
    assert_eq!(notes.frame_lengths, vec![300]);
}

#[test]
fn full_run_annotates_selected_participant() {
    let rec = Recording {
        names: vec![
            b"mango".to_vec(),
            b"fox_main".to_vec(),
            b"pineapple_x".to_vec(),
            Vec::new(),
        ],
        frames: vec![
            Some(frames_from(&[0, 0, 0, 0, 0, 0])),
            None,
            Some(frames_from(&[0, 0, MASK, MASK, 0, MASK])),
            None,
        ],
    };
    let mut notes = Notes::new();
    let counts = run(&rec, &mut notes, &config());
    assert_eq!(counts, Ok((2, 0)));
    // presses at frames 2 and 5; both clips clamp their start to 0
    assert_eq!(notes.start_frames, vec![0, 0]);
    assert_eq!(notes.frame_lengths, vec![2, 5]);
    assert_eq!(notes.data_idx, vec![0, MESSAGE.len() as i32]);
    let mut blob = MESSAGE.to_vec();
    blob.extend_from_slice(MESSAGE);
    assert_eq!(notes.data, blob);
}

#[test]
fn second_run_changes_nothing() {
    let rec = Recording {
        names: vec![b"other".to_vec(), b"pineapple_x".to_vec()],
        frames: vec![
            None,
            Some(frames_from(&[0, MASK, 0, 0, MASK, MASK, 0, MASK])),
        ],
    };
    let mut notes = Notes::new();
    let first = run(&rec, &mut notes, &config());
    assert_eq!(first, Ok((3, 0)));
    let after_first = notes.clone();
    let second = run(&rec, &mut notes, &config());
    // every candidate now collides, so the store is untouched
    assert_eq!(second, Ok((0, 3)));
    assert_eq!(notes, after_first);
}

#[test]
fn run_without_matching_name_fails() {
    let rec = Recording {
        names: vec![b"mango".to_vec()],
        frames: vec![Some(frames_from(&[0, MASK]))],
    };
    let mut notes = Notes::new();
    let before = notes.clone();
    let r = run(&rec, &mut notes, &config());
    assert_eq!(r, Err(PipelineError::ParticipantNotFound));
    assert_eq!(notes, before);
}

#[test]
fn run_without_frames_fails() {
    let rec = Recording {
        names: vec![b"pineapple_x".to_vec()],
        frames: vec![None],
    };
    let mut notes = Notes::new();
    let before = notes.clone();
    let r = run(&rec, &mut notes, &config());
    assert_eq!(r, Err(PipelineError::NoFramesForParticipant));
    assert_eq!(notes, before);
}

#[test]
fn run_with_no_presses_adds_nothing() {
    let rec = Recording {
        names: vec![b"pineapple_x".to_vec()],
        frames: vec![Some(frames_from(&[MASK, MASK, MASK]))],
    };
    let mut notes = Notes::new();
    let r = run(&rec, &mut notes, &config());
    assert_eq!(r, Ok((0, 0)));
    assert!(notes.start_frames.is_empty());
    assert!(notes.data.is_empty());
}
