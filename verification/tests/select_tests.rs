use replay_notes::select::find_participant;
use replay_notes::PipelineError;

fn names_from(names: &[&str]) -> Vec<Vec<u8>> {
    names.iter().map(|s| s.as_bytes().to_vec()).collect()
}

#[test]
fn selects_matching_prefix() {
    let names = names_from(&["mango", "fox_main", "pineapple_x", "marth"]);
    let prefix = b"pineapple".to_vec();
    assert_eq!(find_participant(&names, &prefix), Ok(2));
}

#[test]
fn first_match_wins_on_tie() {
    let names = names_from(&["pineapple_x", "pineapple_y"]);
    let prefix = b"pineapple".to_vec();
    assert_eq!(find_participant(&names, &prefix), Ok(0));
}

#[test]
fn no_match_is_participant_not_found() {
    let names = names_from(&["mango", "marth"]);
    let prefix = b"pineapple".to_vec();
    assert_eq!(
        find_participant(&names, &prefix),
        Err(PipelineError::ParticipantNotFound)
    );
}

#[test]
fn empty_filter_selects_first_port() {
    let names = names_from(&["mango", "marth"]);
    let prefix: Vec<u8> = Vec::new();
    assert_eq!(find_participant(&names, &prefix), Ok(0));
}

#[test]
fn filter_longer_than_name_does_not_match() {
    let names = names_from(&["pine"]);
    let prefix = b"pineapple".to_vec();
    assert_eq!(
        find_participant(&names, &prefix),
        Err(PipelineError::ParticipantNotFound)
    );
}

#[test]
fn name_padding_after_prefix_still_matches() {
    // fixed-size name buffers are padded; trailing bytes do not matter
    let mut padded = b"pineapple_x".to_vec();
    padded.extend_from_slice(&[0u8; 20]);
    let names = vec![padded];
    let prefix = b"pineapple".to_vec();
    assert_eq!(find_participant(&names, &prefix), Ok(0));
}

#[test]
fn no_participants_is_not_found() {
    let names: Vec<Vec<u8>> = Vec::new();
    let prefix = b"pineapple".to_vec();
    assert_eq!(
        find_participant(&names, &prefix),
        Err(PipelineError::ParticipantNotFound)
    );
}
