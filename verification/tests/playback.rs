use nongle::midi::{note_on, sounding_note, MidiNote, NOTE_OFF, NOTE_ON};
use nongle::note::Note;
use nongle::playback::{play_data, sum_vectors_with_padding};

#[test]
fn play_data_copies_and_pads() {
    let mut output = [9i32; 5];
    let mut pending = vec![1, 2, 3];
    play_data(&mut output, &mut pending, 0);
    assert_eq!([1, 2, 3, 0, 0], output);
    assert!(pending.is_empty());
}

#[test]
fn play_data_keeps_the_rest() {
    let mut output = [0.0f32; 2];
    let mut pending = vec![0.5f32, 0.25, 0.125];
    play_data(&mut output, &mut pending, 0.0);
    assert_eq!([0.5, 0.25], output);
    assert_eq!(vec![0.125], pending);
}

#[test]
fn play_data_silence_when_nothing_pending() {
    let mut output = [7u8; 3];
    let mut pending: Vec<u8> = vec![];
    play_data(&mut output, &mut pending, 0);
    assert_eq!([0, 0, 0], output);
}

#[test]
fn sums_with_padding() {
    assert_eq!(vec![5, 7, 3], sum_vectors_with_padding(&[1, 2, 3], &[4, 5]));
    assert_eq!(vec![5, 7, 6], sum_vectors_with_padding(&[1, 2], &[4, 5, 6]));
    let s = sum_vectors_with_padding(&[0.5f32], &[0.25f32, 1.0]);
    assert_eq!(vec![0.75f32, 1.0], s);
    let empty: Vec<u32> = sum_vectors_with_padding(&[], &[]);
    assert!(empty.is_empty());
}

#[test]
fn midi_note_on_only() {
    assert_eq!(Some(MidiNote { pitch: 60, velocity: 100 }), note_on(&[NOTE_ON, 60, 100]));
    assert_eq!(None, note_on(&[NOTE_OFF, 60, 100]));
    assert_eq!(None, note_on(&[0xB0, 7, 127]));
}

#[test]
fn midi_sounding_notes() {
    assert_eq!(Some(MidiNote { pitch: 60, velocity: 100 }), sounding_note(&[NOTE_ON, 60, 100]));
    assert_eq!(None, sounding_note(&[NOTE_ON, 60, 64]));
    assert_eq!(None, sounding_note(&[NOTE_OFF, 60, 0]));
    assert_eq!(Some(MidiNote { pitch: 61, velocity: 3 }), sounding_note(&[0xB0, 61, 3]));
}

#[test]
fn folder_player_note_layers() {
    let note = Note::from_layers(vec!["p", "mp", "mf", "f"]);
    // depth is 3: velocity * 3 / 127
    assert_eq!(&"p", note.get_layer(0));
    assert_eq!(&"p", note.get_layer(42));
    assert_eq!(&"mp", note.get_layer(43));
    assert_eq!(&"mf", note.get_layer(100));
    assert_eq!(&"f", note.get_layer(127));
    let single = Note::from_layers(vec!["only"]);
    assert_eq!(&"only", single.get_layer(255));
    let copy = note.clone();
    assert_eq!(&"f", copy.get_layer(127));
}
