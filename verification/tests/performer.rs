use nongle::performer::mello::{note_analyzer, Mello};
use nongle::performer::note::Note;

#[test]
fn unparse_filename() {
    let filename = "./Xy_samples/35_B2_/35_B2_0.25535.aif".to_string();
    let mello = note_analyzer(&filename);
    let expected_mello = Mello {
        name: "B2".to_string(),
        pitch: 35,
        amplitude: 25535,
    };
    assert_eq!(mello, expected_mello);
    assert_eq!(mello.amplitude as f64 / 100000.0, 0.25535);
}

#[test]
fn analyzer_reads_sharp_names() {
    let mello = note_analyzer("lib/61_C#4_1.00000.aif");
    assert_eq!("C#4", mello.name);
    assert_eq!(61, mello.pitch);
    assert_eq!(100000, mello.amplitude);
}

#[test]
fn analyzer_takes_first_occurrence() {
    let mello = note_analyzer("x12_A1_0.00001.aif_and_13_H2_0.50000.aif");
    assert_eq!("A1", mello.name);
    assert_eq!(12, mello.pitch);
    assert_eq!(1, mello.amplitude);
}

fn mello(name: &str, pitch: u8, amplitude: u32) -> Mello {
    Mello { name: name.to_string(), pitch, amplitude }
}

#[test]
fn performer_note_plays_resolved_layers() {
    let layers = vec![
        mello("C1", 24, 10000),
        mello("C1", 24, 20000),
        mello("C1", 24, 30000),
        mello("C1", 24, 40000),
    ];
    let mut note = Note::new_from_layers(2, layers);
    // velocity 1, queue at 0: 1 + 0 - 2 * ((1 + 0) / 4) = 1
    assert!(note.playable(1));
    assert_eq!(1, note.play(1));
    assert_eq!(20000, note.layer(1).amplitude);
    // velocity 0 resolves to layer 0, not the one played last
    assert_eq!(0, note.play(0));
    // velocity 0 again resolves to layer 0, the one played last: its queue
    // moves on first, to 0 + 1 - 2 * ((0 + 1) / 4) = 1
    assert_eq!(1, note.play(0));
    // velocity 5: 5 + 0 - 2 * (5 / 4) = 3
    assert_eq!(3, note.play(5));
    assert!(!note.playable(200));
}

#[test]
fn performer_never_repeats_a_layer() {
    let layers: Vec<Mello> = (0..7).map(|i| mello("D2", 38, i * 1000)).collect();
    let mut note = Note::new_from_layers(3, layers);
    assert_eq!(1, note.play(0));
    assert_eq!(2, note.play(0));
    assert_eq!(0, note.play(0));
    let mut last = 0;
    for _ in 0..20 {
        let layer = note.play(0);
        assert_ne!(last, layer);
        last = layer;
    }
}

#[test]
fn analyzer_accepts_any_digit_in_note_name() {
    assert!(nongle::performer::mello::is_analysable("lib/61_C\u{0663}_0.50000.aif"));
    let mello = note_analyzer("lib/61_C\u{0663}_0.50000.aif");
    assert_eq!("C\u{0663}", mello.name);
    assert_eq!(61, mello.pitch);
    assert_eq!(50000, mello.amplitude);
    // a pitch of other digits is where the name would be read, and fails
    assert!(!nongle::performer::mello::is_analysable("\u{0666}\u{0661}_C3_0.50000.aif 61_C3_0.50000.aif"));
    assert!(!nongle::performer::mello::is_analysable("no pattern here"));
}
