use nongle::engine::note::{is_wav_name, layer_paths, Note};
use nongle::engine::que::{Que, QueMode};
use nongle::engine::state::{VelocityState, DEFAULT_QUE_WIDTH};
use nongle::engine::{pitch_from_path, Library};

#[test]
fn next_index_in_que_down() {
    let mut que = Que::new(2, 4, QueMode::Down);
    que.next();
    que.next();
    que.next();
    que.next();
    assert_eq!(0, que.get_id());
}

#[test]
fn engine_que_full_turn_returns_to_start() {
    let mut que = Que::new(3, 5, QueMode::Up);
    que.next();
    assert_eq!(1, que.get_id());
    que.next();
    que.next();
    assert_eq!(0, que.get_id());
    que.next();
    que.next();
    que.next();
    que.next();
    assert_eq!(1, que.get_id());
}

#[test]
fn engine_que_down_descends_to_bottom() {
    let mut que = Que::new(3, 3, QueMode::Down);
    que.set_width(3);
    que.next();
    assert_eq!(0, que.get_id());
    let mut up = Que::new(3, 3, QueMode::Up);
    up.next();
    up.next();
    assert_eq!(2, up.get_id());
}

#[test]
fn engine_que_set_width_folds_offset() {
    let mut que = Que::new(4, 4, QueMode::Up);
    que.next();
    que.next();
    que.next();
    assert_eq!(3, que.get_id());
    que.set_width(2);
    assert_eq!(2, que.width());
    assert_eq!(1, que.get_id());
    que.set_width(0);
    assert_eq!(0, que.get_id());
}

#[test]
fn state_set_width_keeps_layers_valid() {
    let mut state = VelocityState::default();
    state.add_note(60, 4, 4);
    state.get_layer(60, 127);
    state.get_layer(60, 127);
    state.get_layer(60, 127);
    state.set_width(2);
    assert_eq!(Some(3), state.get_layer(60, 127));
    for v in [0usize, 64, 127] {
        for _ in 0..5 {
            assert!(state.get_layer(60, v).unwrap() < 4);
        }
    }
}

#[test]
fn engine_que_set_width_is_bounded_by_depth() {
    let mut que = Que::new(2, 4, QueMode::Up);
    que.set_width(10);
    assert_eq!(4, que.width());
    que.set_width(3);
    assert_eq!(3, que.width());
    assert_eq!(4, que.depth());
}

#[test]
fn state_walks_through_window() {
    let mut state = VelocityState::default();
    assert_eq!(DEFAULT_QUE_WIDTH, state.width());
    state.add_note(60, 8, 4);
    // span below the window is 8 - 4 = 4; velocity 127 maps onto it fully
    assert_eq!(Some(4), state.get_layer(60, 127));
    assert_eq!(Some(5), state.get_layer(60, 127));
    assert_eq!(Some(6), state.get_layer(60, 127));
    assert_eq!(Some(7), state.get_layer(60, 127));
    assert_eq!(Some(4), state.get_layer(60, 127));
    // velocity 0 starts at the bottom, plus the window offset (now 1)
    assert_eq!(Some(1), state.get_layer(60, 0));
    // velocity 64: 64 * 4 / 127 = 2, plus offset 2
    assert_eq!(Some(4), state.get_layer(60, 64));
}

#[test]
fn state_unknown_pitch_gives_none() {
    let mut state = VelocityState::default();
    state.add_note(60, 8, 4);
    assert_eq!(None, state.get_layer(61, 100));
    assert_eq!(None, state.span(61));
    assert_eq!(Some(4), state.span(60));
}

#[test]
fn state_successive_layers_differ() {
    let mut state = VelocityState::default();
    state.add_note(40, 12, 3);
    let mut last = state.get_layer(40, 90).unwrap();
    for _ in 0..20 {
        let next = state.get_layer(40, 90).unwrap();
        assert_ne!(last, next);
        assert!(next < 12);
        last = next;
    }
}

#[test]
fn state_layers_stay_in_note_and_grow_with_velocity() {
    let mut state = VelocityState::default();
    state.add_note(10, 6, 2);
    for v in 0..=127usize {
        let mut probe = VelocityState::default();
        probe.add_note(10, 6, 2);
        let l = probe.get_layer(10, v).unwrap();
        assert!(l < 6);
    }
    let mut a = VelocityState::default();
    a.add_note(10, 6, 2);
    let mut b = VelocityState::default();
    b.add_note(10, 6, 2);
    assert!(a.get_layer(10, 30).unwrap() <= b.get_layer(10, 100).unwrap());
    assert_eq!(Some(4), state.get_layer(10, 127));
}

#[test]
fn state_width_one_repeats_layer() {
    let mut state = VelocityState::default();
    state.add_note(5, 3, 1);
    assert_eq!(Some(2), state.get_layer(5, 127));
    assert_eq!(Some(2), state.get_layer(5, 127));
}

#[test]
fn state_add_note_caps_window_at_layers() {
    let mut state = VelocityState::default();
    state.add_note(5, 2, 4);
    assert_eq!(Some(0), state.span(5));
    assert_eq!(Some(0), state.get_layer(5, 127));
    assert_eq!(Some(1), state.get_layer(5, 127));
    assert_eq!(Some(0), state.get_layer(5, 127));
}

#[test]
fn state_set_width_applies_to_all_queues() {
    let mut state = VelocityState::default();
    state.add_note(1, 10, 4);
    state.add_note(2, 3, 4);
    state.set_width(5);
    assert_eq!(5, state.width());
    assert_eq!(Some(5), state.span(1));
    assert_eq!(Some(0), state.span(2));
}

#[test]
fn state_layer_at_offset() {
    let mut state = VelocityState::default();
    state.add_note(7, 8, 4);
    assert_eq!(Some(3), state.get_layer_at_offset(7, 3));
    assert_eq!(Some(4), state.get_layer_at_offset(7, 3));
    assert_eq!(Some(usize::MAX), state.get_layer_at_offset(7, usize::MAX));
    assert_eq!(None, state.get_layer_at_offset(8, 3));
}

#[test]
fn state_huge_velocity_saturates() {
    let mut state = VelocityState::default();
    state.add_note(3, usize::MAX, 1);
    assert_eq!(Some(usize::MAX), state.get_layer(3, usize::MAX));
}

#[test]
fn pitch_is_read_from_folder_name() {
    assert_eq!(Some(35), pitch_from_path("./Xy_samples/35_B2"));
    assert_eq!(Some(7), pitch_from_path("lib/07_G0"));
    assert_eq!(Some(99), pitch_from_path("99"));
    assert_eq!(Some(5), pitch_from_path("a/+5x"));
    assert_eq!(None, pitch_from_path("a/5"));
    assert_eq!(None, pitch_from_path("a/b5"));
    assert_eq!(None, pitch_from_path("a/35/"));
    assert_eq!(None, pitch_from_path("a/-5"));
    assert_eq!(None, pitch_from_path("a/3é"));
}

#[test]
fn library_notes_and_state() {
    let lib: Library<&str> = Library::empty();
    assert_eq!(128, lib.len());
    let lib = lib.with_note(60, Note::from_layers(vec!["soft", "mid", "loud"]));
    let lib = lib.with_note(62, Note::from_layers(vec!["a", "b", "c", "d", "e", "f"]));
    assert_eq!(&"mid", lib.get_note(60, 1));
    assert_eq!(&"f", lib.get_note(62, 5));
    let mut state = lib.new_state(4);
    assert_eq!(DEFAULT_QUE_WIDTH, state.width());
    assert_eq!(Some(0), state.span(60));
    assert_eq!(Some(2), state.span(62));
    assert_eq!(None, state.span(61));
    let idx = state.get_layer(62, 127).unwrap();
    assert_eq!(&"c", lib.get_note(62, idx));
}

#[test]
fn note_layers() {
    let note = Note::from_layers(vec![1, 2, 3]);
    assert_eq!(3, note.depth());
    assert_eq!(&2, note.get_layer(1));
}

#[test]
fn wav_names() {
    assert!(is_wav_name("a/b.wav"));
    assert!(is_wav_name(".wav"));
    assert!(!is_wav_name("wav"));
    assert!(!is_wav_name("a/b.WAV"));
    assert!(!is_wav_name("a/b.wave"));
}

#[test]
fn layer_paths_sorted_and_filtered() {
    let entries = vec![
        "dir/03.wav".to_string(),
        "dir/notes.txt".to_string(),
        "dir/01.wav".to_string(),
        "dir/10.wav".to_string(),
        "dir/02.aif".to_string(),
        "dir/01b.wav".to_string(),
    ];
    let r = layer_paths(&entries);
    assert_eq!(
        vec![
            "dir/01.wav".to_string(),
            "dir/01b.wav".to_string(),
            "dir/03.wav".to_string(),
            "dir/10.wav".to_string(),
        ],
        r
    );
    assert!(layer_paths(&vec![]).is_empty());
}

#[test]
fn layer_paths_byte_order() {
    let entries = vec!["d/é.wav".to_string(), "d/z.wav".to_string(), "d/Z.wav".to_string()];
    let r = layer_paths(&entries);
    assert_eq!(vec!["d/Z.wav".to_string(), "d/z.wav".to_string(), "d/é.wav".to_string()], r);
}

#[test]
fn picked_layers_exist_in_library() {
    let lib: Library<usize> = Library::empty()
        .with_note(30, Note::from_layers((0..9).collect()))
        .with_note(31, Note::from_layers(vec![0]));
    let mut state = lib.new_state(3);
    for round in 0..10 {
        for v in [0usize, 1, 50, 126, 127] {
            for pitch in [30usize, 31] {
                let idx = state.get_layer(pitch, v).unwrap();
                let depth = lib.note_depth(pitch).unwrap();
                assert!(idx < depth, "round {} velocity {} pitch {}", round, v, pitch);
                assert_eq!(&idx, lib.get_note(pitch, idx));
            }
        }
    }
    assert_eq!(None, lib.note_depth(32));
}

#[test]
fn state_offset_within_span_stays_in_note() {
    let mut state = VelocityState::default();
    state.ensure_wf();
    state.add_note(9, 6, 2);
    let span = state.span(9).unwrap();
    assert_eq!(4, span);
    for _ in 0..4 {
        assert!(state.get_layer_at_offset(9, span).unwrap() < 6);
    }
    state.ensure_wf();
}
