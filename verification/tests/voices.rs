use nongle::voices::{
    compute_fallback_voice_id, event_step, first_block, next_block, EventStep, Voices, MAX_BLOCK_SIZE,
    NUM_VOICES,
};

#[test]
fn fallback_voice_ids() {
    assert_eq!(60, compute_fallback_voice_id(60, 0));
    assert_eq!(60 + 3 * 65536, compute_fallback_voice_id(60, 3));
    assert_ne!(compute_fallback_voice_id(1, 0), compute_fallback_voice_id(0, 1));
}

#[test]
fn voices_fill_free_slots_then_steal_oldest() {
    let mut voices: Voices<u32> = Voices::new();
    for i in 0..NUM_VOICES {
        let (slot, stolen) = voices.start_voice(Some(i as i32), 0, 60, 10, i as u32);
        assert_eq!(i, slot);
        assert!(stolen.is_none());
    }
    let (slot, stolen) = voices.start_voice(None, 2, 61, 10, 99);
    assert_eq!(0, slot);
    let stolen = stolen.unwrap();
    assert_eq!(0, stolen.internal_voice_id);
    assert_eq!(0, stolen.payload);
    let v = voices.voice(0).unwrap();
    assert_eq!(16, v.internal_voice_id);
    assert_eq!(61 + 2 * 65536, v.voice_id);
    let (slot, stolen) = voices.start_voice(Some(7), 0, 62, 10, 100);
    assert_eq!(1, slot);
    assert_eq!(1, stolen.unwrap().internal_voice_id);
}

#[test]
fn voices_play_frames_and_terminate() {
    let mut voices: Voices<()> = Voices::new();
    let (a, _) = voices.start_voice(Some(1), 0, 60, 2, ());
    let (b, _) = voices.start_voice(Some(2), 0, 61, 3, ());
    assert_eq!(Some(0), voices.next_frame(a));
    assert_eq!(Some(1), voices.next_frame(a));
    assert_eq!(None, voices.next_frame(a));
    assert_eq!(Some(0), voices.next_frame(b));
    assert_eq!(None, voices.next_frame(5));
    let done = voices.terminate_finished();
    assert_eq!(1, done.len());
    assert_eq!(1, done[0].voice_id);
    assert!(voices.voice(a).is_none());
    assert!(voices.voice(b).is_some());
    voices.reset();
    assert!(voices.voice(b).is_none());
    let (slot, _) = voices.start_voice(None, 0, 1, 1, ());
    assert_eq!(0, slot);
    assert_eq!(0, voices.voice(0).unwrap().internal_voice_id);
}

#[test]
fn voice_next_counts_frames() {
    let mut voices: Voices<()> = Voices::new();
    voices.start_voice(Some(1), 0, 60, 1, ());
    let mut v = voices.voice(0).unwrap();
    assert_eq!(Some(0), v.next());
    assert_eq!(None, v.next());
    assert_eq!(1, v.current_frame);
}

#[test]
fn events_split_blocks() {
    assert_eq!(EventStep::Handle, event_step(Some(0), 0, 64));
    assert_eq!(EventStep::Handle, event_step(Some(3), 10, 64));
    assert_eq!(EventStep::EndBlockAt(20), event_step(Some(20), 10, 64));
    assert_eq!(EventStep::Render, event_step(Some(64), 10, 64));
    assert_eq!(EventStep::Render, event_step(None, 10, 64));
}

#[test]
fn blocks_cover_buffer() {
    assert_eq!((0, MAX_BLOCK_SIZE), first_block(200));
    assert_eq!((0, 10), first_block(10));
    assert_eq!((64, 128), next_block(64, 200));
    assert_eq!((192, 200), next_block(192, 200));
    let (mut start, mut end) = first_block(150);
    let mut covered = 0;
    while start < 150 {
        covered += end - start;
        let next = next_block(end, 150);
        start = next.0;
        end = next.1;
    }
    assert_eq!(150, covered);
}
