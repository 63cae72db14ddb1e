use ggpo::game_input::{GameInput, GAMEINPUT_MAX_BYTES};
use ggpo::input_queue::InputQueue;
use ggpo::time_sync::TimeSync;

fn input(frame: usize, size: usize, first: u8) -> GameInput {
    let mut bits = [0u8; 18];
    bits[0] = first;
    GameInput::init(Some(frame), Some(&bits), size)
}

#[test]
fn game_input_new_is_blank() {
    let g = GameInput::new();
    assert_eq!(g.frame, None);
    assert_eq!(g.size, 0);
    assert_eq!(g.bits, [0u8; 18]);
}

#[test]
fn game_input_init_without_bits_is_erased() {
    let g = GameInput::init(Some(3), None, GAMEINPUT_MAX_BYTES);
    assert_eq!(g.frame, Some(3));
    assert_eq!(g.size, 9);
    assert_eq!(g.bits, [b'0'; 18]);
}

#[test]
fn game_input_set_clear_value() {
    let mut g = GameInput::new();
    g.set(10);
    assert!(g.value(10));
    assert_eq!(g.bits[1], 4);
    assert!(!g.value(11));
    g.clear(10);
    assert!(!g.value(10));
    assert_eq!(g.bits, [0u8; 18]);
}

#[test]
fn game_input_erase_keeps_frame_and_size() {
    let mut g = input(5, 2, 7);
    g.erase();
    assert_eq!(g.frame, Some(5));
    assert_eq!(g.size, 2);
    assert_eq!(g.bits, [b'0'; 18]);
}

#[test]
fn game_input_equal_compares_frame_size_and_bits() {
    let a = input(1, 2, 3);
    let b = input(1, 2, 3);
    let c = input(2, 2, 3);
    let d = input(1, 2, 4);
    assert!(a.equal(&b, false));
    assert!(!a.equal(&c, false));
    assert!(a.equal(&c, true));
    assert!(!a.equal(&d, true));
}

#[test]
fn input_queue_init_is_empty() {
    let q = InputQueue::init(1, 2);
    assert_eq!(q.get_last_confirmed_frame(), None);
    assert_eq!(q.get_first_incorrect_frame(), None);
}

#[test]
fn input_queue_gives_back_what_was_added() {
    let mut q = InputQueue::init(0, 2);
    q.add_input(input(0, 2, 0x11));
    q.add_input(input(1, 2, 0x22));
    assert_eq!(q.get_last_confirmed_frame(), Some(1));
    let mut out = GameInput::new();
    assert!(q.get_input(0, &mut out));
    assert_eq!(out.frame, Some(0));
    assert_eq!(out.bits[0], 0x11);
    let mut out = GameInput::new();
    assert!(q.get_input(1, &mut out));
    assert_eq!(out.bits[0], 0x22);
    let mut out = GameInput::new();
    assert!(q.get_confirmed_input(Some(1), &mut out));
    assert_eq!(out.bits[0], 0x22);
}

#[test]
fn input_queue_predicts_a_missing_frame() {
    let mut q = InputQueue::init(0, 2);
    q.add_input(input(0, 2, 0x33));
    let mut out = GameInput::new();
    assert!(!q.get_input(1, &mut out));
    assert_eq!(out.frame, Some(1));
    assert_eq!(out.bits[0], 0x33);
    // the prediction was right: no incorrect frame
    q.add_input(input(1, 2, 0x33));
    assert_eq!(q.get_first_incorrect_frame(), None);
}

#[test]
fn input_queue_marks_a_misprediction() {
    let mut q = InputQueue::init(0, 2);
    q.add_input(input(0, 2, 0x33));
    let mut out = GameInput::new();
    assert!(!q.get_input(1, &mut out));
    q.add_input(input(1, 2, 0x44));
    assert_eq!(q.get_first_incorrect_frame(), Some(1));
    q.reset_prediction(1);
    assert_eq!(q.get_first_incorrect_frame(), None);
}

#[test]
fn input_queue_confirmed_input_of_a_missing_frame() {
    let mut q = InputQueue::init(0, 2);
    q.add_input(input(0, 2, 1));
    let mut out = GameInput::new();
    assert!(!q.get_confirmed_input(Some(5), &mut out));
    assert_eq!(out, GameInput::new());
    assert!(!q.get_confirmed_input(None, &mut out));
}

#[test]
fn input_queue_discard_keeps_later_frames() {
    let mut q = InputQueue::init(0, 2);
    for f in 0..5usize {
        q.add_input(input(f, 2, f as u8));
    }
    q.discard_confirmed_frames(2);
    let mut out = GameInput::new();
    assert!(q.get_input(4, &mut out));
    assert_eq!(out.bits[0], 4);
}

#[test]
fn time_sync_starts_at_zero() {
    let t = TimeSync::new();
    assert_eq!(t.advantage_sums(), (0, 0));
    let mut count = 0usize;
    assert_eq!(t.recommend_frame_wait_duration(false, &mut count, None), 0);
    assert_eq!(count, 1);
}

#[test]
fn time_sync_sums_the_recorded_advantages() {
    let mut t = TimeSync::new();
    for f in 0..3usize {
        t.advance_frame(&input(f, 1, 0), 2, -3);
    }
    assert_eq!(t.advantage_sums(), (6, -9));
}

#[test]
fn time_sync_recommendation_is_clamped() {
    let t = TimeSync::new();
    let mut count = 0usize;
    assert_eq!(t.recommend_frame_wait_duration(false, &mut count, Some(2)), 0);
    assert_eq!(t.recommend_frame_wait_duration(false, &mut count, Some(5)), 5);
    assert_eq!(t.recommend_frame_wait_duration(false, &mut count, Some(20)), 9);
    assert_eq!(count, 3);
}

#[test]
fn time_sync_idle_input_required() {
    let mut t = TimeSync::new();
    t.advance_frame(&input(3, 1, 1), 0, 0);
    let mut count = 0usize;
    // the recorded inputs differ, so no wait is recommended
    assert_eq!(t.recommend_frame_wait_duration(true, &mut count, Some(5)), 0);
    assert_eq!(t.recommend_frame_wait_duration(false, &mut count, Some(5)), 5);
}

#[test]
fn describe_lists_frame_size_and_set_bits() {
    let mut bits = [0u8; 18];
    bits[0] = 0b1000_0010;
    bits[1] = 0b0001_0000;
    let g = GameInput::init(Some(3), Some(&bits), 2);
    assert_eq!(g.describe(true), "(frame:3 size:2 1 712)");
    assert_eq!(g.describe(false), "(size:2 1 712)");
    let none = GameInput::init(None, Some(&bits), 1);
    assert_eq!(none.describe(true), " 1 7)");
    let big = GameInput::init(Some(1234), None, 0);
    assert_eq!(big.describe(true), "(frame:1234 size:0)");
}

#[test]
fn input_queue_applies_the_frame_delay() {
    let mut q = InputQueue::init(0, 4);
    q.set_frame_delay(2);
    q.add_input(GameInput::init(Some(0), Some(&[1u8; 18]), 4));
    assert_eq!(q.get_last_confirmed_frame(), Some(2));
    let mut g = GameInput::new();
    assert!(q.get_confirmed_input(Some(2), &mut g));
    assert_eq!(g.frame, Some(2));
    assert_eq!(g.bits, [1u8; 18]);
    // the frames before it are padded with the blank input
    assert!(q.get_confirmed_input(Some(0), &mut g));
    assert_eq!(g.bits, [b'0'; 18]);
    q.add_input(GameInput::init(Some(1), Some(&[2u8; 18]), 4));
    assert_eq!(q.get_last_confirmed_frame(), Some(3));
}

#[test]
fn input_queue_pads_a_gap_with_the_last_input() {
    let mut q = InputQueue::init(0, 4);
    q.add_input(GameInput::init(Some(0), Some(&[1u8; 18]), 4));
    assert_eq!(q.advance_queue_head(Some(3)), Some(3));
    assert_eq!(q.get_last_confirmed_frame(), Some(2));
    for f in 1..=2 {
        let mut g = GameInput::new();
        assert!(q.get_confirmed_input(Some(f), &mut g));
        assert_eq!(g, GameInput::init(Some(f), Some(&[1u8; 18]), 4));
    }
    // a frame already taken is dropped
    assert_eq!(q.advance_queue_head(Some(1)), None);
}
