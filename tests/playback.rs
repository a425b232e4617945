use lyred::calibrate::{detect, HitRate, RATE_SCALE};
use lyred::clock::Clock;
use lyred::keymap::{lookup, Mode};
use lyred::play::{FunctionKeys, Play, PlayState, SpeedStatus};
use lyred::scheduler::{KeyAction, Scheduler};
use lyred::track::{clamp_to_track, index_table, is_ordered, minutes_seconds, progress_label, NoteEvent};
use lyred::transport::TransportState;

const KEY_A: u16 = 0x41;
const KEY_D: u16 = 0x44;

fn note(start_ms: u64, pitch: i32, duration_ms: u64) -> NoteEvent {
    NoteEvent { start_ms, pitch, duration_ms }
}

fn two_notes() -> Vec<NoteEvent> {
    vec![note(0, 60, 200), note(500, 64, 200)]
}

#[test]
fn lyre_maps_middle_c_and_e() {
    assert_eq!(lookup(60, Mode::GenShin), Some(KEY_A));
    assert_eq!(lookup(64, Mode::GenShin), Some(KEY_D));
    assert_eq!(lookup(48, Mode::GenShin), Some(0x5A));
    assert_eq!(lookup(83, Mode::GenShin), Some(0x55));
}

#[test]
fn lyre_rejects_black_keys_and_out_of_range() {
    assert_eq!(lookup(61, Mode::GenShin), None);
    assert_eq!(lookup(47, Mode::GenShin), None);
    assert_eq!(lookup(84, Mode::GenShin), None);
    assert_eq!(lookup(-5, Mode::GenShin), None);
}

#[test]
fn chromatic_keyboard_covers_every_semitone() {
    assert_eq!(lookup(48, Mode::VRChat), Some(0x31));
    assert_eq!(lookup(57, Mode::VRChat), Some(0x30));
    assert_eq!(lookup(59, Mode::VRChat), Some(0x57));
    assert_eq!(lookup(61, Mode::VRChat), Some(0x52));
    assert_eq!(lookup(83, Mode::VRChat), Some(0x4D));
    assert_eq!(lookup(84, Mode::VRChat), None);
    assert_eq!(lookup(47, Mode::VRChat), None);
}

#[test]
fn empty_track_has_full_hit_rate() {
    for o in [-40, -12, 0, 7, 12, 1000] {
        let r = detect(&Vec::new(), o, Mode::GenShin);
        assert_eq!(r, HitRate { hits: 0, total: 0 });
        assert_eq!(r.scaled(), RATE_SCALE);
    }
}

#[test]
fn hit_rate_counts_playable_notes() {
    let track = vec![note(0, 60, 10), note(10, 61, 10), note(20, 62, 10), note(30, 100, 10)];
    let r = detect(&track, 0, Mode::GenShin);
    assert_eq!(r, HitRate { hits: 2, total: 4 });
    assert_eq!(r.scaled(), 5000);
    assert_eq!(detect(&track, 0, Mode::GenShin), r);
    let up = detect(&track, 12, Mode::GenShin);
    assert_eq!(up, HitRate { hits: 2, total: 4 });
    let chromatic = detect(&track, 0, Mode::VRChat);
    assert_eq!(chromatic, HitRate { hits: 3, total: 4 });
    assert_eq!(chromatic.scaled(), 7500);
}

#[test]
fn hit_rate_as_fraction() {
    let r = detect(&two_notes(), -13, Mode::VRChat);
    assert_eq!(r, HitRate { hits: 1, total: 2 });
    let f = r.hits as f64 / r.total as f64;
    assert!((f - 0.5).abs() < 1e-9);
    assert_eq!(r.scaled(), 5000);
}

#[test]
fn scheduler_plays_two_notes_at_normal_speed() {
    let mut s = Scheduler::new(two_notes(), 0, 1000, 1000, 0, Mode::GenShin);
    assert_eq!(s.tick(1000), vec![KeyAction::Down(KEY_A)]);
    assert_eq!(s.tick(1199), vec![]);
    assert_eq!(s.tick(1200), vec![KeyAction::Up(KEY_A)]);
    assert_eq!(s.tick(1499), vec![]);
    assert_eq!(s.tick(1500), vec![KeyAction::Down(KEY_D)]);
    assert!(!s.is_finished());
    assert_eq!(s.tick(1699), vec![]);
    assert_eq!(s.tick(1700), vec![KeyAction::Up(KEY_D)]);
    assert!(s.is_finished());
}

#[test]
fn scheduler_at_double_speed_fires_second_note_at_250() {
    let mut s = Scheduler::new(two_notes(), 0, 0, 2000, 0, Mode::GenShin);
    assert_eq!(s.tick(0), vec![KeyAction::Down(KEY_A)]);
    assert_eq!(s.tick(100), vec![KeyAction::Up(KEY_A)]);
    assert_eq!(s.tick(249), vec![]);
    assert_eq!(s.tick(250), vec![KeyAction::Down(KEY_D)]);
    assert_eq!(s.tick(350), vec![KeyAction::Up(KEY_D)]);
}

#[test]
fn scheduler_skips_unplayable_note() {
    let mut s = Scheduler::new(two_notes(), 0, 0, 1000, -13, Mode::VRChat);
    assert_eq!(s.tick(0), vec![]);
    assert_eq!(s.position(), 1);
    assert_eq!(s.tick(500), vec![KeyAction::Down(0x34)]);
    assert_eq!(s.tick(700), vec![KeyAction::Up(0x34)]);
    assert!(s.is_finished());
}

#[test]
fn zero_duration_note_is_pressed_and_released() {
    let mut s = Scheduler::new(vec![note(0, 60, 0)], 0, 0, 1000, 0, Mode::GenShin);
    assert_eq!(s.tick(0), vec![KeyAction::Down(KEY_A), KeyAction::Up(KEY_A)]);
    assert!(s.is_finished());
}

#[test]
fn chord_fires_in_track_order() {
    let track = vec![note(0, 60, 100), note(0, 64, 100), note(0, 67, 100)];
    let mut s = Scheduler::new(track, 0, 0, 1000, 0, Mode::GenShin);
    assert_eq!(s.tick(0), vec![KeyAction::Down(KEY_A), KeyAction::Down(KEY_D), KeyAction::Down(0x47)]);
}

#[test]
fn repeated_key_is_released_before_pressed_again() {
    let track = vec![note(0, 60, 500), note(100, 60, 50)];
    let mut s = Scheduler::new(track, 0, 0, 1000, 0, Mode::GenShin);
    assert_eq!(s.tick(0), vec![KeyAction::Down(KEY_A)]);
    assert_eq!(s.tick(100), vec![KeyAction::Up(KEY_A), KeyAction::Down(KEY_A)]);
    assert_eq!(s.tick(150), vec![KeyAction::Up(KEY_A)]);
    assert_eq!(s.tick(600), vec![]);
}

#[test]
fn pause_releases_keys_and_resume_does_not_drift() {
    let mut s = Scheduler::new(two_notes(), 0, 0, 1000, 0, Mode::GenShin);
    assert_eq!(s.tick(0), vec![KeyAction::Down(KEY_A)]);
    assert_eq!(s.pause(100), vec![KeyAction::Up(KEY_A)]);
    assert_eq!(s.tick(5000), vec![]);
    s.resume(10_000);
    assert_eq!(s.clock.sched_time(10_000), 100);
    assert_eq!(s.tick(10_399), vec![]);
    assert_eq!(s.tick(10_400), vec![KeyAction::Down(KEY_D)]);
}

#[test]
fn stop_releases_every_held_key() {
    let track = vec![note(0, 60, 1000), note(0, 64, 1000)];
    let mut s = Scheduler::new(track, 0, 0, 1000, 0, Mode::GenShin);
    assert_eq!(s.tick(0).len(), 2);
    let released = s.stop();
    assert_eq!(released.len(), 2);
    assert!(released.contains(&KeyAction::Up(KEY_A)));
    assert!(released.contains(&KeyAction::Up(KEY_D)));
    assert!(s.held.is_empty());
}

#[test]
fn seek_reads_back_clamped_position_and_fires_that_event_next() {
    let track = vec![note(0, 60, 100), note(500, 62, 100), note(900, 64, 100)];
    let mut s = Scheduler::new(track, 0, 0, 1000, 0, Mode::GenShin);
    assert_eq!(s.seek(1, 50), vec![]);
    assert_eq!(s.position(), 1);
    assert_eq!(s.tick(50), vec![KeyAction::Down(0x53)]);
    assert_eq!(s.seek(99, 60), vec![KeyAction::Up(0x53)]);
    assert_eq!(s.position(), 2);
    assert_eq!(s.tick(60), vec![KeyAction::Down(KEY_D)]);

    let mut ts = TransportState::new();
    ts.request_seek(7, 3);
    assert_eq!(ts.position(), 2);
    assert!(ts.seek_requested);
    ts.request_seek(1, 3);
    assert_eq!(ts.position(), 1);
    assert_eq!(clamp_to_track(5, 0), 0);
}

#[test]
fn doubling_speed_halves_interval() {
    let slow = Clock::pinned(0, 0, 1000);
    let fast = Clock::pinned(0, 0, 2000);
    let i_slow = slow.fire_time(1700) - slow.fire_time(300);
    let i_fast = fast.fire_time(1700) - fast.fire_time(300);
    assert_eq!(i_slow, 1400);
    assert_eq!(i_fast, 700);
    let third = Clock::pinned(0, 0, 3000);
    let i_third = third.fire_time(1000) - third.fire_time(0);
    let i_sixth = Clock::pinned(0, 0, 6000).fire_time(1000) - Clock::pinned(0, 0, 6000).fire_time(0);
    assert!((i_third as i64 - 2 * i_sixth as i64).abs() <= 1);
}

#[test]
fn speed_change_keeps_current_track_time() {
    let mut c = Clock::pinned(100, 0, 1000);
    assert_eq!(c.sched_time(600), 500);
    c.set_speed(600, 2000);
    assert_eq!(c.sched_time(600), 500);
    assert_eq!(c.sched_time(700), 700);
    c.set_speed(700, 0);
    assert_eq!(c.speed_milli, 1);
    assert_eq!(c.sched_time(50), 700);
}

#[test]
fn sync_runs_a_session_to_its_end() {
    let mut ts = TransportState::new();
    let mut play = Play::new();
    assert!(play.function_keys_pressed(&mut ts, true, false, false));
    assert_eq!(play.state, PlayState::Playing);
    ts.running = true;
    let mut s = Scheduler::new(two_notes(), ts.position, 0, ts.speed_milli, ts.offset, Mode::GenShin);
    let (a, go) = s.sync(&mut ts, 0);
    assert_eq!(a, vec![KeyAction::Down(KEY_A)]);
    assert!(go);
    assert_eq!(ts.position, 1);
    assert!(!play.function_keys_pressed(&mut ts, false, true, false));
    assert_eq!(play.state, PlayState::Paused);
    let (a, go) = s.sync(&mut ts, 100);
    assert_eq!(a, vec![KeyAction::Up(KEY_A)]);
    assert!(go);
    assert!(!play.function_keys_pressed(&mut ts, true, false, false));
    assert_eq!(play.state, PlayState::Playing);
    let (a, _) = s.sync(&mut ts, 1000);
    assert!(a.is_empty());
    let (a, _) = s.sync(&mut ts, 1400);
    assert_eq!(a, vec![KeyAction::Down(KEY_D)]);
    let (a, go) = s.sync(&mut ts, 1600);
    assert_eq!(a, vec![KeyAction::Up(KEY_D)]);
    assert!(!go);
    assert!(!ts.active && !ts.running);
}

#[test]
fn sync_stop_releases_held_keys() {
    let mut ts = TransportState::new();
    let mut play = Play::new();
    play.function_keys_pressed(&mut ts, true, false, false);
    let mut s = Scheduler::new(two_notes(), 0, 0, 1000, 0, Mode::GenShin);
    let (a, _) = s.sync(&mut ts, 0);
    assert_eq!(a, vec![KeyAction::Down(KEY_A)]);
    play.function_keys_pressed(&mut ts, false, false, true);
    assert_eq!(play.state, PlayState::Stopped);
    let (a, go) = s.sync(&mut ts, 50);
    assert_eq!(a, vec![KeyAction::Up(KEY_A)]);
    assert!(!go);
}

#[test]
fn sync_applies_seek_request() {
    let mut ts = TransportState::new();
    ts.active = true;
    let track = vec![note(0, 60, 100), note(500, 62, 100), note(900, 64, 100)];
    let mut s = Scheduler::new(track, 0, 0, 1000, 0, Mode::GenShin);
    ts.request_seek(2, 3);
    let (a, go) = s.sync(&mut ts, 10);
    assert_eq!(a, vec![KeyAction::Down(KEY_D)]);
    assert!(go);
    assert!(!ts.seek_requested);
    assert_eq!(ts.position(), 3);
}

#[test]
fn function_key_defaults() {
    let k = FunctionKeys::default();
    assert_eq!(k, FunctionKeys { play: 32, pause: 8, stop: 17 });
    let p = Play::new();
    assert_eq!(p.function_keys, k);
    assert_eq!(p.speed_status, SpeedStatus { add: false, sub: false });
    assert_eq!(p.speed_milli, 1000);
    assert_eq!(p.offset, 0);
}

#[test]
fn speed_keys_step_once_per_press() {
    let mut p = Play::new();
    p.speed_up(true, false);
    assert_eq!(p.speed_milli, 1100);
    p.speed_up(true, false);
    assert_eq!(p.speed_milli, 1100);
    p.speed_up(false, false);
    p.speed_up(false, true);
    assert_eq!(p.speed_milli, 1200);
    p.speed_down(true, false);
    assert_eq!(p.speed_milli, 1100);
    p.reset_speed();
    assert_eq!(p.speed_milli, 1000);
    p.speed_milli = 100;
    p.speed_down(false, true);
    assert_eq!(p.speed_milli, 100);
}

#[test]
fn offset_controls() {
    let mut p = Play::new();
    p.offset_up();
    p.offset_up();
    assert_eq!(p.offset, 2);
    p.offset_down();
    assert_eq!(p.offset, 1);
    p.reset_offset();
    assert_eq!(p.offset, 0);
    p.offset = i32::MAX;
    p.offset_up();
    assert_eq!(p.offset, i32::MAX);
    let mut ts = TransportState::new();
    ts.position = 5;
    ts.active = true;
    p.open_file(&mut ts);
    assert_eq!(p.offset, 0);
    assert_eq!(ts.position, 0);
    assert!(!ts.active);
}

#[test]
fn track_index_table_and_clock_label() {
    let track = vec![note(0, 60, 10), note(61_500, 62, 10), note(125_000, 64, 10)];
    assert!(is_ordered(&track));
    assert_eq!(index_table(&track), vec![0, 61_500, 125_000]);
    assert_eq!(minutes_seconds(61_500), (1, 1));
    assert_eq!(minutes_seconds(125_000), (2, 5));
    assert!(!is_ordered(&vec![note(10, 60, 0), note(5, 60, 0)]));
}

#[test]
fn progress_label_reads_index_table() {
    let table = vec![0, 61_500, 125_000];
    assert_eq!(progress_label(&table, 1), Some(((1, 1), (2, 5))));
    assert_eq!(progress_label(&table, 3), None);
    assert_eq!(progress_label(&Vec::new(), 0), None);
}

#[test]
fn hotkeys_stay_distinct_when_rebound() {
    let mut p = Play::new();
    assert!(!p.bind_play(8));
    assert!(!p.bind_play(17));
    assert_eq!(p.function_keys, FunctionKeys { play: 32, pause: 8, stop: 17 });
    assert!(p.bind_play(65));
    assert!(!p.bind_pause(65));
    assert!(p.bind_pause(32));
    assert!(!p.bind_stop(32));
    assert!(p.bind_stop(66));
    assert_eq!(p.function_keys, FunctionKeys { play: 65, pause: 32, stop: 66 });
}

#[test]
fn sync_seek_fires_target_then_releases_at_its_end() {
    let mut ts = TransportState::new();
    ts.active = true;
    let track = vec![note(0, 60, 100), note(500, 62, 100), note(900, 64, 300)];
    let mut s = Scheduler::new(track, 0, 0, 1000, 0, Mode::GenShin);
    ts.request_seek(1, 3);
    let (a, _) = s.sync(&mut ts, 0);
    assert_eq!(a, vec![KeyAction::Down(0x53)]);
    let (a, _) = s.sync(&mut ts, 99);
    assert!(a.is_empty());
    let (a, _) = s.sync(&mut ts, 100);
    assert_eq!(a, vec![KeyAction::Up(0x53)]);
    let (a, go) = s.sync(&mut ts, 400);
    assert_eq!(a, vec![KeyAction::Down(KEY_D)]);
    assert!(go);
    let (a, go) = s.sync(&mut ts, 700);
    assert_eq!(a, vec![KeyAction::Up(KEY_D)]);
    assert!(!go);
}

#[test]
fn sync_seek_while_paused_is_kept_and_resumes_there() {
    let mut ts = TransportState::new();
    let mut play = Play::new();
    play.function_keys_pressed(&mut ts, true, false, false);
    let track = vec![note(0, 60, 100), note(500, 62, 100), note(900, 64, 100)];
    let mut s = Scheduler::new(track, 0, 0, 1000, 0, Mode::GenShin);
    let (a, _) = s.sync(&mut ts, 0);
    assert_eq!(a, vec![KeyAction::Down(KEY_A)]);
    play.function_keys_pressed(&mut ts, false, true, false);
    let (a, go) = s.sync(&mut ts, 50);
    assert_eq!(a, vec![KeyAction::Up(KEY_A)]);
    assert!(go);
    play.drag_released(&mut ts, 9, 3);
    assert_eq!(ts.position(), 2);
    let (a, go) = s.sync(&mut ts, 60);
    assert!(a.is_empty());
    assert!(go);
    assert_eq!(ts.position(), 2);
    assert!(!ts.seek_requested);
    let (a, _) = s.sync(&mut ts, 5000);
    assert!(a.is_empty());
    assert_eq!(ts.position(), 2);
    play.function_keys_pressed(&mut ts, true, false, false);
    let (a, _) = s.sync(&mut ts, 6000);
    assert_eq!(a, vec![KeyAction::Down(KEY_D)]);
    assert_eq!(ts.position(), 3);
}

#[test]
fn sync_stop_keeps_play_head() {
    let mut ts = TransportState::new();
    ts.active = true;
    let track = vec![note(0, 60, 100), note(500, 62, 100), note(900, 64, 100)];
    let mut s = Scheduler::new(track, 0, 0, 1000, 0, Mode::GenShin);
    let (a, _) = s.sync(&mut ts, 550);
    assert_eq!(a, vec![KeyAction::Down(KEY_A), KeyAction::Down(0x53), KeyAction::Up(KEY_A)]);
    assert_eq!(ts.position(), 2);
    ts.active = false;
    let (a, go) = s.sync(&mut ts, 560);
    assert_eq!(a, vec![KeyAction::Up(0x53)]);
    assert!(!go);
    assert_eq!(ts.position(), 2);
    assert_eq!(s.position(), 2);
}
