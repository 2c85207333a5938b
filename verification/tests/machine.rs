use spacefn::config::Config;
use spacefn::machine::{Emit, KeyValue, State, StateMachine, KEY_SPACE};

fn cfg(keys_map: Vec<[u32; 3]>) -> Config {
    Config { keyboard: String::new(), keys_map }
}

fn press(code: u16) -> Emit {
    Emit { code, value: KeyValue::Press }
}

fn release(code: u16) -> Emit {
    Emit { code, value: KeyValue::Release }
}

#[test]
fn idle_forwards_non_modifier_events_in_order() {
    let mut sm = StateMachine::new(cfg(vec![[30, 105, 0]]));
    let mut out: Vec<Emit> = Vec::new();
    out.extend(sm.on_key(30, KeyValue::Press));
    out.extend(sm.on_key(31, KeyValue::Press));
    out.extend(sm.on_key(30, KeyValue::Repeat));
    out.extend(sm.on_key(30, KeyValue::Release));
    out.extend(sm.on_key(31, KeyValue::Release));
    assert_eq!(sm.state(), State::Idle);
    assert_eq!(
        out,
        vec![
            press(30),
            press(31),
            Emit { code: 30, value: KeyValue::Repeat },
            release(30),
            release(31),
        ]
    );
}

#[test]
fn modifier_press_opens_decide_silently() {
    let mut sm = StateMachine::new(cfg(vec![]));
    let emitted = sm.on_key(KEY_SPACE, KeyValue::Press);
    assert!(emitted.is_empty());
    assert_eq!(sm.state(), State::Decide);
    assert!(sm.buffer.is_empty());
}

#[test]
fn tap_emits_modifier_press_then_release() {
    let mut sm = StateMachine::new(cfg(vec![[30, 105, 0]]));
    sm.on_key(KEY_SPACE, KeyValue::Press);
    let emitted = sm.on_key(KEY_SPACE, KeyValue::Release);
    assert_eq!(emitted, vec![press(KEY_SPACE), release(KEY_SPACE)]);
    assert_eq!(sm.state(), State::Idle);
}

#[test]
fn tap_flushes_buffered_keys_as_plain_presses() {
    let mut sm = StateMachine::new(cfg(vec![[30, 105, 0]]));
    sm.on_key(KEY_SPACE, KeyValue::Press);
    assert!(sm.on_key(30, KeyValue::Press).is_empty());
    assert!(sm.on_key(31, KeyValue::Press).is_empty());
    let emitted = sm.on_key(KEY_SPACE, KeyValue::Release);
    // The flushed presses are the original codes, unmapped, in order.
    assert_eq!(
        emitted,
        vec![press(KEY_SPACE), release(KEY_SPACE), press(30), press(31)]
    );
    assert_eq!(sm.state(), State::Idle);
}

#[test]
fn combo_emits_mapped_press_and_release() {
    let mut sm = StateMachine::new(cfg(vec![[30, 105, 0]]));
    sm.on_key(KEY_SPACE, KeyValue::Press);
    assert!(sm.on_key(30, KeyValue::Press).is_empty());
    let emitted = sm.on_key(30, KeyValue::Release);
    assert_eq!(emitted, vec![press(105), release(105)]);
    assert_eq!(sm.state(), State::Shift);
    assert!(sm.buffer.is_empty());
}

#[test]
fn timeout_emits_mapped_presses_and_keeps_buffer() {
    let mut sm = StateMachine::new(cfg(vec![[30, 105, 0]]));
    sm.on_key(KEY_SPACE, KeyValue::Press);
    assert!(sm.on_key(30, KeyValue::Press).is_empty());
    let emitted = sm.on_timeout();
    assert_eq!(emitted, vec![press(105)]);
    assert_eq!(sm.state(), State::Shift);
    assert_eq!(sm.buffer.len(), 1);
    assert!(sm.buffer.contains(30));
}

#[test]
fn shift_release_of_modifier_releases_buffered_keys() {
    let mut sm = StateMachine::new(cfg(vec![[30, 105, 0]]));
    sm.on_key(KEY_SPACE, KeyValue::Press);
    sm.on_key(30, KeyValue::Press);
    sm.on_timeout();
    let emitted = sm.on_key(KEY_SPACE, KeyValue::Release);
    assert_eq!(emitted, vec![release(105)]);
    assert_eq!(sm.state(), State::Idle);
    assert!(sm.buffer.is_empty());
}

#[test]
fn no_stuck_keys_across_the_three_outcomes() {
    for scenario in 0..3 {
        let mut sm = StateMachine::new(cfg(vec![[30, 105, 0]]));
        let mut out: Vec<Emit> = Vec::new();
        out.extend(sm.on_key(KEY_SPACE, KeyValue::Press));
        out.extend(sm.on_key(30, KeyValue::Press));
        match scenario {
            0 => {
                // Tap, then the key is released back in idle.
                out.extend(sm.on_key(KEY_SPACE, KeyValue::Release));
                out.extend(sm.on_key(30, KeyValue::Release));
            }
            1 => {
                // Combo, then the modifier goes up.
                out.extend(sm.on_key(30, KeyValue::Release));
                out.extend(sm.on_key(KEY_SPACE, KeyValue::Release));
            }
            _ => {
                // Timeout, then the modifier goes up.
                out.extend(sm.on_timeout());
                out.extend(sm.on_key(KEY_SPACE, KeyValue::Release));
            }
        }
        assert_eq!(sm.state(), State::Idle);
        for code in [30u16, 57, 105] {
            let presses = out
                .iter()
                .filter(|e| e.code == code && e.value == KeyValue::Press)
                .count();
            let releases = out
                .iter()
                .filter(|e| e.code == code && e.value == KeyValue::Release)
                .count();
            assert_eq!(presses, releases);
        }
    }
}

#[test]
fn shift_emits_extended_code_strictly_first() {
    let mut sm = StateMachine::new(cfg(vec![[30, 105, 109]]));
    sm.on_key(KEY_SPACE, KeyValue::Press);
    sm.on_timeout();
    let emitted = sm.on_key(30, KeyValue::Press);
    assert_eq!(emitted, vec![press(109), press(105)]);
    let emitted = sm.on_key(30, KeyValue::Release);
    assert_eq!(emitted, vec![release(109), release(105)]);
}

#[test]
fn shift_swallows_further_modifier_events() {
    let mut sm = StateMachine::new(cfg(vec![]));
    sm.on_key(KEY_SPACE, KeyValue::Press);
    sm.on_timeout();
    assert!(sm.on_key(KEY_SPACE, KeyValue::Press).is_empty());
    assert!(sm.on_key(KEY_SPACE, KeyValue::Repeat).is_empty());
    assert_eq!(sm.state(), State::Shift);
}

#[test]
fn shift_tracks_only_remapped_keys() {
    let mut sm = StateMachine::new(cfg(vec![[30, 105, 0]]));
    sm.on_key(KEY_SPACE, KeyValue::Press);
    sm.on_timeout();
    // 31 is pass-through: emitted mapped-as-itself, not tracked.
    assert_eq!(sm.on_key(31, KeyValue::Press), vec![press(31)]);
    assert!(!sm.buffer.contains(31));
    // 30 is remapped: emitted and tracked until its release.
    assert_eq!(sm.on_key(30, KeyValue::Press), vec![press(105)]);
    assert!(sm.buffer.contains(30));
    assert_eq!(sm.on_key(30, KeyValue::Release), vec![release(105)]);
    assert!(!sm.buffer.contains(30));
}

#[test]
fn decide_passes_through_release_of_unclaimed_key() {
    let mut sm = StateMachine::new(cfg(vec![[30, 105, 0]]));
    sm.on_key(KEY_SPACE, KeyValue::Press);
    let emitted = sm.on_key(44, KeyValue::Release);
    assert_eq!(emitted, vec![release(44)]);
    assert_eq!(sm.state(), State::Decide);
}

#[test]
fn decide_ignores_repeats_and_overflowing_presses() {
    let mut sm = StateMachine::new(cfg(vec![]));
    sm.on_key(KEY_SPACE, KeyValue::Press);
    for code in 1..=8u16 {
        assert!(sm.on_key(code, KeyValue::Press).is_empty());
    }
    assert_eq!(sm.buffer.len(), 8);
    // A ninth distinct press is silently dropped from the buffer.
    assert!(sm.on_key(9, KeyValue::Press).is_empty());
    assert_eq!(sm.buffer.len(), 8);
    assert!(!sm.buffer.contains(9));
    // A repeat changes nothing.
    assert!(sm.on_key(1, KeyValue::Repeat).is_empty());
    assert_eq!(sm.buffer.len(), 8);
    assert_eq!(sm.state(), State::Decide);
}

#[test]
fn mapped_emissions_reports_whether_a_remap_occurred() {
    let sm = StateMachine::new(cfg(vec![[30, 105, 0], [104, 0, 109]]));
    let (emitted, remapped) = sm.mapped_emissions(30, KeyValue::Press);
    assert_eq!(emitted, vec![press(105)]);
    assert!(remapped);
    // A rule that only adds an extended code is not a remap.
    let (emitted, remapped) = sm.mapped_emissions(104, KeyValue::Press);
    assert_eq!(emitted, vec![press(109), press(104)]);
    assert!(!remapped);
    // An unmatched code passes through as itself.
    let (emitted, remapped) = sm.mapped_emissions(44, KeyValue::Release);
    assert_eq!(emitted, vec![release(44)]);
    assert!(!remapped);
}

#[test]
fn first_matching_rule_wins() {
    let sm = StateMachine::new(cfg(vec![[30, 105, 0], [30, 106, 0]]));
    let (mapped, ext) = sm.map_key(30);
    assert_eq!(mapped, 105);
    assert_eq!(ext, None);
}

#[test]
fn reload_swaps_the_rule_list() {
    let mut sm = StateMachine::new(cfg(vec![[30, 105, 0]]));
    assert_eq!(sm.map_key(30), (105, None));
    sm.reload(cfg(vec![[30, 106, 0]]));
    assert_eq!(sm.map_key(30), (106, None));
    assert_eq!(sm.state(), State::Idle);
}

#[test]
fn key_value_wire_round_trip() {
    assert_eq!(KeyValue::from(0), KeyValue::Release);
    assert_eq!(KeyValue::from(1), KeyValue::Press);
    assert_eq!(KeyValue::from(2), KeyValue::Repeat);
    assert_eq!(KeyValue::from(7), KeyValue::Release);
    assert_eq!(KeyValue::Release.as_raw(), 0);
    assert_eq!(KeyValue::Press.as_raw(), 1);
    assert_eq!(KeyValue::Repeat.as_raw(), 2);
}
