use spacefn::config::Config;
use spacefn::machine::{State, StateMachine};
use spacefn::{KeyBuffer, MAX_BUFFER};

#[test]
fn test_key_buffer() {
    let mut buffer = KeyBuffer::new();

    assert!(!buffer.contains(1));
    assert!(buffer.append(1));
    assert!(buffer.contains(1));
    assert!(!buffer.append(1));

    assert!(buffer.remove(1));
    assert!(!buffer.contains(1));

    for i in 0..MAX_BUFFER {
        assert!(buffer.append(i as u16));
    }
    assert!(!buffer.append(100));
}

#[test]
fn test_key_buffer_clear() {
    let mut buffer = KeyBuffer::new();
    buffer.append(1);
    buffer.append(2);
    assert_eq!(buffer.len(), 2);

    buffer.clear();
    assert!(buffer.is_empty());
}

#[test]
fn test_key_buffer_remove_middle() {
    let mut buffer = KeyBuffer::new();
    buffer.append(1);
    buffer.append(2);
    buffer.append(3);

    buffer.remove(2);
    assert!(!buffer.contains(2));
    assert!(buffer.contains(1));
    assert!(buffer.contains(3));
}

#[test]
fn test_state_transitions() {
    let config = Config::default();
    let mut sm = StateMachine::new(config);

    assert_eq!(sm.state(), State::Idle);

    sm.set_state(State::Decide);
    assert_eq!(sm.state(), State::Decide);
    assert!(sm.buffer.is_empty());

    sm.set_state(State::Shift);
    assert_eq!(sm.state(), State::Shift);
}

#[test]
fn test_key_map_no_mapping() {
    let config = Config::default();
    let sm = StateMachine::new(config);

    let (mapped, ext) = sm.map_key(30); // Key A
    assert_eq!(mapped, 30);
    assert_eq!(ext, None);
}

#[test]
fn test_key_map_with_mapping() {
    let config = Config {
        keyboard: String::new(),
        keys_map: vec![[30, 105, 0]], // A -> F9
    };
    let sm = StateMachine::new(config);

    let (mapped, ext) = sm.map_key(30);
    assert_eq!(mapped, 105);
    assert_eq!(ext, None);
}

#[test]
fn test_key_map_with_extended() {
    let config = Config {
        keyboard: String::new(),
        keys_map: vec![[104, 0, 109]], // PageUp -> Pause
    };
    let sm = StateMachine::new(config);

    let (mapped, ext) = sm.map_key(104);
    assert_eq!(mapped, 104); // 0 means no remap, keep original
    assert_eq!(ext, Some(109));
}

#[test]
fn test_key_map_both_mapped_and_extended() {
    let config = Config {
        keyboard: String::new(),
        keys_map: vec![[57, 0, 125]], // Space -> Fn+Space = Menu
    };
    let sm = StateMachine::new(config);

    let (mapped, ext) = sm.map_key(57);
    assert_eq!(mapped, 57); // Keep original key
    assert_eq!(ext, Some(125)); // Send extended key
}

#[test]
fn test_config_default() {
    let config = Config::default();
    assert!(config.keyboard.is_empty());
    assert!(config.keys_map.is_empty());
}
