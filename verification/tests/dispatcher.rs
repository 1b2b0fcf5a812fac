use liu_ime::dictionary::Dictionary;
use liu_ime::dispatcher::Dispatcher;
use liu_ime::dispatcher::KeyDecision;
use liu_ime::dispatcher::VK_BACK;
use liu_ime::dispatcher::VK_COMMA;
use liu_ime::dispatcher::VK_ESCAPE;
use liu_ime::dispatcher::VK_PERIOD;
use liu_ime::dispatcher::VK_QUIT;
use liu_ime::dispatcher::VK_RETURN;
use liu_ime::dispatcher::VK_SPACE;
use liu_ime::input_method::InputMethodProcessor;

fn chars(s: &str) -> Vec<char> {
    s.chars().collect()
}

fn strings(v: &[&str]) -> Vec<String> {
    v.iter().map(|s| s.to_string()).collect()
}

fn test_processor() -> InputMethodProcessor {
    InputMethodProcessor::new(Dictionary::from_pairs(vec![
        (chars("a"), strings(&["一", "乙"])),
        (chars("ab"), strings(&["二"])),
        (chars("."), strings(&["。"])),
    ]))
}

const VK_LSHIFT: u32 = 160;
const VK_LCONTROL: u32 = 162;
const VK_A: u32 = 65;
const VK_B: u32 = 66;
const VK_ONE: u32 = 49;

#[test]
fn test_shift_toggle_state() {
    let mut d = Dispatcher::new();
    let mut p = test_processor();

    // the initial mode is intercepting
    assert!(!d.passthrough);

    // first solitary tap: intercepting -> pass-through
    d.process_key_event(&mut p, VK_LSHIFT, true, false, false);
    d.process_key_event(&mut p, VK_LSHIFT, false, false, false);
    assert!(d.passthrough);

    // second solitary tap: pass-through -> intercepting
    d.process_key_event(&mut p, VK_LSHIFT, true, false, false);
    d.process_key_event(&mut p, VK_LSHIFT, false, false, false);
    assert!(!d.passthrough);
}

#[test]
fn test_ctrl_pressed_state() {
    let mut d = Dispatcher::new();
    let mut p = test_processor();

    assert!(!d.ctrl_down);

    let out = d.process_key_event(&mut p, VK_LCONTROL, true, false, false);
    assert!(d.ctrl_down);
    assert!(matches!(out.decision, KeyDecision::Forward));

    let out = d.process_key_event(&mut p, VK_LCONTROL, false, false, false);
    assert!(!d.ctrl_down);
    assert!(matches!(out.decision, KeyDecision::Forward));
}

#[test]
fn test_vk_code_values() {
    assert_eq!(VK_BACK, 8);
    assert_eq!(VK_RETURN, 13);
    assert_eq!(VK_ESCAPE, 27);
    assert_eq!(VK_SPACE, 32);
    assert_eq!(VK_QUIT, 115);
    assert_eq!(VK_PERIOD, 190);
    assert_eq!(VK_COMMA, 188);
}

#[test]
fn test_character_lowercase_conversion() {
    assert_eq!(liu_ime::dictionary::fold_char_exec('A'), 'a');
    assert_eq!(liu_ime::dictionary::fold_char_exec('Z'), 'z');
    assert_eq!(liu_ime::dictionary::fold_char_exec('a'), 'a');
    assert_eq!(liu_ime::dictionary::fold_char_exec('z'), 'z');
}

#[test]
fn test_shift_with_other_key_does_not_toggle() {
    let mut d = Dispatcher::new();
    let mut p = test_processor();

    // shift down, another key down, shift up: no mode change
    d.process_key_event(&mut p, VK_LSHIFT, true, false, false);
    d.process_key_event(&mut p, VK_A, true, false, false);
    d.process_key_event(&mut p, VK_LSHIFT, false, false, false);
    assert!(!d.passthrough);
}

#[test]
fn test_solitary_tap_after_combination_still_toggles() {
    let mut d = Dispatcher::new();
    let mut p = test_processor();

    d.process_key_event(&mut p, VK_LSHIFT, true, false, false);
    d.process_key_event(&mut p, VK_A, true, false, false);
    d.process_key_event(&mut p, VK_LSHIFT, false, false, false);
    assert!(!d.passthrough);

    // the guard was reset on the combination's shift-up; a fresh tap toggles
    d.process_key_event(&mut p, VK_LSHIFT, true, false, false);
    d.process_key_event(&mut p, VK_LSHIFT, false, false, false);
    assert!(d.passthrough);
}

#[test]
fn test_shift_toggle_clears_code() {
    let mut d = Dispatcher::new();
    let mut p = test_processor();

    d.process_key_event(&mut p, VK_A, true, false, false);
    assert_eq!(p.get_state().current_code, chars("a"));

    d.process_key_event(&mut p, VK_LSHIFT, true, false, false);
    let out = d.process_key_event(&mut p, VK_LSHIFT, false, false, false);
    assert!(d.passthrough);
    assert!(out.dirty);
    assert_eq!(p.get_state().current_code, chars(""));
}

#[test]
fn test_injected_events_forwarded() {
    let mut d = Dispatcher::new();
    let mut p = test_processor();

    let out = d.process_key_event(&mut p, VK_A, true, true, false);
    assert!(matches!(out.decision, KeyDecision::Forward));
    assert_eq!(p.get_state().current_code, chars(""));
}

#[test]
fn test_quit_hotkey_in_both_modes() {
    let mut d = Dispatcher::new();
    let mut p = test_processor();

    let out = d.process_key_event(&mut p, VK_QUIT, true, false, false);
    assert!(matches!(out.decision, KeyDecision::Quit));

    // switch to pass-through; the quit hotkey still wins
    d.process_key_event(&mut p, VK_LSHIFT, true, false, false);
    d.process_key_event(&mut p, VK_LSHIFT, false, false, false);
    assert!(d.passthrough);
    let out = d.process_key_event(&mut p, VK_QUIT, true, false, false);
    assert!(matches!(out.decision, KeyDecision::Quit));
}

#[test]
fn test_ctrl_space_toggles_overlay() {
    let mut d = Dispatcher::new();
    let mut p = test_processor();

    d.process_key_event(&mut p, VK_LCONTROL, true, false, false);
    let out = d.process_key_event(&mut p, VK_SPACE, true, false, false);
    assert!(matches!(out.decision, KeyDecision::ToggleOverlay));

    // the hotkey is honoured in pass-through mode too
    d.process_key_event(&mut p, VK_LCONTROL, false, false, false);
    d.process_key_event(&mut p, VK_LSHIFT, true, false, false);
    d.process_key_event(&mut p, VK_LSHIFT, false, false, false);
    assert!(d.passthrough);
    d.process_key_event(&mut p, VK_LCONTROL, true, false, false);
    let out = d.process_key_event(&mut p, VK_SPACE, true, false, false);
    assert!(matches!(out.decision, KeyDecision::ToggleOverlay));
}

#[test]
fn test_ctrl_combination_forwarded() {
    let mut d = Dispatcher::new();
    let mut p = test_processor();

    d.process_key_event(&mut p, VK_LCONTROL, true, false, false);
    let out = d.process_key_event(&mut p, VK_A, true, false, false);
    assert!(matches!(out.decision, KeyDecision::Forward));
    assert_eq!(p.get_state().current_code, chars(""));
}

#[test]
fn test_passthrough_forwards_letters() {
    let mut d = Dispatcher::new();
    let mut p = test_processor();

    d.process_key_event(&mut p, VK_LSHIFT, true, false, false);
    d.process_key_event(&mut p, VK_LSHIFT, false, false, false);
    assert!(d.passthrough);

    let out = d.process_key_event(&mut p, VK_A, true, false, false);
    assert!(matches!(out.decision, KeyDecision::Forward));
    assert_eq!(p.get_state().current_code, chars(""));
}

#[test]
fn test_letter_key_composes() {
    let mut d = Dispatcher::new();
    let mut p = test_processor();

    let out = d.process_key_event(&mut p, VK_A, true, false, false);
    assert!(matches!(out.decision, KeyDecision::Consume));
    assert!(out.dirty);
    assert_eq!(p.get_state().current_code, chars("a"));
    assert_eq!(p.get_state().candidates.len(), 2);
}

#[test]
fn test_key_up_forwarded_while_intercepting() {
    let mut d = Dispatcher::new();
    let mut p = test_processor();

    let out = d.process_key_event(&mut p, VK_A, false, false, false);
    assert!(matches!(out.decision, KeyDecision::Forward));
    assert_eq!(p.get_state().current_code, chars(""));
}

#[test]
fn test_overlay_visible_forwards() {
    let mut d = Dispatcher::new();
    let mut p = test_processor();

    let out = d.process_key_event(&mut p, VK_A, true, false, true);
    assert!(matches!(out.decision, KeyDecision::Forward));
    assert_eq!(p.get_state().current_code, chars(""));
}

#[test]
fn test_digit_commits_candidate() {
    let mut d = Dispatcher::new();
    let mut p = test_processor();

    d.process_key_event(&mut p, VK_A, true, false, false);
    let out = d.process_key_event(&mut p, VK_ONE, true, false, false);
    match out.decision {
        KeyDecision::Deliver(t) => assert_eq!(t, "一"),
        _ => panic!("digit selection should deliver the first candidate"),
    }
    assert!(out.dirty);
    assert_eq!(p.get_state().current_code, chars(""));
}

#[test]
fn test_digit_without_candidate_consumed() {
    let mut d = Dispatcher::new();
    let mut p = test_processor();

    let out = d.process_key_event(&mut p, VK_ONE, true, false, false);
    assert!(matches!(out.decision, KeyDecision::Consume));
    assert!(!out.dirty);
}

#[test]
fn test_space_confirms_first_candidate() {
    let mut d = Dispatcher::new();
    let mut p = test_processor();

    d.process_key_event(&mut p, VK_A, true, false, false);
    let out = d.process_key_event(&mut p, VK_SPACE, true, false, false);
    match out.decision {
        KeyDecision::Deliver(t) => assert_eq!(t, "一"),
        _ => panic!("space should deliver the first candidate"),
    }
    assert_eq!(p.get_state().current_code, chars(""));
}

#[test]
fn test_space_without_input_forwarded() {
    let mut d = Dispatcher::new();
    let mut p = test_processor();

    let out = d.process_key_event(&mut p, VK_SPACE, true, false, false);
    assert!(matches!(out.decision, KeyDecision::Forward));
}

#[test]
fn test_space_with_unmatched_code_consumed_and_cleared() {
    let mut d = Dispatcher::new();
    let mut p = test_processor();

    d.process_key_event(&mut p, 88, true, false, false);  // 'x', no match
    assert_eq!(p.get_state().current_code, chars("x"));
    let out = d.process_key_event(&mut p, VK_SPACE, true, false, false);
    assert!(matches!(out.decision, KeyDecision::Consume));
    assert!(out.dirty);
    assert_eq!(p.get_state().current_code, chars(""));
}

#[test]
fn test_enter_confirms_like_space() {
    let mut d = Dispatcher::new();
    let mut p = test_processor();

    d.process_key_event(&mut p, VK_A, true, false, false);
    d.process_key_event(&mut p, VK_B, true, false, false);
    let out = d.process_key_event(&mut p, VK_RETURN, true, false, false);
    match out.decision {
        KeyDecision::Deliver(t) => assert_eq!(t, "二"),
        _ => panic!("enter should deliver the first candidate"),
    }
    assert_eq!(p.get_state().current_code, chars(""));
}

#[test]
fn test_enter_without_input_forwarded() {
    let mut d = Dispatcher::new();
    let mut p = test_processor();

    let out = d.process_key_event(&mut p, VK_RETURN, true, false, false);
    assert!(matches!(out.decision, KeyDecision::Forward));
}

#[test]
fn test_escape_clears_code() {
    let mut d = Dispatcher::new();
    let mut p = test_processor();

    d.process_key_event(&mut p, VK_A, true, false, false);
    let out = d.process_key_event(&mut p, VK_ESCAPE, true, false, false);
    assert!(matches!(out.decision, KeyDecision::Consume));
    assert!(out.dirty);
    assert_eq!(p.get_state().current_code, chars(""));

    let out = d.process_key_event(&mut p, VK_ESCAPE, true, false, false);
    assert!(matches!(out.decision, KeyDecision::Forward));
}

#[test]
fn test_backspace_via_dispatcher() {
    let mut d = Dispatcher::new();
    let mut p = test_processor();

    d.process_key_event(&mut p, VK_A, true, false, false);
    let out = d.process_key_event(&mut p, VK_BACK, true, false, false);
    assert!(matches!(out.decision, KeyDecision::Consume));
    assert_eq!(p.get_state().current_code, chars(""));

    let out = d.process_key_event(&mut p, VK_BACK, true, false, false);
    assert!(matches!(out.decision, KeyDecision::Forward));
}

#[test]
fn test_period_composes_symbol() {
    let mut d = Dispatcher::new();
    let mut p = test_processor();

    let out = d.process_key_event(&mut p, VK_PERIOD, true, false, false);
    assert!(matches!(out.decision, KeyDecision::Consume));
    assert!(out.dirty);
    assert_eq!(p.get_state().complement_selected, Some("。".to_string()));

    let out = d.process_key_event(&mut p, VK_SPACE, true, false, false);
    match out.decision {
        KeyDecision::Deliver(t) => assert_eq!(t, "。"),
        _ => panic!("space should deliver the pending symbol"),
    }
}

#[test]
fn test_comma_without_mapping_consumed() {
    let mut d = Dispatcher::new();
    let mut p = test_processor();

    let out = d.process_key_event(&mut p, VK_COMMA, true, false, false);
    assert!(matches!(out.decision, KeyDecision::Consume));
    assert!(!out.dirty);
    assert_eq!(p.get_state().current_code, chars(""));
}

#[test]
fn test_forwarded_keys_pass_through_interception() {
    let mut d = Dispatcher::new();
    let mut p = test_processor();

    for vk in [9u32, 20, 37, 38, 39, 40, 112, 116, 135, 144, 145, 91, 93] {
        let out = d.process_key_event(&mut p, vk, true, false, false);
        assert!(matches!(out.decision, KeyDecision::Forward), "vk {} should forward", vk);
    }
}

#[test]
fn test_unrecognized_keys_consumed_while_intercepting() {
    let mut d = Dispatcher::new();
    let mut p = test_processor();

    for vk in [41u32, 186, 219, 222] {
        let out = d.process_key_event(&mut p, vk, true, false, false);
        assert!(matches!(out.decision, KeyDecision::Consume), "vk {} should be consumed", vk);
    }
}
