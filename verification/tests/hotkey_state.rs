use transcribe_rs::bindings::BindingMap;
use transcribe_rs::config::HotkeyBinding;
use transcribe_rs::hotkey_state::{Action, HotkeyEvent, RecordingState, StateMachine, TransitionContext};

/// A fixed "current time" in milliseconds.
const NOW: u64 = 1_000_000;

fn make_binding_map() -> BindingMap {
    let mut map = BindingMap::new();
    map.insert(
        "transcribe-e".to_string(),
        HotkeyBinding {
            key: "e".to_string(),
            prompt: None,
            ocr: false,
            gui: false,
        },
    );
    map.insert(
        "transcribe-q".to_string(),
        HotkeyBinding {
            key: "q".to_string(),
            prompt: Some("grammar".to_string()),
            ocr: false,
            gui: false,
        },
    );
    map
}

fn make_ctx(binding_map: &BindingMap) -> TransitionContext<'_> {
    TransitionContext {
        tap_threshold: 200,
        double_tap_window: 1500,
        binding_map,
        last_transcription: None,
        last_repaste_time: None,
        repaste_debounce: 1000,
    }
}

#[test]
fn test_idle_activation_starts_recording() {
    let bindings = make_binding_map();
    let ctx = make_ctx(&bindings);

    let state = RecordingState::Idle;
    let event = HotkeyEvent::Activated {
        shortcut_id: "transcribe-e".to_string(),
    };

    let result = state.transition(event, &ctx, NOW);

    assert!(matches!(
        result.new_state,
        RecordingState::Recording { shortcut_id, prompt: None, .. } if shortcut_id == "transcribe-e"
    ));
    assert_eq!(result.actions, vec![Action::StartRecording]);
}

#[test]
fn test_idle_activation_with_prompt() {
    let bindings = make_binding_map();
    let ctx = make_ctx(&bindings);

    let state = RecordingState::Idle;
    let event = HotkeyEvent::Activated {
        shortcut_id: "transcribe-q".to_string(),
    };

    let result = state.transition(event, &ctx, NOW);

    assert!(matches!(
        result.new_state,
        RecordingState::Recording { shortcut_id, prompt: Some(p), .. }
            if shortcut_id == "transcribe-q" && p == "grammar"
    ));
}

#[test]
fn test_unknown_shortcut_ignored() {
    let bindings = make_binding_map();
    let ctx = make_ctx(&bindings);

    let state = RecordingState::Idle;
    let event = HotkeyEvent::Activated {
        shortcut_id: "transcribe-unknown".to_string(),
    };

    let result = state.transition(event, &ctx, NOW);

    assert_eq!(result.new_state, RecordingState::Idle);
    assert!(result.actions.is_empty());
}

#[test]
fn test_hold_release_transcribes() {
    let bindings = make_binding_map();
    let ctx = make_ctx(&bindings);

    // Simulate a hold: press_time was 500ms ago
    let press_time = NOW - 500;
    let state = RecordingState::Recording {
        press_time,
        shortcut_id: "transcribe-e".to_string(),
        prompt: None,
    };

    let event = HotkeyEvent::Deactivated {
        shortcut_id: "transcribe-e".to_string(),
    };

    let result = state.transition(event, &ctx, NOW);

    assert_eq!(result.new_state, RecordingState::Idle);
    assert_eq!(result.actions, vec![Action::StopAndTranscribe { prompt: None }]);
}

#[test]
fn test_tap_enters_long_recording() {
    let bindings = make_binding_map();
    let ctx = make_ctx(&bindings);

    // Simulate a tap: press_time was just now (< tap_threshold)
    let press_time = NOW;
    let state = RecordingState::Recording {
        press_time,
        shortcut_id: "transcribe-e".to_string(),
        prompt: Some("grammar".to_string()),
    };

    let event = HotkeyEvent::Deactivated {
        shortcut_id: "transcribe-e".to_string(),
    };

    let result = state.transition(event, &ctx, NOW);

    assert!(matches!(
        result.new_state,
        RecordingState::LongRecording { shortcut_id, prompt: Some(p), .. }
            if shortcut_id == "transcribe-e" && p == "grammar"
    ));
    assert_eq!(result.actions, vec![Action::BindLongRecordingKeys]);
}

#[test]
fn test_long_recording_finish() {
    let bindings = make_binding_map();
    let ctx = make_ctx(&bindings);

    // Entered long recording > 1.5s ago
    let entered_at = NOW - 2000;
    let state = RecordingState::LongRecording {
        shortcut_id: "transcribe-e".to_string(),
        prompt: None,
        entered_at,
    };

    let event = HotkeyEvent::Activated {
        shortcut_id: "transcribe-e".to_string(),
    };

    let result = state.transition(event, &ctx, NOW);

    assert!(matches!(
        result.new_state,
        RecordingState::PendingTranscription { shortcut_id, prompt: None }
            if shortcut_id == "transcribe-e"
    ));
    assert_eq!(result.actions, vec![Action::UnbindLongRecordingKeys]);
}

#[test]
fn test_double_tap_repastes() {
    let bindings = make_binding_map();
    let mut ctx = make_ctx(&bindings);
    ctx.last_transcription = Some("Hello world");

    // Entered long recording < 1.5s ago (quick double-tap)
    let entered_at = NOW - 500;
    let state = RecordingState::LongRecording {
        shortcut_id: "transcribe-e".to_string(),
        prompt: None,
        entered_at,
    };

    let event = HotkeyEvent::Activated {
        shortcut_id: "transcribe-e".to_string(),
    };

    let result = state.transition(event, &ctx, NOW);

    assert!(matches!(
        result.new_state,
        RecordingState::PendingRepaste { shortcut_id, text }
            if shortcut_id == "transcribe-e" && text == "Hello world"
    ));
    assert_eq!(
        result.actions,
        vec![Action::UnbindLongRecordingKeys, Action::CancelRecording]
    );
}

#[test]
fn test_double_tap_no_previous_transcription() {
    let bindings = make_binding_map();
    let ctx = make_ctx(&bindings); // no last_transcription

    let entered_at = NOW - 500;
    let state = RecordingState::LongRecording {
        shortcut_id: "transcribe-e".to_string(),
        prompt: None,
        entered_at,
    };

    let event = HotkeyEvent::Activated {
        shortcut_id: "transcribe-e".to_string(),
    };

    let result = state.transition(event, &ctx, NOW);

    assert_eq!(result.new_state, RecordingState::Idle);
    assert_eq!(
        result.actions,
        vec![
            Action::UnbindLongRecordingKeys,
            Action::CancelRecording,
            Action::Notify {
                title: "No previous transcription".to_string(),
                body: "Record something first".to_string(),
            }
        ]
    );
}

#[test]
fn test_enter_submits_and_continues() {
    let bindings = make_binding_map();
    let ctx = make_ctx(&bindings);

    let state = RecordingState::LongRecording {
        shortcut_id: "transcribe-e".to_string(),
        prompt: Some("grammar".to_string()),
        entered_at: NOW - 5000,
    };

    let event = HotkeyEvent::Activated {
        shortcut_id: "transcribe-enter".to_string(),
    };

    let result = state.transition(event, &ctx, NOW);

    // Should stay in LongRecording (with new entered_at)
    assert!(matches!(
        result.new_state,
        RecordingState::LongRecording { prompt: Some(p), .. } if p == "grammar"
    ));
    assert_eq!(
        result.actions,
        vec![
            Action::UnbindLongRecordingKeys,
            Action::SubmitAndContinue {
                prompt: Some("grammar".to_string())
            },
            Action::BindLongRecordingKeys,
        ]
    );
}

#[test]
fn test_escape_cancels() {
    let bindings = make_binding_map();
    let ctx = make_ctx(&bindings);

    let state = RecordingState::LongRecording {
        shortcut_id: "transcribe-e".to_string(),
        prompt: None,
        entered_at: NOW,
    };

    let event = HotkeyEvent::Activated {
        shortcut_id: "transcribe-escape".to_string(),
    };

    let result = state.transition(event, &ctx, NOW);

    assert_eq!(result.new_state, RecordingState::Idle);
    assert_eq!(
        result.actions,
        vec![
            Action::UnbindLongRecordingKeys,
            Action::CancelRecording,
            Action::Notify {
                title: "Recording cancelled".to_string(),
                body: "Press hotkey to start again".to_string(),
            },
        ]
    );
}

#[test]
fn test_super_submits_and_ends() {
    let bindings = make_binding_map();
    let ctx = make_ctx(&bindings);

    let state = RecordingState::LongRecording {
        shortcut_id: "transcribe-e".to_string(),
        prompt: Some("grammar".to_string()),
        entered_at: NOW - 5000,
    };

    let event = HotkeyEvent::Activated {
        shortcut_id: "transcribe-super".to_string(),
    };

    let result = state.transition(event, &ctx, NOW);

    // Should return to Idle (not stay in LongRecording like Enter does)
    assert_eq!(result.new_state, RecordingState::Idle);
    assert_eq!(
        result.actions,
        vec![
            Action::UnbindLongRecordingKeys,
            Action::SubmitAndEnd {
                prompt: Some("grammar".to_string())
            },
        ]
    );
}

#[test]
fn test_switch_prompt_during_long_recording() {
    let bindings = make_binding_map();
    let ctx = make_ctx(&bindings);

    let state = RecordingState::LongRecording {
        shortcut_id: "transcribe-e".to_string(),
        prompt: None,
        entered_at: NOW - 5000,
    };

    // Press a different key (q with grammar prompt)
    let event = HotkeyEvent::Activated {
        shortcut_id: "transcribe-q".to_string(),
    };

    let result = state.transition(event, &ctx, NOW);

    assert!(matches!(
        result.new_state,
        RecordingState::Recording { shortcut_id, prompt: Some(p), .. }
            if shortcut_id == "transcribe-q" && p == "grammar"
    ));
    assert_eq!(
        result.actions,
        vec![
            Action::UnbindLongRecordingKeys,
            Action::CancelRecording,
            Action::StartRecording,
        ]
    );
}

#[test]
fn test_pending_repaste_on_release() {
    let bindings = make_binding_map();
    let ctx = make_ctx(&bindings);

    let state = RecordingState::PendingRepaste {
        shortcut_id: "transcribe-e".to_string(),
        text: "Hello world".to_string(),
    };

    let event = HotkeyEvent::Deactivated {
        shortcut_id: "transcribe-e".to_string(),
    };

    let result = state.transition(event, &ctx, NOW);

    assert_eq!(result.new_state, RecordingState::Idle);
    assert_eq!(
        result.actions,
        vec![Action::Repaste {
            text: "Hello world".to_string()
        }]
    );
}

#[test]
fn test_pending_transcription_on_release() {
    let bindings = make_binding_map();
    let ctx = make_ctx(&bindings);

    let state = RecordingState::PendingTranscription {
        shortcut_id: "transcribe-e".to_string(),
        prompt: Some("grammar".to_string()),
    };

    let event = HotkeyEvent::Deactivated {
        shortcut_id: "transcribe-e".to_string(),
    };

    let result = state.transition(event, &ctx, NOW);

    assert_eq!(result.new_state, RecordingState::Idle);
    assert_eq!(
        result.actions,
        vec![Action::StopAndTranscribe {
            prompt: Some("grammar".to_string())
        }]
    );
}

#[test]
fn test_debounce_after_repaste() {
    let bindings = make_binding_map();
    let mut ctx = make_ctx(&bindings);
    // Repaste happened 500ms ago (within 1000ms debounce)
    ctx.last_repaste_time = Some(NOW - 500);

    let state = RecordingState::Idle;
    let event = HotkeyEvent::Activated {
        shortcut_id: "transcribe-e".to_string(),
    };

    let result = state.transition(event, &ctx, NOW);

    // Should be ignored
    assert_eq!(result.new_state, RecordingState::Idle);
    assert!(result.actions.is_empty());
}

#[test]
fn test_no_debounce_after_debounce_period() {
    let bindings = make_binding_map();
    let mut ctx = make_ctx(&bindings);
    // Repaste happened 1500ms ago (outside 1000ms debounce)
    ctx.last_repaste_time = Some(NOW - 1500);

    let state = RecordingState::Idle;
    let event = HotkeyEvent::Activated {
        shortcut_id: "transcribe-e".to_string(),
    };

    let result = state.transition(event, &ctx, NOW);

    // Should not be debounced
    assert!(matches!(result.new_state, RecordingState::Recording { .. }));
    assert_eq!(result.actions, vec![Action::StartRecording]);
}

#[test]
fn test_state_machine_handle_event() {
    let bindings = make_binding_map();
    let mut sm = StateMachine::new();

    // Activate
    let actions = sm.handle_event(
        HotkeyEvent::Activated {
            shortcut_id: "transcribe-e".to_string(),
        },
        &bindings,
        200,
        1500,
        1000,
        NOW,
    );

    assert_eq!(actions, vec![Action::StartRecording]);
    assert!(matches!(sm.state(), RecordingState::Recording { .. }));
}

#[test]
fn test_state_machine_caching() {
    let mut sm = StateMachine::new();

    assert!(sm.last_transcription().is_none());

    sm.cache_transcription("Test text".to_string());

    assert_eq!(sm.last_transcription(), Some("Test text"));
}

/// Control keys that should never appear as the shortcut_id in recording states.
const CONTROL_KEYS: &[&str] = &["transcribe-enter", "transcribe-escape", "transcribe-super"];

fn is_control_key(id: &str) -> bool {
    CONTROL_KEYS.contains(&id)
}

/// Recording states should never have a control key as their shortcut_id.
fn assert_no_control_key_pollution(state: &RecordingState) {
    match state {
        RecordingState::Recording { shortcut_id, .. } => {
            assert!(
                !is_control_key(shortcut_id),
                "INVARIANT VIOLATION: Recording state has control key '{}' as shortcut_id",
                shortcut_id
            );
        }
        RecordingState::LongRecording { shortcut_id, .. } => {
            assert!(
                !is_control_key(shortcut_id),
                "INVARIANT VIOLATION: LongRecording state has control key '{}' as shortcut_id",
                shortcut_id
            );
        }
        RecordingState::PendingTranscription { shortcut_id, .. } => {
            assert!(
                !is_control_key(shortcut_id),
                "INVARIANT VIOLATION: PendingTranscription state has control key '{}' as shortcut_id",
                shortcut_id
            );
        }
        _ => {}
    }
}

#[test]
fn test_invariant_enter_does_not_pollute_state() {
    let bindings = make_binding_map();
    let ctx = make_ctx(&bindings);

    for original_key in ["transcribe-e", "transcribe-q"] {
        let state = RecordingState::LongRecording {
            shortcut_id: original_key.to_string(),
            prompt: None,
            entered_at: NOW - 5000,
        };

        let result = state.transition(
            HotkeyEvent::Activated {
                shortcut_id: "transcribe-enter".to_string(),
            },
            &ctx,
            NOW,
        );

        assert_no_control_key_pollution(&result.new_state);
    }
}

#[test]
fn test_invariant_escape_does_not_pollute_state() {
    let bindings = make_binding_map();
    let ctx = make_ctx(&bindings);

    let state = RecordingState::LongRecording {
        shortcut_id: "transcribe-e".to_string(),
        prompt: None,
        entered_at: NOW,
    };

    let result = state.transition(
        HotkeyEvent::Activated {
            shortcut_id: "transcribe-escape".to_string(),
        },
        &ctx,
        NOW,
    );

    assert_no_control_key_pollution(&result.new_state);
}

#[test]
fn test_invariant_super_does_not_pollute_state() {
    let bindings = make_binding_map();
    let ctx = make_ctx(&bindings);

    let state = RecordingState::LongRecording {
        shortcut_id: "transcribe-e".to_string(),
        prompt: None,
        entered_at: NOW,
    };

    let result = state.transition(
        HotkeyEvent::Activated {
            shortcut_id: "transcribe-super".to_string(),
        },
        &ctx,
        NOW,
    );

    assert_no_control_key_pollution(&result.new_state);
}

#[test]
fn test_invariant_no_control_key_in_any_transition_from_long_recording() {
    let bindings = make_binding_map();
    let ctx = make_ctx(&bindings);

    let all_events = [
        HotkeyEvent::Activated { shortcut_id: "transcribe-e".to_string() },
        HotkeyEvent::Activated { shortcut_id: "transcribe-q".to_string() },
        HotkeyEvent::Activated { shortcut_id: "transcribe-enter".to_string() },
        HotkeyEvent::Activated { shortcut_id: "transcribe-escape".to_string() },
        HotkeyEvent::Activated { shortcut_id: "transcribe-super".to_string() },
        HotkeyEvent::Activated { shortcut_id: "transcribe-unknown".to_string() },
        HotkeyEvent::Deactivated { shortcut_id: "transcribe-e".to_string() },
        HotkeyEvent::Deactivated { shortcut_id: "transcribe-enter".to_string() },
    ];

    for original_key in ["transcribe-e", "transcribe-q"] {
        for event in &all_events {
            let state = RecordingState::LongRecording {
                shortcut_id: original_key.to_string(),
                prompt: Some("test".to_string()),
                entered_at: NOW - 5000,
            };

            let result = state.transition(event.clone(), &ctx, NOW);
            assert_no_control_key_pollution(&result.new_state);
        }
    }
}

#[test]
fn test_enter_twice_in_long_recording() {
    let bindings = make_binding_map();
    let ctx = make_ctx(&bindings);

    let state = RecordingState::LongRecording {
        shortcut_id: "transcribe-e".to_string(),
        prompt: Some("grammar".to_string()),
        entered_at: NOW - 5000,
    };

    // First Enter
    let event = HotkeyEvent::Activated {
        shortcut_id: "transcribe-enter".to_string(),
    };
    let result = state.transition(event, &ctx, NOW);

    assert!(
        matches!(
            &result.new_state,
            RecordingState::LongRecording { shortcut_id, prompt: Some(p), .. }
                if shortcut_id == "transcribe-e" && p == "grammar"
        ),
        "After first Enter, shortcut_id should still be 'transcribe-e', got: {:?}",
        result.new_state
    );

    assert_eq!(
        result.actions,
        vec![
            Action::UnbindLongRecordingKeys,
            Action::SubmitAndContinue {
                prompt: Some("grammar".to_string())
            },
            Action::BindLongRecordingKeys,
        ]
    );

    let state_after_first_enter = RecordingState::LongRecording {
        shortcut_id: "transcribe-e".to_string(),
        prompt: Some("grammar".to_string()),
        entered_at: NOW - 5000,
    };

    // Second Enter - should also trigger SubmitAndContinue, not double-tap/finish
    let event2 = HotkeyEvent::Activated {
        shortcut_id: "transcribe-enter".to_string(),
    };
    let result2 = state_after_first_enter.transition(event2, &ctx, NOW);

    assert!(
        matches!(
            &result2.new_state,
            RecordingState::LongRecording { shortcut_id, .. }
                if shortcut_id == "transcribe-e"
        ),
        "After second Enter, should still be in LongRecording with 'transcribe-e', got: {:?}",
        result2.new_state
    );

    assert!(
        result2.actions.contains(&Action::SubmitAndContinue {
            prompt: Some("grammar".to_string())
        }),
        "Second Enter should trigger SubmitAndContinue, but got: {:?}",
        result2.actions
    );
}

// Scenarios for the laws of the machine.

#[test]
fn push_to_talk_round_trip_transcribes_with_prompt() {
    let bindings = make_binding_map();
    let mut sm = StateMachine::new();
    let a1 = sm.handle_event(HotkeyEvent::Activated { shortcut_id: "transcribe-q".to_string() }, &bindings, 200, 1500, 1000, NOW);
    assert_eq!(a1, vec![Action::StartRecording]);
    let a2 = sm.handle_event(HotkeyEvent::Deactivated { shortcut_id: "transcribe-q".to_string() }, &bindings, 200, 1500, 1000, NOW + 800);
    assert_eq!(a2, vec![Action::StopAndTranscribe { prompt: Some("grammar".to_string()) }]);
    assert_eq!(*sm.state(), RecordingState::Idle);
}

#[test]
fn tap_then_tap_again_transcribes_after_release() {
    let bindings = make_binding_map();
    let mut sm = StateMachine::new();
    let id = || "transcribe-e".to_string();
    assert_eq!(sm.handle_event(HotkeyEvent::Activated { shortcut_id: id() }, &bindings, 200, 1500, 1000, NOW), vec![Action::StartRecording]);
    assert_eq!(sm.handle_event(HotkeyEvent::Deactivated { shortcut_id: id() }, &bindings, 200, 1500, 1000, NOW + 50), vec![Action::BindLongRecordingKeys]);
    assert_eq!(sm.handle_event(HotkeyEvent::Activated { shortcut_id: id() }, &bindings, 200, 1500, 1000, NOW + 5000), vec![Action::UnbindLongRecordingKeys]);
    assert_eq!(sm.handle_event(HotkeyEvent::Deactivated { shortcut_id: id() }, &bindings, 200, 1500, 1000, NOW + 5100), vec![Action::StopAndTranscribe { prompt: None }]);
    assert_eq!(*sm.state(), RecordingState::Idle);
}

#[test]
fn double_tap_repastes_cached_transcription_and_debounces() {
    let bindings = make_binding_map();
    let mut sm = StateMachine::new();
    sm.cache_transcription("cached text".to_string());
    let id = || "transcribe-e".to_string();
    sm.handle_event(HotkeyEvent::Activated { shortcut_id: id() }, &bindings, 200, 1500, 1000, NOW);
    sm.handle_event(HotkeyEvent::Deactivated { shortcut_id: id() }, &bindings, 200, 1500, 1000, NOW + 50);
    let a = sm.handle_event(HotkeyEvent::Activated { shortcut_id: id() }, &bindings, 200, 1500, 1000, NOW + 300);
    assert_eq!(a, vec![Action::UnbindLongRecordingKeys, Action::CancelRecording]);
    let a = sm.handle_event(HotkeyEvent::Deactivated { shortcut_id: id() }, &bindings, 200, 1500, 1000, NOW + 350);
    assert_eq!(a, vec![Action::Repaste { text: "cached text".to_string() }]);
    sm.record_repaste(NOW + 360);
    assert_eq!(sm.last_repaste_time(), Some(NOW + 360));
    let a = sm.handle_event(HotkeyEvent::Activated { shortcut_id: id() }, &bindings, 200, 1500, 1000, NOW + 900);
    assert!(a.is_empty());
    assert_eq!(*sm.state(), RecordingState::Idle);
}

#[test]
fn release_of_other_key_is_ignored_while_recording() {
    let bindings = make_binding_map();
    let ctx = make_ctx(&bindings);
    let state = RecordingState::Recording { press_time: NOW, shortcut_id: "transcribe-e".to_string(), prompt: None };
    let result = state.transition(HotkeyEvent::Deactivated { shortcut_id: "transcribe-q".to_string() }, &ctx, NOW + 10);
    assert!(matches!(result.new_state, RecordingState::Recording { press_time, .. } if press_time == NOW));
    assert!(result.actions.is_empty());
}

#[test]
fn idle_ignores_releases() {
    let bindings = make_binding_map();
    let ctx = make_ctx(&bindings);
    let result = RecordingState::Idle.transition(HotkeyEvent::Deactivated { shortcut_id: "transcribe-e".to_string() }, &ctx, NOW);
    assert_eq!(result.new_state, RecordingState::Idle);
    assert!(result.actions.is_empty());
}

#[test]
fn state_equality_ignores_time_stamps() {
    let a = RecordingState::LongRecording { shortcut_id: "transcribe-e".to_string(), prompt: None, entered_at: 1 };
    let b = RecordingState::LongRecording { shortcut_id: "transcribe-e".to_string(), prompt: None, entered_at: 2 };
    assert_eq!(a, b);
    let c = RecordingState::LongRecording { shortcut_id: "transcribe-q".to_string(), prompt: None, entered_at: 1 };
    assert_ne!(a, c);
    assert_eq!(StateMachine::default().state(), &RecordingState::Idle);
}
