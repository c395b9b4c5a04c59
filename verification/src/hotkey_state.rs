//! Pure state machine for hotkey-driven recording.
//!
//! The machine handles push-to-talk (hold to record, release to transcribe),
//! long recording mode (tap to start, tap again to finish), double-tap repaste,
//! Enter to submit and continue, Escape to cancel, the Super key to submit and
//! stop, and switching prompts during long recording.
//!
//! Given a state and an event it returns a new state and a list of actions;
//! the caller performs the actions. Times are milliseconds on a monotonic clock.
use vstd::prelude::*;
use crate::bindings::BindingMap;
use crate::config::{opt_view, clone_opt_string, opt_string_eq};

verus! {

broadcast use vstd::string::group_string_axioms;

/// Shortcut identifier of the Enter key while long recording is active.
pub open spec fn enter_id() -> Seq<char> {
    "transcribe-enter"@
}

/// Shortcut identifier of the Escape key while long recording is active.
pub open spec fn escape_id() -> Seq<char> {
    "transcribe-escape"@
}

/// Shortcut identifier of the Super key while long recording is active.
pub open spec fn super_id() -> Seq<char> {
    "transcribe-super"@
}

/// Whether an identifier names one of the keys bound only during long recording.
pub open spec fn is_control_key(id: Seq<char>) -> bool {
    id == enter_id() || id == escape_id() || id == super_id()
}

/// Milliseconds from `since` to `now`, or zero when `since` is later.
pub open spec fn elapsed(now: int, since: int) -> int {
    if now >= since { now - since } else { 0 }
}

/// Events that can trigger state transitions.
#[derive(Debug, Clone)]
pub enum HotkeyEvent {
    /// A hotkey was pressed
    Activated { shortcut_id: String },
    /// A hotkey was released
    Deactivated { shortcut_id: String },
}

/// The content of a [`HotkeyEvent`].
pub enum EventView {
    Activated(Seq<char>),
    Deactivated(Seq<char>),
}

impl View for HotkeyEvent {
    type V = EventView;

    open spec fn view(&self) -> EventView {
        match self {
            HotkeyEvent::Activated { shortcut_id } => EventView::Activated(shortcut_id@),
            HotkeyEvent::Deactivated { shortcut_id } => EventView::Deactivated(shortcut_id@),
        }
    }
}

impl PartialEq for HotkeyEvent {
    fn eq(&self, other: &Self) -> (r: bool) {
        match (self, other) {
            (HotkeyEvent::Activated { shortcut_id: a }, HotkeyEvent::Activated { shortcut_id: b }) => *a == *b,
            (HotkeyEvent::Deactivated { shortcut_id: a }, HotkeyEvent::Deactivated { shortcut_id: b }) => *a == *b,
            _ => false,
        }
    }
}

impl vstd::std_specs::cmp::PartialEqSpecImpl for HotkeyEvent {
    open spec fn obeys_eq_spec() -> bool {
        true
    }

    open spec fn eq_spec(&self, other: &HotkeyEvent) -> bool {
        self@ == other@
    }
}

impl Eq for HotkeyEvent {}

/// States of the recording state machine.
#[derive(Debug, Clone)]
pub enum RecordingState {
    /// Not recording, waiting for hotkey press
    Idle,
    /// Recording in push-to-talk mode (hotkey held down)
    Recording {
        /// When the key was pressed
        press_time: u64,
        /// The shortcut that started recording
        shortcut_id: String,
        /// Prompt to use for LLM processing
        prompt: Option<String>,
    },
    /// Long recording mode (key tapped, recording continues)
    LongRecording {
        /// The shortcut that started recording
        shortcut_id: String,
        /// Prompt to use for LLM processing
        prompt: Option<String>,
        /// When we entered long recording mode
        entered_at: u64,
    },
    /// Waiting for key release before repasting (double-tap detected)
    PendingRepaste {
        /// The key we're waiting to be released
        shortcut_id: String,
        /// The text to repaste
        text: String,
    },
    /// Waiting for key release before transcribing (long recording finish)
    PendingTranscription {
        /// The key we're waiting to be released
        shortcut_id: String,
        /// Prompt to use for LLM processing
        prompt: Option<String>,
    },
}

/// The content of a [`RecordingState`].
pub enum StateView {
    Idle,
    Recording { press_time: int, shortcut_id: Seq<char>, prompt: Option<Seq<char>> },
    LongRecording { shortcut_id: Seq<char>, prompt: Option<Seq<char>>, entered_at: int },
    PendingRepaste { shortcut_id: Seq<char>, text: Seq<char> },
    PendingTranscription { shortcut_id: Seq<char>, prompt: Option<Seq<char>> },
}

impl View for RecordingState {
    type V = StateView;

    open spec fn view(&self) -> StateView {
        match self {
            RecordingState::Idle => StateView::Idle,
            RecordingState::Recording { press_time, shortcut_id, prompt } => StateView::Recording {
                press_time: *press_time as int,
                shortcut_id: shortcut_id@,
                prompt: opt_view(*prompt),
            },
            RecordingState::LongRecording { shortcut_id, prompt, entered_at } =>
                StateView::LongRecording {
                shortcut_id: shortcut_id@,
                prompt: opt_view(*prompt),
                entered_at: *entered_at as int,
            },
            RecordingState::PendingRepaste { shortcut_id, text } => StateView::PendingRepaste {
                shortcut_id: shortcut_id@,
                text: text@,
            },
            RecordingState::PendingTranscription { shortcut_id, prompt } =>
                StateView::PendingTranscription { shortcut_id: shortcut_id@, prompt: opt_view(*prompt) },
        }
    }
}

/// Equality of states that ignores the time stamps they carry.
pub open spec fn same_state(a: StateView, b: StateView) -> bool {
    match (a, b) {
        (StateView::Idle, StateView::Idle) => true,
        (
            StateView::Recording { shortcut_id: x, prompt: px, .. },
            StateView::Recording { shortcut_id: y, prompt: py, .. },
        ) => x == y && px == py,
        (
            StateView::LongRecording { shortcut_id: x, prompt: px, .. },
            StateView::LongRecording { shortcut_id: y, prompt: py, .. },
        ) => x == y && px == py,
        (
            StateView::PendingRepaste { shortcut_id: x, text: tx },
            StateView::PendingRepaste { shortcut_id: y, text: ty },
        ) => x == y && tx == ty,
        (
            StateView::PendingTranscription { shortcut_id: x, prompt: px },
            StateView::PendingTranscription { shortcut_id: y, prompt: py },
        ) => x == y && px == py,
        _ => false,
    }
}

impl PartialEq for RecordingState {
    fn eq(&self, other: &Self) -> (r: bool) {
        match (self, other) {
            (RecordingState::Idle, RecordingState::Idle) => true,
            (
                RecordingState::Recording { shortcut_id: a, prompt: pa, .. },
                RecordingState::Recording { shortcut_id: b, prompt: pb, .. },
            ) => *a == *b && opt_string_eq(pa, pb),
            (
                RecordingState::LongRecording { shortcut_id: a, prompt: pa, .. },
                RecordingState::LongRecording { shortcut_id: b, prompt: pb, .. },
            ) => *a == *b && opt_string_eq(pa, pb),
            (
                RecordingState::PendingRepaste { shortcut_id: a, text: ta },
                RecordingState::PendingRepaste { shortcut_id: b, text: tb },
            ) => *a == *b && *ta == *tb,
            (
                RecordingState::PendingTranscription { shortcut_id: a, prompt: pa },
                RecordingState::PendingTranscription { shortcut_id: b, prompt: pb },
            ) => *a == *b && opt_string_eq(pa, pb),
            _ => false,
        }
    }
}

impl vstd::std_specs::cmp::PartialEqSpecImpl for RecordingState {
    open spec fn obeys_eq_spec() -> bool {
        true
    }

    open spec fn eq_spec(&self, other: &RecordingState) -> bool {
        same_state(self@, other@)
    }
}

impl Eq for RecordingState {}

/// Actions to execute as side effects of state transitions.
#[derive(Debug, Clone)]
pub enum Action {
    /// Start recording audio
    StartRecording,
    /// Stop recording and transcribe with optional LLM prompt
    StopAndTranscribe { prompt: Option<String> },
    /// Cancel recording without transcribing
    CancelRecording,
    /// Bind Enter and Escape keys as global shortcuts (for long recording mode)
    BindLongRecordingKeys,
    /// Unbind Enter and Escape keys
    UnbindLongRecordingKeys,
    /// Repaste the given text to clipboard and paste
    Repaste { text: String },
    /// Submit current recording (transcribe + paste + send Enter) and restart recording
    SubmitAndContinue { prompt: Option<String> },
    /// Submit current recording (transcribe + paste + send Enter) and end dictation (return to Idle)
    SubmitAndEnd { prompt: Option<String> },
    /// Show a notification
    Notify { title: String, body: String },
}

/// The content of an [`Action`].
pub enum ActionView {
    StartRecording,
    StopAndTranscribe(Option<Seq<char>>),
    CancelRecording,
    BindLongRecordingKeys,
    UnbindLongRecordingKeys,
    Repaste(Seq<char>),
    SubmitAndContinue(Option<Seq<char>>),
    SubmitAndEnd(Option<Seq<char>>),
    Notify(Seq<char>, Seq<char>),
}

impl View for Action {
    type V = ActionView;

    open spec fn view(&self) -> ActionView {
        match self {
            Action::StartRecording => ActionView::StartRecording,
            Action::StopAndTranscribe { prompt } => ActionView::StopAndTranscribe(opt_view(*prompt)),
            Action::CancelRecording => ActionView::CancelRecording,
            Action::BindLongRecordingKeys => ActionView::BindLongRecordingKeys,
            Action::UnbindLongRecordingKeys => ActionView::UnbindLongRecordingKeys,
            Action::Repaste { text } => ActionView::Repaste(text@),
            Action::SubmitAndContinue { prompt } => ActionView::SubmitAndContinue(opt_view(*prompt)),
            Action::SubmitAndEnd { prompt } => ActionView::SubmitAndEnd(opt_view(*prompt)),
            Action::Notify { title, body } => ActionView::Notify(title@, body@),
        }
    }
}

impl PartialEq for Action {
    fn eq(&self, other: &Self) -> (r: bool) {
        match (self, other) {
            (Action::StartRecording, Action::StartRecording) => true,
            (Action::StopAndTranscribe { prompt: a }, Action::StopAndTranscribe { prompt: b }) =>
                opt_string_eq(a, b),
            (Action::CancelRecording, Action::CancelRecording) => true,
            (Action::BindLongRecordingKeys, Action::BindLongRecordingKeys) => true,
            (Action::UnbindLongRecordingKeys, Action::UnbindLongRecordingKeys) => true,
            (Action::Repaste { text: a }, Action::Repaste { text: b }) => *a == *b,
            (Action::SubmitAndContinue { prompt: a }, Action::SubmitAndContinue { prompt: b }) =>
                opt_string_eq(a, b),
            (Action::SubmitAndEnd { prompt: a }, Action::SubmitAndEnd { prompt: b }) =>
                opt_string_eq(a, b),
            (Action::Notify { title: ta, body: ba }, Action::Notify { title: tb, body: bb }) =>
                *ta == *tb && *ba == *bb,
            _ => false,
        }
    }
}

impl vstd::std_specs::cmp::PartialEqSpecImpl for Action {
    open spec fn obeys_eq_spec() -> bool {
        true
    }

    open spec fn eq_spec(&self, other: &Action) -> bool {
        self@ == other@
    }
}

impl Eq for Action {}

/// The contents of a list of actions.
pub open spec fn actions_view(a: Seq<Action>) -> Seq<ActionView> {
    a.map_values(|x: Action| x@)
}

/// Context needed for transition decisions.
///
/// This contains configuration and cached state that affects transitions
/// but is managed externally to the state machine. Durations are milliseconds.
pub struct TransitionContext<'a> {
    /// How long a key must be held to be considered a "hold" vs "tap"
    pub tap_threshold: u64,
    /// Window for double-tap repaste detection
    pub double_tap_window: u64,
    /// Map of shortcut IDs to their bindings
    pub binding_map: &'a BindingMap,
    /// Last successful transcription (for repaste)
    pub last_transcription: Option<&'a str>,
    /// When the last repaste occurred (for debounce)
    pub last_repaste_time: Option<u64>,
    /// Ignore activations within this duration after a repaste
    pub repaste_debounce: u64,
}

/// The content of a [`TransitionContext`] that transitions depend on.
pub struct ContextView {
    pub tap_threshold: int,
    pub double_tap_window: int,
    /// The prompt of each bound shortcut identifier
    pub prompts: Map<Seq<char>, Option<Seq<char>>>,
    pub last_transcription: Option<Seq<char>>,
    pub last_repaste_time: Option<int>,
    pub repaste_debounce: int,
}

impl<'a> TransitionContext<'a> {
    /// The content of the context.
    pub open spec fn model(&self) -> ContextView {
        ContextView {
            tap_threshold: self.tap_threshold as int,
            double_tap_window: self.double_tap_window as int,
            prompts: self.binding_map@.map_values(|b: crate::config::HotkeyBindingView| b.prompt),
            last_transcription: match self.last_transcription {
                Some(t) => Some(t@),
                None => None,
            },
            last_repaste_time: match self.last_repaste_time {
                Some(t) => Some(t as int),
                None => None,
            },
            repaste_debounce: self.repaste_debounce as int,
        }
    }
}

/// Result of a state transition.
pub struct TransitionResult {
    /// The new state after the transition
    pub new_state: RecordingState,
    /// Actions to execute
    pub actions: Vec<Action>,
}

/// The state and actions that an event leads to.
pub open spec fn step(s: StateView, e: EventView, c: ContextView, now: int) -> (StateView, Seq<ActionView>) {
    match s {
        StateView::Idle => match e {
            EventView::Activated(id) => {
                if c.last_repaste_time is Some && elapsed(now, c.last_repaste_time->0) < c.repaste_debounce {
                    (StateView::Idle, seq![])
                } else if c.prompts.contains_key(id) {
                    (
                        StateView::Recording { press_time: now, shortcut_id: id, prompt: c.prompts[id] },
                        seq![ActionView::StartRecording],
                    )
                } else {
                    (StateView::Idle, seq![])
                }
            },
            EventView::Deactivated(_) => (StateView::Idle, seq![]),
        },
        StateView::Recording { press_time, shortcut_id, prompt } => match e {
            EventView::Deactivated(id) => {
                if id == shortcut_id {
                    if elapsed(now, press_time) < c.tap_threshold {
                        (
                            StateView::LongRecording { shortcut_id: id, prompt, entered_at: now },
                            seq![ActionView::BindLongRecordingKeys],
                        )
                    } else {
                        (StateView::Idle, seq![ActionView::StopAndTranscribe(prompt)])
                    }
                } else {
                    (s, seq![])
                }
            },
            EventView::Activated(_) => (s, seq![]),
        },
        StateView::LongRecording { shortcut_id, prompt, entered_at } => match e {
            EventView::Activated(id) => {
                if id == shortcut_id {
                    if elapsed(now, entered_at) < c.double_tap_window {
                        match c.last_transcription {
                            Some(text) => (
                                StateView::PendingRepaste { shortcut_id: id, text },
                                seq![ActionView::UnbindLongRecordingKeys, ActionView::CancelRecording],
                            ),
                            None => (
                                StateView::Idle,
                                seq![
                                    ActionView::UnbindLongRecordingKeys,
                                    ActionView::CancelRecording,
                                    ActionView::Notify(
                                        "No previous transcription"@,
                                        "Record something first"@,
                                    ),
                                ],
                            ),
                        }
                    } else {
                        (
                            StateView::PendingTranscription { shortcut_id: id, prompt },
                            seq![ActionView::UnbindLongRecordingKeys],
                        )
                    }
                } else if id == enter_id() {
                    (
                        StateView::LongRecording { shortcut_id, prompt, entered_at: now },
                        seq![
                            ActionView::UnbindLongRecordingKeys,
                            ActionView::SubmitAndContinue(prompt),
                            ActionView::BindLongRecordingKeys,
                        ],
                    )
                } else if id == escape_id() {
                    (
                        StateView::Idle,
                        seq![
                            ActionView::UnbindLongRecordingKeys,
                            ActionView::CancelRecording,
                            ActionView::Notify("Recording cancelled"@, "Press hotkey to start again"@),
                        ],
                    )
                } else if id == super_id() {
                    (
                        StateView::Idle,
                        seq![ActionView::UnbindLongRecordingKeys, ActionView::SubmitAndEnd(prompt)],
                    )
                } else if c.prompts.contains_key(id) {
                    (
                        StateView::Recording { press_time: now, shortcut_id: id, prompt: c.prompts[id] },
                        seq![
                            ActionView::UnbindLongRecordingKeys,
                            ActionView::CancelRecording,
                            ActionView::StartRecording,
                        ],
                    )
                } else {
                    (s, seq![])
                }
            },
            EventView::Deactivated(_) => (s, seq![]),
        },
        StateView::PendingRepaste { shortcut_id, text } => match e {
            EventView::Deactivated(id) => {
                if id == shortcut_id {
                    (StateView::Idle, seq![ActionView::Repaste(text)])
                } else {
                    (s, seq![])
                }
            },
            EventView::Activated(_) => (s, seq![]),
        },
        StateView::PendingTranscription { shortcut_id, prompt } => match e {
            EventView::Deactivated(id) => {
                if id == shortcut_id {
                    (StateView::Idle, seq![ActionView::StopAndTranscribe(prompt)])
                } else {
                    (s, seq![])
                }
            },
            EventView::Activated(_) => (s, seq![]),
        },
    }
}

/// Makes an owned copy of a string slice.
fn owned(s: &str) -> (r: String)
    ensures
        r@ == s@,
{
    s.to_string()
}

/// Milliseconds from `since` to `now`, or zero when `since` is later.
fn elapsed_ms(now: u64, since: u64) -> (r: u64)
    ensures
        r == elapsed(now as int, since as int),
{
    if now >= since { now - since } else { 0 }
}

impl RecordingState {
    /// Compute the next state and required actions given an event.
    ///
    /// This is the core state machine logic, separated from side effects.
    /// The caller should execute the returned actions after updating state.
    /// `now` is the current time in milliseconds.
    pub fn transition(self, event: HotkeyEvent, ctx: &TransitionContext, now: u64) -> (r: TransitionResult)
        requires
            ctx.binding_map.wf(),
        ensures
            (r.new_state@, actions_view(r.actions@)) == step(self@, event@, ctx.model(), now as int),
    {
        let ghost c = ctx.model();
        proof {
            reveal_strlit("transcribe-enter");
            reveal_strlit("transcribe-escape");
            reveal_strlit("transcribe-super");
        }
        let result = match (&self, &event) {
            (RecordingState::Idle, HotkeyEvent::Activated { shortcut_id }) => {
                let debounced = match ctx.last_repaste_time {
                    Some(repaste_time) => elapsed_ms(now, repaste_time) < ctx.repaste_debounce,
                    None => false,
                };
                if debounced {
                    TransitionResult { new_state: RecordingState::Idle, actions: vec![] }
                } else {
                    match ctx.binding_map.get(shortcut_id.as_str()) {
                        Some(binding) => TransitionResult {
                            new_state: RecordingState::Recording {
                                press_time: now,
                                shortcut_id: shortcut_id.clone(),
                                prompt: clone_opt_string(&binding.prompt),
                            },
                            actions: vec![Action::StartRecording],
                        },
                        None => TransitionResult { new_state: RecordingState::Idle, actions: vec![] },
                    }
                }
            },
            (RecordingState::Idle, HotkeyEvent::Deactivated { .. }) => {
                TransitionResult { new_state: RecordingState::Idle, actions: vec![] }
            },
            (
                RecordingState::Recording { press_time, shortcut_id: active_id, prompt },
                HotkeyEvent::Deactivated { shortcut_id },
            ) if *shortcut_id == *active_id => {
                if elapsed_ms(now, *press_time) < ctx.tap_threshold {
                    TransitionResult {
                        new_state: RecordingState::LongRecording {
                            shortcut_id: shortcut_id.clone(),
                            prompt: clone_opt_string(prompt),
                            entered_at: now,
                        },
                        actions: vec![Action::BindLongRecordingKeys],
                    }
                } else {
                    TransitionResult {
                        new_state: RecordingState::Idle,
                        actions: vec![Action::StopAndTranscribe { prompt: clone_opt_string(prompt) }],
                    }
                }
            },
            (RecordingState::Recording { .. }, _) => {
                TransitionResult { new_state: self, actions: vec![] }
            },
            (
                RecordingState::LongRecording { shortcut_id: active_id, prompt, entered_at },
                HotkeyEvent::Activated { shortcut_id },
            ) if *shortcut_id == *active_id => {
                if elapsed_ms(now, *entered_at) < ctx.double_tap_window {
                    match ctx.last_transcription {
                        Some(text) => TransitionResult {
                            new_state: RecordingState::PendingRepaste {
                                shortcut_id: shortcut_id.clone(),
                                text: owned(text),
                            },
                            actions: vec![Action::UnbindLongRecordingKeys, Action::CancelRecording],
                        },
                        None => TransitionResult {
                            new_state: RecordingState::Idle,
                            actions: vec![
                                Action::UnbindLongRecordingKeys,
                                Action::CancelRecording,
                                Action::Notify {
                                    title: owned("No previous transcription"),
                                    body: owned("Record something first"),
                                },
                            ],
                        },
                    }
                } else {
                    TransitionResult {
                        new_state: RecordingState::PendingTranscription {
                            shortcut_id: shortcut_id.clone(),
                            prompt: clone_opt_string(prompt),
                        },
                        actions: vec![Action::UnbindLongRecordingKeys],
                    }
                }
            },
            (
                RecordingState::LongRecording { shortcut_id: original_id, prompt, .. },
                HotkeyEvent::Activated { shortcut_id },
            ) if crate::text::str_eq(shortcut_id.as_str(), "transcribe-enter") => {
                TransitionResult {
                    new_state: RecordingState::LongRecording {
                        shortcut_id: original_id.clone(),
                        prompt: clone_opt_string(prompt),
                        entered_at: now,
                    },
                    actions: vec![
                        Action::UnbindLongRecordingKeys,
                        Action::SubmitAndContinue { prompt: clone_opt_string(prompt) },
                        Action::BindLongRecordingKeys,
                    ],
                }
            },
            (RecordingState::LongRecording { .. }, HotkeyEvent::Activated { shortcut_id })
                if crate::text::str_eq(shortcut_id.as_str(), "transcribe-escape") => {
                TransitionResult {
                    new_state: RecordingState::Idle,
                    actions: vec![
                        Action::UnbindLongRecordingKeys,
                        Action::CancelRecording,
                        Action::Notify {
                            title: owned("Recording cancelled"),
                            body: owned("Press hotkey to start again"),
                        },
                    ],
                }
            },
            (RecordingState::LongRecording { prompt, .. }, HotkeyEvent::Activated { shortcut_id })
                if crate::text::str_eq(shortcut_id.as_str(), "transcribe-super") => {
                TransitionResult {
                    new_state: RecordingState::Idle,
                    actions: vec![
                        Action::UnbindLongRecordingKeys,
                        Action::SubmitAndEnd { prompt: clone_opt_string(prompt) },
                    ],
                }
            },
            (RecordingState::LongRecording { .. }, HotkeyEvent::Activated { shortcut_id }) => {
                match ctx.binding_map.get(shortcut_id.as_str()) {
                    Some(binding) => TransitionResult {
                        new_state: RecordingState::Recording {
                            press_time: now,
                            shortcut_id: shortcut_id.clone(),
                            prompt: clone_opt_string(&binding.prompt),
                        },
                        actions: vec![
                            Action::UnbindLongRecordingKeys,
                            Action::CancelRecording,
                            Action::StartRecording,
                        ],
                    },
                    None => TransitionResult { new_state: self, actions: vec![] },
                }
            },
            (RecordingState::LongRecording { .. }, HotkeyEvent::Deactivated { .. }) => {
                TransitionResult { new_state: self, actions: vec![] }
            },
            (
                RecordingState::PendingRepaste { shortcut_id: pending_id, text },
                HotkeyEvent::Deactivated { shortcut_id },
            ) if *shortcut_id == *pending_id => {
                TransitionResult {
                    new_state: RecordingState::Idle,
                    actions: vec![Action::Repaste { text: text.clone() }],
                }
            },
            (RecordingState::PendingRepaste { .. }, _) => {
                TransitionResult { new_state: self, actions: vec![] }
            },
            (
                RecordingState::PendingTranscription { shortcut_id: pending_id, prompt },
                HotkeyEvent::Deactivated { shortcut_id },
            ) if *shortcut_id == *pending_id => {
                TransitionResult {
                    new_state: RecordingState::Idle,
                    actions: vec![Action::StopAndTranscribe { prompt: clone_opt_string(prompt) }],
                }
            },
            (RecordingState::PendingTranscription { .. }, _) => {
                TransitionResult { new_state: self, actions: vec![] }
            },
        };
        proof {
            assert(actions_view(result.actions@) =~= step(self@, event@, c, now as int).1);
        }
        result
    }
}


/// State machine manager that tracks state and internal caches.
///
/// This provides a higher-level interface that handles cache updates
/// based on executed actions.
pub struct StateMachine {
    state: RecordingState,
    last_transcription: Option<String>,
    last_repaste_time: Option<u64>,
}

impl StateMachine {
    /// The current state.
    pub closed spec fn current(&self) -> RecordingState {
        self.state
    }

    /// The cached transcription, as characters.
    pub closed spec fn cached(&self) -> Option<Seq<char>> {
        opt_view(self.last_transcription)
    }

    /// The time of the last repaste.
    pub closed spec fn repasted_at(&self) -> Option<u64> {
        self.last_repaste_time
    }

    /// Create a new state machine in the Idle state.
    pub fn new() -> (m: StateMachine)
        ensures
            m.current()@ == StateView::Idle,
            m.cached() is None,
            m.repasted_at() is None,
    {
        StateMachine { state: RecordingState::Idle, last_transcription: None, last_repaste_time: None }
    }

    /// Get the current state.
    pub fn state(&self) -> (r: &RecordingState)
        ensures
            *r == self.current(),
    {
        &self.state
    }

    /// Get the last transcription (for repaste).
    pub fn last_transcription(&self) -> (r: Option<&str>)
        ensures
            r is Some <==> self.cached() is Some,
            r is Some ==> r.unwrap()@ == self.cached()->0,
    {
        match &self.last_transcription {
            Some(t) => Some(t.as_str()),
            None => None,
        }
    }

    /// Get the last repaste time (for debounce).
    pub fn last_repaste_time(&self) -> (r: Option<u64>)
        ensures
            r == self.repasted_at(),
    {
        self.last_repaste_time
    }

    /// Cache a successful transcription result.
    pub fn cache_transcription(&mut self, text: String)
        ensures
            final(self).cached() == Some(text@),
            final(self).current() == old(self).current(),
            final(self).repasted_at() == old(self).repasted_at(),
    {
        self.last_transcription = Some(text);
    }

    /// Record that a repaste just occurred (for debounce), at time `at` in milliseconds.
    pub fn record_repaste(&mut self, at: u64)
        ensures
            final(self).repasted_at() == Some(at),
            final(self).current() == old(self).current(),
            final(self).cached() == old(self).cached(),
    {
        self.last_repaste_time = Some(at);
    }

    /// The context in which the machine decides its next transition.
    pub open spec fn context_for(
        &self,
        binding_map: &BindingMap,
        tap_threshold: u64,
        double_tap_window: u64,
        repaste_debounce: u64,
    ) -> ContextView {
        ContextView {
            tap_threshold: tap_threshold as int,
            double_tap_window: double_tap_window as int,
            prompts: binding_map@.map_values(|b: crate::config::HotkeyBindingView| b.prompt),
            last_transcription: self.cached(),
            last_repaste_time: match self.repasted_at() {
                Some(t) => Some(t as int),
                None => None,
            },
            repaste_debounce: repaste_debounce as int,
        }
    }

    /// Handle an event and return the actions to execute.
    ///
    /// After a successful transcription the caller should call `cache_transcription(text)`,
    /// and after a repaste `record_repaste(now)`. Durations and `now` are milliseconds.
    pub fn handle_event(
        &mut self,
        event: HotkeyEvent,
        binding_map: &BindingMap,
        tap_threshold: u64,
        double_tap_window: u64,
        repaste_debounce: u64,
        now: u64,
    ) -> (actions: Vec<Action>)
        requires
            binding_map.wf(),
        ensures
            (final(self).current()@, actions_view(actions@)) == step(
                old(self).current()@,
                event@,
                ContextView {
                    tap_threshold: tap_threshold as int,
                    double_tap_window: double_tap_window as int,
                    prompts: binding_map@.map_values(|b: crate::config::HotkeyBindingView| b.prompt),
                    last_transcription: old(self).cached(),
                    last_repaste_time: match old(self).repasted_at() {
                        Some(t) => Some(t as int),
                        None => None,
                    },
                    repaste_debounce: repaste_debounce as int,
                },
                now as int,
            ),
            final(self).cached() == old(self).cached(),
            final(self).repasted_at() == old(self).repasted_at(),
    {
        let last = match &self.last_transcription {
            Some(t) => Some(t.as_str()),
            None => None,
        };
        let ctx = TransitionContext {
            tap_threshold,
            double_tap_window,
            binding_map,
            last_transcription: last,
            last_repaste_time: self.last_repaste_time,
            repaste_debounce,
        };
        let mut current = RecordingState::Idle;
        std::mem::swap(&mut current, &mut self.state);
        let result = current.transition(event, &ctx, now);
        self.state = result.new_state;
        result.actions
    }
}

impl Default for StateMachine {
    fn default() -> (m: StateMachine)
        ensures
            m.current()@ == StateView::Idle,
            m.cached() is None,
            m.repasted_at() is None,
    {
        StateMachine::new()
    }
}

// ---------------------------------------------------------------------------
// Laws of the state machine
// ---------------------------------------------------------------------------

/// Whether Enter and Escape are bound as global shortcuts in a state.
pub open spec fn keys_bound(s: StateView) -> bool {
    s is LongRecording
}

/// Whether audio is being recorded in a state.
pub open spec fn recording_active(s: StateView) -> bool {
    s is Recording || s is LongRecording || s is PendingTranscription
}

/// Whether an action may be performed given whether the long-recording keys are bound.
pub open spec fn binding_action_allowed(bound: bool, a: ActionView) -> bool {
    match a {
        ActionView::BindLongRecordingKeys => !bound,
        ActionView::UnbindLongRecordingKeys => bound,
        _ => true,
    }
}

/// Whether the long-recording keys are bound after an action.
pub open spec fn bound_after(bound: bool, a: ActionView) -> bool {
    match a {
        ActionView::BindLongRecordingKeys => true,
        ActionView::UnbindLongRecordingKeys => false,
        _ => bound,
    }
}

/// Whether a list of actions binds only unbound keys and unbinds only bound ones,
/// and leaves the keys bound exactly when `end` holds.
pub open spec fn binding_sequence_ok(bound: bool, acts: Seq<ActionView>, end: bool) -> bool
    decreases acts.len(),
{
    if acts.len() == 0 {
        bound == end
    } else {
        binding_action_allowed(bound, acts[0]) && binding_sequence_ok(
            bound_after(bound, acts[0]),
            acts.drop_first(),
            end,
        )
    }
}

/// Whether an action may be performed given whether audio is being recorded.
pub open spec fn recording_action_allowed(active: bool, a: ActionView) -> bool {
    match a {
        ActionView::StartRecording => !active,
        ActionView::StopAndTranscribe(_) => active,
        ActionView::CancelRecording => active,
        ActionView::SubmitAndContinue(_) => active,
        ActionView::SubmitAndEnd(_) => active,
        _ => true,
    }
}

/// Whether audio is being recorded after an action.
pub open spec fn active_after(active: bool, a: ActionView) -> bool {
    match a {
        ActionView::StartRecording => true,
        ActionView::StopAndTranscribe(_) => false,
        ActionView::CancelRecording => false,
        ActionView::SubmitAndContinue(_) => true,
        ActionView::SubmitAndEnd(_) => false,
        _ => active,
    }
}

/// Whether a list of actions starts a recording only when none runs, stops or submits one
/// only when one runs, and leaves a recording running exactly when `end` holds.
pub open spec fn recording_sequence_ok(active: bool, acts: Seq<ActionView>, end: bool) -> bool
    decreases acts.len(),
{
    if acts.len() == 0 {
        active == end
    } else {
        recording_action_allowed(active, acts[0]) && recording_sequence_ok(
            active_after(active, acts[0]),
            acts.drop_first(),
            end,
        )
    }
}

/// The Enter and Escape keys are bound exactly while the machine is in long recording mode:
/// every transition binds them only when they are unbound, unbinds them only when they are
/// bound, and leaves them bound exactly when the new state is long recording.
pub proof fn law_long_recording_keys_balanced(s: StateView, e: EventView, c: ContextView, now: int)
    ensures
        binding_sequence_ok(keys_bound(s), step(s, e, c, now).1, keys_bound(step(s, e, c, now).0)),
{
    reveal_with_fuel(binding_sequence_ok, 4);
}

/// Audio recording is started only when none is running and stopped, cancelled or submitted
/// only when one is running; after every transition a recording runs exactly when the new
/// state is push-to-talk, long recording, or waiting to transcribe.
pub proof fn law_recording_actions_consistent(s: StateView, e: EventView, c: ContextView, now: int)
    ensures
        recording_sequence_ok(recording_active(s), step(s, e, c, now).1, recording_active(step(s, e, c, now).0)),
{
    reveal_with_fuel(recording_sequence_ok, 4);
}

/// Whether the state carries a control key (Enter, Escape, Super) as the identifier of the
/// transcription hotkey that started it.
pub open spec fn control_key_free(s: StateView) -> bool {
    match s {
        StateView::Recording { shortcut_id, .. } => !is_control_key(shortcut_id),
        StateView::LongRecording { shortcut_id, .. } => !is_control_key(shortcut_id),
        StateView::PendingTranscription { shortcut_id, .. } => !is_control_key(shortcut_id),
        _ => true,
    }
}

/// Control keys never become the identifier of a recording: when no control key is bound as a
/// transcription hotkey, every transition from a state free of control keys leads to one.
pub proof fn law_no_control_key_pollution(s: StateView, e: EventView, c: ContextView, now: int)
    requires
        control_key_free(s),
        forall|k: Seq<char>| #[trigger] c.prompts.contains_key(k) ==> !is_control_key(k),
    ensures
        control_key_free(step(s, e, c, now).0),
{
}

/// Push-to-talk: pressing a bound hotkey in Idle starts recording, and releasing it after at
/// least the tap threshold stops recording and transcribes with that hotkey's prompt.
pub proof fn law_push_to_talk(c: ContextView, id: Seq<char>, pressed: int, released: int)
    requires
        c.prompts.contains_key(id),
        c.last_repaste_time is None,
        released >= pressed,
        released - pressed >= c.tap_threshold,
    ensures
        step(StateView::Idle, EventView::Activated(id), c, pressed) == (
            StateView::Recording { press_time: pressed, shortcut_id: id, prompt: c.prompts[id] },
            seq![ActionView::StartRecording],
        ),
        step(step(StateView::Idle, EventView::Activated(id), c, pressed).0, EventView::Deactivated(id), c, released)
            == (StateView::Idle, seq![ActionView::StopAndTranscribe(c.prompts[id])]),
{
}

/// Tap to toggle: a press shorter than the tap threshold enters long recording; pressing the
/// same hotkey again after the double-tap window and releasing it transcribes with its prompt.
pub proof fn law_long_recording_round_trip(
    c: ContextView,
    id: Seq<char>,
    pressed: int,
    released: int,
    pressed_again: int,
    released_again: int,
)
    requires
        c.prompts.contains_key(id),
        c.last_repaste_time is None,
        pressed <= released <= pressed_again,
        released - pressed < c.tap_threshold,
        pressed_again - released >= c.double_tap_window,
    ensures
        ({
            let s1 = step(StateView::Idle, EventView::Activated(id), c, pressed);
            let s2 = step(s1.0, EventView::Deactivated(id), c, released);
            let s3 = step(s2.0, EventView::Activated(id), c, pressed_again);
            let s4 = step(s3.0, EventView::Deactivated(id), c, released_again);
            &&& s1.1 == seq![ActionView::StartRecording]
            &&& s2.0 == StateView::LongRecording { shortcut_id: id, prompt: c.prompts[id], entered_at: released }
            &&& s2.1 == seq![ActionView::BindLongRecordingKeys]
            &&& s3.0 == StateView::PendingTranscription { shortcut_id: id, prompt: c.prompts[id] }
            &&& s3.1 == seq![ActionView::UnbindLongRecordingKeys]
            &&& s4 == (StateView::Idle, seq![ActionView::StopAndTranscribe(c.prompts[id])])
        }),
{
}

/// Double-tap repaste: pressing the recording hotkey again within the double-tap window of
/// entering long recording cancels the recording, and releasing it repastes the cached
/// transcription.
pub proof fn law_double_tap_repastes_last_transcription(
    c: ContextView,
    id: Seq<char>,
    prompt: Option<Seq<char>>,
    entered_at: int,
    pressed: int,
    released: int,
)
    requires
        c.last_transcription is Some,
        entered_at <= pressed,
        pressed - entered_at < c.double_tap_window,
    ensures
        ({
            let s = StateView::LongRecording { shortcut_id: id, prompt, entered_at };
            let t1 = step(s, EventView::Activated(id), c, pressed);
            let t2 = step(t1.0, EventView::Deactivated(id), c, released);
            &&& t1.1 == seq![ActionView::UnbindLongRecordingKeys, ActionView::CancelRecording]
            &&& t2 == (StateView::Idle, seq![ActionView::Repaste(c.last_transcription->0)])
        }),
{
}

/// Debounce: within the debounce period after a repaste, activations in Idle are ignored.
pub proof fn law_debounce_after_repaste(c: ContextView, id: Seq<char>, now: int)
    requires
        c.last_repaste_time is Some,
        elapsed(now, c.last_repaste_time->0) < c.repaste_debounce,
    ensures
        step(StateView::Idle, EventView::Activated(id), c, now) == (StateView::Idle, Seq::<ActionView>::empty()),
{
}

/// Enter submits and keeps long recording under the hotkey that started it, so a second Enter
/// submits again rather than finishing the recording.
pub proof fn law_enter_keeps_recording_hotkey(
    c: ContextView,
    id: Seq<char>,
    prompt: Option<Seq<char>>,
    entered_at: int,
    now: int,
    later: int,
)
    requires
        !is_control_key(id),
    ensures
        ({
            let s = StateView::LongRecording { shortcut_id: id, prompt, entered_at };
            let t1 = step(s, EventView::Activated(enter_id()), c, now);
            let t2 = step(t1.0, EventView::Activated(enter_id()), c, later);
            let submit = seq![
                ActionView::UnbindLongRecordingKeys,
                ActionView::SubmitAndContinue(prompt),
                ActionView::BindLongRecordingKeys,
            ];
            &&& t1 == (StateView::LongRecording { shortcut_id: id, prompt, entered_at: now }, submit)
            &&& t2 == (StateView::LongRecording { shortcut_id: id, prompt, entered_at: later }, submit)
        }),
{
}

/// Releases of other keys and presses of unbound keys are ignored in every state except
/// long recording, where the control keys act.
pub proof fn law_unrelated_release_ignored(s: StateView, id: Seq<char>, c: ContextView, now: int)
    requires
        match s {
            StateView::Recording { shortcut_id, .. } => shortcut_id != id,
            StateView::PendingRepaste { shortcut_id, .. } => shortcut_id != id,
            StateView::PendingTranscription { shortcut_id, .. } => shortcut_id != id,
            _ => true,
        },
    ensures
        step(s, EventView::Deactivated(id), c, now) == (s, Seq::<ActionView>::empty()),
{
}


/// The state reached and the actions taken, in order, when the machine in state `s` handles
/// the events `inputs` one after another, each with its context and time.
pub open spec fn run(s: StateView, inputs: Seq<(EventView, ContextView, int)>) -> (StateView, Seq<ActionView>)
    decreases inputs.len(),
{
    if inputs.len() == 0 {
        (s, seq![])
    } else {
        let before = run(s, inputs.drop_last());
        let last = inputs.last();
        let next = step(before.0, last.0, last.1, last.2);
        (next.0, before.1 + next.1)
    }
}

proof fn lemma_binding_sequence_append(b: bool, a1: Seq<ActionView>, m: bool, a2: Seq<ActionView>, e: bool)
    requires
        binding_sequence_ok(b, a1, m),
        binding_sequence_ok(m, a2, e),
    ensures
        binding_sequence_ok(b, a1 + a2, e),
    decreases a1.len(),
{
    if a1.len() == 0 {
        assert(a1 + a2 =~= a2);
    } else {
        assert((a1 + a2).drop_first() =~= a1.drop_first() + a2);
        assert((a1 + a2)[0] == a1[0]);
        lemma_binding_sequence_append(bound_after(b, a1[0]), a1.drop_first(), m, a2, e);
    }
}

proof fn lemma_recording_sequence_append(b: bool, a1: Seq<ActionView>, m: bool, a2: Seq<ActionView>, e: bool)
    requires
        recording_sequence_ok(b, a1, m),
        recording_sequence_ok(m, a2, e),
    ensures
        recording_sequence_ok(b, a1 + a2, e),
    decreases a1.len(),
{
    if a1.len() == 0 {
        assert(a1 + a2 =~= a2);
    } else {
        assert((a1 + a2).drop_first() =~= a1.drop_first() + a2);
        assert((a1 + a2)[0] == a1[0]);
        lemma_recording_sequence_append(active_after(b, a1[0]), a1.drop_first(), m, a2, e);
    }
}

/// Over any sequence of events (any contexts, times, and caches between them), the Enter and
/// Escape keys are bound only while unbound and unbound only while bound, and after the last
/// event they are bound exactly when the machine is in long recording mode. From a new machine
/// (Idle, keys unbound) the binds minus the unbinds taken so far are therefore 1 in long
/// recording and 0 otherwise, and never leave {0, 1} along the way.
pub proof fn law_keys_balanced_over_runs(s: StateView, inputs: Seq<(EventView, ContextView, int)>)
    ensures
        binding_sequence_ok(keys_bound(s), run(s, inputs).1, keys_bound(run(s, inputs).0)),
    decreases inputs.len(),
{
    if inputs.len() == 0 {
    } else {
        law_keys_balanced_over_runs(s, inputs.drop_last());
        let before = run(s, inputs.drop_last());
        let last = inputs.last();
        law_long_recording_keys_balanced(before.0, last.0, last.1, last.2);
        let next = step(before.0, last.0, last.1, last.2);
        lemma_binding_sequence_append(keys_bound(s), before.1, keys_bound(before.0), next.1, keys_bound(next.0));
    }
}

/// Over any sequence of events, a recording is started only when none runs and stopped,
/// cancelled or submitted only when one runs, and after the last event a recording runs exactly
/// when the machine is in push-to-talk, long recording, or waiting to transcribe.
pub proof fn law_recording_consistent_over_runs(s: StateView, inputs: Seq<(EventView, ContextView, int)>)
    ensures
        recording_sequence_ok(recording_active(s), run(s, inputs).1, recording_active(run(s, inputs).0)),
    decreases inputs.len(),
{
    if inputs.len() == 0 {
    } else {
        law_recording_consistent_over_runs(s, inputs.drop_last());
        let before = run(s, inputs.drop_last());
        let last = inputs.last();
        law_recording_actions_consistent(before.0, last.0, last.1, last.2);
        let next = step(before.0, last.0, last.1, last.2);
        lemma_recording_sequence_append(
            recording_active(s),
            before.1,
            recording_active(before.0),
            next.1,
            recording_active(next.0),
        );
    }
}

/// From a new machine, as long as no control key (Enter, Escape, Super) is bound as a
/// transcription hotkey, no sequence of events ever leads to a recording identified by a
/// control key.
pub proof fn law_no_control_key_over_runs(inputs: Seq<(EventView, ContextView, int)>)
    requires
        forall|i: int, k: Seq<char>| 0 <= i < inputs.len() && #[trigger] inputs[i].1.prompts.contains_key(k)
            ==> !is_control_key(k),
    ensures
        control_key_free(run(StateView::Idle, inputs).0),
    decreases inputs.len(),
{
    if inputs.len() > 0 {
        let rest = inputs.drop_last();
        assert forall|i: int, k: Seq<char>| 0 <= i < rest.len() && #[trigger] rest[i].1.prompts.contains_key(k)
            implies !is_control_key(k) by {
            assert(rest[i] == inputs[i]);
        }
        law_no_control_key_over_runs(rest);
        let before = run(StateView::Idle, rest);
        let last = inputs.last();
        assert forall|k: Seq<char>| #[trigger] last.1.prompts.contains_key(k) implies !is_control_key(k) by {
            assert(inputs[inputs.len() - 1] == last);
        }
        law_no_control_key_pollution(before.0, last.0, last.1, last.2);
    }
}

/// Whether an action ends a recording: stopping it to transcribe, cancelling it, or submitting
/// it and ending dictation.
pub open spec fn ends_recording(a: ActionView) -> bool {
    a is StopAndTranscribe || a is CancelRecording || a is SubmitAndEnd
}

/// Whether an action starts, stops, cancels or submits a recording.
pub open spec fn recording_action(a: ActionView) -> bool {
    a is StartRecording || ends_recording(a) || a is SubmitAndContinue
}

/// How many actions of a list end a recording.
pub open spec fn endings(acts: Seq<ActionView>) -> nat
    decreases acts.len(),
{
    if acts.len() == 0 {
        0
    } else {
        endings(acts.drop_last()) + if ends_recording(acts.last()) { 1nat } else { 0nat }
    }
}

/// Each transition that starts recording takes a `StartRecording` action; each that ends it
/// takes exactly one action ending it (stop and transcribe, cancel, or submit and end); and
/// one that neither records before nor after takes no recording action at all.
pub proof fn law_recording_transitions(s: StateView, e: EventView, c: ContextView, now: int)
    ensures
        ({
            let (t, acts) = step(s, e, c, now);
            &&& !recording_active(s) && recording_active(t) ==> acts.contains(ActionView::StartRecording)
            &&& recording_active(s) && !recording_active(t) ==> endings(acts) == 1
            &&& !recording_active(s) && !recording_active(t) ==> forall|i: int|
                0 <= i < acts.len() ==> !recording_action(#[trigger] acts[i])
        }),
{
    reveal_with_fuel(endings, 4);
    let (t, acts) = step(s, e, c, now);
    if !recording_active(s) && recording_active(t) {
        assert(acts[acts.len() - 1] == ActionView::StartRecording);
    }
}


/// Switching prompts during long recording: pressing another bound transcription hotkey starts
/// a push-to-talk recording pressed at that moment with that hotkey's prompt; releasing it
/// within the tap threshold of that press keeps dictating in long recording with the new prompt,
/// and releasing it later stops and transcribes with the new prompt, however long the long
/// recording had run before the switch.
pub proof fn law_prompt_switch_is_a_fresh_press(
    c: ContextView,
    id: Seq<char>,
    p: Option<Seq<char>>,
    entered_at: int,
    other: Seq<char>,
    pressed: int,
    released: int,
)
    requires
        c.prompts.contains_key(other),
        other != id,
        !is_control_key(other),
        pressed <= released,
    ensures
        ({
            let s1 = step(StateView::LongRecording { shortcut_id: id, prompt: p, entered_at }, EventView::Activated(other), c, pressed);
            let s2 = step(s1.0, EventView::Deactivated(other), c, released);
            &&& s1.0 == StateView::Recording { press_time: pressed, shortcut_id: other, prompt: c.prompts[other] }
            &&& released - pressed < c.tap_threshold ==> s2 == (
                StateView::LongRecording { shortcut_id: other, prompt: c.prompts[other], entered_at: released },
                seq![ActionView::BindLongRecordingKeys],
            )
            &&& released - pressed >= c.tap_threshold ==> s2 == (
                StateView::Idle,
                seq![ActionView::StopAndTranscribe(c.prompts[other])],
            )
        }),
{
}

/// The double-tap window and the repaste debounce are separate settings: in long recording a
/// second press of the same hotkey within the double-tap window repastes the cached text
/// whatever the debounce is, and after the window finishes the recording whatever the debounce
/// is; in Idle an activation within the debounce of the last repaste is ignored whatever the
/// double-tap window is.
pub proof fn law_double_tap_window_and_debounce_are_independent(
    c: ContextView,
    id: Seq<char>,
    p: Option<Seq<char>>,
    entered_at: int,
    now: int,
    debounce: int,
    window: int,
)
    requires
        c.prompts.contains_key(id),
        !is_control_key(id),
        entered_at <= now,
    ensures
        ({
            let cw = ContextView { double_tap_window: window, repaste_debounce: debounce, ..c };
            let s = StateView::LongRecording { shortcut_id: id, prompt: p, entered_at };
            let r = step(s, EventView::Activated(id), cw, now);
            &&& now - entered_at < window && c.last_transcription is Some ==> r == (
                StateView::PendingRepaste { shortcut_id: id, text: c.last_transcription->0 },
                seq![ActionView::UnbindLongRecordingKeys, ActionView::CancelRecording],
            )
            &&& now - entered_at >= window ==> r == (
                StateView::PendingTranscription { shortcut_id: id, prompt: p },
                seq![ActionView::UnbindLongRecordingKeys],
            )
            &&& (c.last_repaste_time matches Some(t) && t <= now && now - t < debounce) ==> step(
                StateView::Idle,
                EventView::Activated(id),
                cw,
                now,
            ) == (StateView::Idle, Seq::<ActionView>::empty())
        }),
{
}

} // verus!
