//! The floating toolbar's decisions.
//!
//! The toolbar reacts to the user and to the workers it starts (capture,
//! encoder, folder and save dialogs, compression). Each reaction is a method
//! here that updates the state and returns the side effects the caller has
//! to carry out, in order; the results of those effects come back through
//! further methods.

use vstd::prelude::*;
use vstd::string::StringExecFns;

use crate::config::{AppConfig, ConfigView, Hotkey};
use crate::i18n::Language;
use crate::recorder::RecorderConfig;
use crate::settings::{capture, captured, typed_duration, Capture, KeyInput, Modifiers, SettingsState, SettingsView};
use crate::text::{
    chars_of, decimal, decimal_chars, padded, push_char, push_decimal_padded, string_of,
    string_of_range, trim_chars, trimmed,
};
use crate::videos::{CompressionOutcome, CompressionReport, VideosState, VideosView, VideoEntry, video_views};
use crate::window_picker::{PickerView, WindowEntry, WindowPickerState, entry_views, kept_selection};

verus! {

/// How long a status message stays on the toolbar, in milliseconds.
pub const STATUS_TTL_MS: u64 = 6000;

/// Cap on the status text, in characters.
pub const STATUS_MAX_CHARS: u64 = 22;

/// The window heights the toolbar switches between.
#[derive(Debug, Clone, Copy, PartialEq, Eq, Structural)]
pub enum PanelSize {
    /// Just the toolbar strip.
    Bar,
    /// The window picker is expanded.
    Picker,
    /// The settings panel is expanded.
    Settings,
    /// The recordings manager is expanded.
    Videos,
}

/// A side effect the caller carries out after a reaction.
#[derive(Debug, Clone, Copy, PartialEq, Eq, Structural)]
pub enum Action {
    /// Resize the window for the given panel.
    Resize(PanelSize),
    /// Re-enumerate the capturable windows and hand the list to
    /// `Toolbar::windows_refreshed`, passing `check_target` along.
    RefreshWindows { check_target: bool },
    /// Start a capture session for `Toolbar::recording_request`; report back
    /// through `Toolbar::recording_started`.
    StartRecording,
    /// Stop the live capture session and finalise its file; report back
    /// through `Toolbar::recording_finished`.
    FinishRecording,
    /// Make the global shortcut listener hold the configured hotkey.
    ApplyHotkey,
    /// Switch the display language to the configured one.
    SetLanguage,
    /// Write the configuration to disk; report a failure through
    /// `Toolbar::settings_save_failed`.
    SaveConfig,
    /// Re-scan the output directory and hand the clips to
    /// `Toolbar::videos_listed`.
    RefreshVideos,
    /// Ask where the compressed clip should go; report back through
    /// `Toolbar::compress_target_picked`.
    PickSaveTarget,
    /// Kill the running compression pass.
    CancelCompression,
    /// Open the folder picker at `Toolbar::folder_dialog_start`; report back
    /// through `Toolbar::output_dir_picked`.
    PickFolder,
}

/// A neutral message on the toolbar.
#[derive(Debug, Clone, Copy, PartialEq, Eq, Structural)]
pub enum Notice {
    /// A compression was asked for while recording.
    StopBeforeCompress,
    /// A compression was asked for while another one runs.
    AlreadyCompressing,
    /// The compression was cancelled.
    CompressCancelled,
}

/// Why something failed, for the toolbar.
#[derive(Debug, Clone)]
pub enum Failure {
    /// Recording was asked for with no window picked.
    PickWindow,
    /// There is no ffmpeg to compress with.
    FfmpegMissing,
    /// The recorder failed with this message.
    Recorder(String),
    /// The configuration could not be written.
    SettingsSave(String),
    /// The clip could not be played.
    Play(String),
    /// Explorer could not be opened on the clip.
    Open(String),
    /// The clip could not be deleted.
    Delete(String),
    /// Compression failed.
    Compress(String),
    /// Windows refused to register this shortcut.
    HotkeyTaken(Option<Hotkey>),
}

/// Transient outcome shown on the toolbar.
#[derive(Debug, Clone)]
pub enum Status {
    /// A recording finished; its file is at this path.
    Saved(String),
    /// A clip with this display name was deleted.
    Deleted(String),
    /// A clip was compressed.
    Compressed(CompressionOutcome),
    /// A neutral message.
    Info(Notice),
    /// Something failed.
    Failed(Failure),
}

/// What the record button shows, and whether it can be pressed.
#[derive(Debug, Clone, Copy, PartialEq, Eq, Structural)]
pub enum RecordButton {
    /// The encoder is spinning up.
    Preparing,
    /// The file is being finalised.
    Saving,
    /// A recording runs; pressing stops it.
    Stop { enabled: bool },
    /// Idle; pressing starts a recording.
    Record { enabled: bool },
}

/// The toolbar's state.
pub struct Toolbar {
    pub picker: WindowPickerState,
    /// Persisted preferences.
    pub config: AppConfig,
    /// The settings panel and its edit buffers.
    pub settings: SettingsState,
    /// The recordings manager.
    pub videos: VideosState,
    /// Where recordings go when the output directory is left blank.
    pub default_output_dir: String,
    /// Handle of the window the live capture session records, if any.
    pub recording: Option<isize>,
    /// True while the encoder is spinning up, before capture begins.
    pub starting: bool,
    /// True between the stop request and the encoder finishing the file.
    pub stopping: bool,
    /// Last outcome shown on the toolbar.
    pub status: Option<Status>,
    /// When the status was set, in milliseconds on the caller's clock.
    pub status_since: u64,
}

/// The abstract content of the toolbar.
pub struct ToolbarView {
    pub picker: PickerView,
    pub config: ConfigView,
    pub settings: SettingsView,
    pub videos: VideosView,
    pub default_output_dir: Seq<char>,
    pub recording: Option<isize>,
    pub starting: bool,
    pub stopping: bool,
    pub status: Option<Status>,
    pub status_since: u64,
}

impl View for Toolbar {
    type V = ToolbarView;

    open spec fn view(&self) -> ToolbarView {
        ToolbarView {
            picker: self.picker@,
            config: self.config@,
            settings: self.settings@,
            videos: self.videos@,
            default_output_dir: self.default_output_dir@,
            recording: self.recording,
            starting: self.starting,
            stopping: self.stopping,
            status: self.status,
            status_since: self.status_since,
        }
    }
}

/// At most one panel is expanded, and the recorder is in at most one of its
/// phases: starting, recording, or stopping.
pub open spec fn well_formed(v: ToolbarView) -> bool {
    &&& !(v.picker.is_open && v.settings.is_open)
    &&& !(v.picker.is_open && v.videos.is_open)
    &&& !(v.settings.is_open && v.videos.is_open)
    &&& !(v.starting && v.stopping)
    &&& !(v.starting && v.recording is Some)
    &&& !(v.stopping && v.recording is Some)
}

/// The record button: recording needs a target, so the button can only be
/// pressed while a window is picked and the recorder is neither starting nor
/// stopping.
pub open spec fn record_button_of(v: ToolbarView) -> RecordButton {
    let enabled = !v.starting && !v.stopping && v.picker.selected is Some;
    if v.starting {
        RecordButton::Preparing
    } else if v.stopping {
        RecordButton::Saving
    } else if v.recording is Some {
        RecordButton::Stop { enabled }
    } else {
        RecordButton::Record { enabled }
    }
}

/// The window height for the expanded panel.
pub open spec fn panel_size(v: ToolbarView) -> PanelSize {
    if v.picker.is_open {
        PanelSize::Picker
    } else if v.settings.is_open {
        PanelSize::Settings
    } else if v.videos.is_open {
        PanelSize::Videos
    } else {
        PanelSize::Bar
    }
}

/// `v` showing `status` from time `now`.
pub open spec fn with_status(v: ToolbarView, status: Status, now: u64) -> ToolbarView {
    ToolbarView { status: Some(status), status_since: now, ..v }
}

/// The configuration the settings fields describe: a blank path means the
/// default output directory, a blank or unparseable duration means no cap.
pub open spec fn config_from(s: SettingsView, default_output_dir: Seq<char>) -> ConfigView {
    ConfigView {
        output_dir: if trimmed(s.output_dir).len() == 0 {
            default_output_dir
        } else {
            trimmed(s.output_dir)
        },
        max_duration_secs: typed_duration(s.max_duration),
        hotkey: s.hotkey,
        language: s.language,
    }
}

/// Committing the settings fields: the fields are rewritten to what is
/// stored; when that differs from the current configuration it becomes the
/// configuration, the language and shortcut are re-applied if they changed,
/// and the configuration is saved.
pub open spec fn committed(v: ToolbarView) -> (ToolbarView, Seq<Action>) {
    let updated = config_from(v.settings, v.default_output_dir);
    let settings = SettingsView {
        output_dir: updated.output_dir,
        max_duration: decimal(updated.max_duration_secs as nat),
        ..v.settings
    };
    if updated == v.config {
        (ToolbarView { settings, ..v }, Seq::empty())
    } else {
        let language = if updated.language != v.config.language {
            seq![Action::SetLanguage, Action::RefreshWindows { check_target: false }]
        } else {
            Seq::empty()
        };
        let hotkey = if updated.hotkey != v.config.hotkey {
            seq![Action::ApplyHotkey]
        } else {
            Seq::empty()
        };
        (ToolbarView { settings, config: updated, ..v }, language + hotkey + seq![Action::SaveConfig])
    }
}

/// Collapsing the settings panel, which commits its fields.
pub open spec fn settings_closed(v: ToolbarView) -> (ToolbarView, Seq<Action>) {
    if !v.settings.is_open {
        (v, Seq::empty())
    } else {
        committed(
            ToolbarView { settings: SettingsView { is_open: false, capturing: false, ..v.settings }, ..v },
        )
    }
}

/// Stopping the live capture session, if there is one.
pub open spec fn stopped(v: ToolbarView) -> (ToolbarView, Seq<Action>) {
    match v.recording {
        Some(_) => (ToolbarView { recording: None, stopping: true, ..v }, seq![Action::FinishRecording]),
        None => (v, Seq::empty()),
    }
}

/// Recording cannot go on without a target: with no window selected the
/// session is stopped.
pub open spec fn stopped_without_target(v: ToolbarView) -> (ToolbarView, Seq<Action>) {
    if v.picker.selected is None {
        stopped(v)
    } else {
        (v, Seq::empty())
    }
}

/// Starting a recording of the selected window; with none selected the
/// toolbar says so instead.
pub open spec fn started(v: ToolbarView, now: u64) -> (ToolbarView, Seq<Action>) {
    match v.picker.selected {
        None => (with_status(v, Status::Failed(Failure::PickWindow), now), Seq::empty()),
        Some(_) => (ToolbarView { status: None, starting: true, ..v }, seq![Action::StartRecording]),
    }
}

/// The Record/Stop toggle: ignored while the encoder starts or finishes.
pub open spec fn recording_toggled(v: ToolbarView, now: u64) -> (ToolbarView, Seq<Action>) {
    if v.starting || v.stopping {
        (v, Seq::empty())
    } else if v.recording is Some {
        stopped(v)
    } else {
        started(v, now)
    }
}

/// Expanding or collapsing the window picker. Opening it re-enumerates the
/// windows (dropping a selection whose window is gone, which stops a
/// recording of it), closes the recordings manager and collapses the
/// settings panel; closing it checks that the recording still has a target.
pub open spec fn picker_toggled(v: ToolbarView) -> (ToolbarView, Seq<Action>) {
    let opened = !v.picker.is_open;
    let v1 = ToolbarView { picker: PickerView { is_open: opened, ..v.picker }, ..v };
    if opened {
        let v2 = ToolbarView {
            videos: VideosView { is_open: false, pending_delete: None, ..v1.videos },
            ..v1
        };
        let (v3, a3) = settings_closed(v2);
        (v3, seq![Action::RefreshWindows { check_target: true }] + a3 + seq![Action::Resize(panel_size(v3))])
    } else {
        let (v3, a3) = stopped_without_target(v1);
        (v3, a3 + seq![Action::Resize(panel_size(v3))])
    }
}

/// The clock shown for a number of seconds: `SSs` under a minute, `MM:SS`
/// from then on, each field zero-padded to two digits.
pub open spec fn clock_text(secs: nat) -> Seq<char> {
    if secs < 60 {
        padded(decimal(secs), 2, '0') + "s"@
    } else {
        padded(decimal(secs / 60), 2, '0') + ":"@ + padded(decimal(secs % 60), 2, '0')
    }
}

/// Formats a number of seconds for the Stop button.
pub fn clock(secs: u64) -> (text: String)
    ensures
        text@ == clock_text(secs as nat),
{
    let mut text = String::new();
    if secs < 60 {
        push_decimal_padded(&mut text, secs, 2);
        text.append("s");
    } else {
        push_decimal_padded(&mut text, secs / 60, 2);
        text.append(":");
        push_decimal_padded(&mut text, secs % 60, 2);
    }
    text
}

/// The seconds the Stop button shows for a recording that has run for
/// `elapsed_nanos`: with a cap, the time left rounded up to whole seconds
/// (after dropping sub-millisecond parts), so it reads the full budget at the
/// start and only reaches zero when the time is really gone; without one,
/// the whole seconds spent.
pub open spec fn clock_seconds(cap_secs: u64, elapsed_nanos: nat) -> nat {
    if cap_secs > 0 {
        let cap = cap_secs * 1_000_000_000;
        let left = if cap >= elapsed_nanos { (cap - elapsed_nanos) as nat } else { 0 };
        let millis = left / 1_000_000;
        (millis + 999) / 1000
    } else {
        elapsed_nanos / 1_000_000_000
    }
}

/// The Stop-button clock. Without a cap it shows the whole seconds spent:
/// `s` seconds from `s` seconds in until just before `s + 1`, never moving
/// back as time passes. With a cap it counts down the time left, rounded up
/// to whole seconds from whole milliseconds: it reads the full budget at the
/// start, never moves up as time passes, and reaches zero only once less
/// than a millisecond of the budget is left.
pub proof fn lemma_clock_counts(cap_secs: u64, elapsed: nat, later: nat)
    requires
        elapsed <= later,
    ensures
        clock_seconds(0, elapsed) * 1_000_000_000 <= elapsed,
        elapsed < (clock_seconds(0, elapsed) + 1) * 1_000_000_000,
        clock_seconds(0, elapsed) <= clock_seconds(0, later),
        cap_secs > 0 ==> clock_seconds(cap_secs, 0) == cap_secs,
        cap_secs > 0 ==> clock_seconds(cap_secs, later) <= clock_seconds(cap_secs, elapsed),
        cap_secs > 0 ==> (clock_seconds(cap_secs, elapsed) == 0 <==> elapsed + 1_000_000
            > cap_secs * 1_000_000_000),
        cap_secs > 0 && elapsed <= cap_secs * 1_000_000_000 ==> {
            let left_ms = (cap_secs * 1_000_000_000 - elapsed) / 1_000_000;
            let s = clock_seconds(cap_secs, elapsed);
            &&& left_ms <= s * 1000
            &&& s == 0 || (s - 1) * 1000 < left_ms
        },
{
    vstd::arithmetic::div_mod::lemma_fundamental_div_mod(elapsed as int, 1_000_000_000);
    vstd::arithmetic::div_mod::lemma_div_is_ordered(elapsed as int, later as int, 1_000_000_000);
    if cap_secs > 0 {
        let cap = cap_secs * 1_000_000_000;
        let left1: int = if cap >= elapsed { cap - elapsed } else { 0 };
        let left2: int = if cap >= later { cap - later } else { 0 };
        assert(left2 <= left1);
        vstd::arithmetic::div_mod::lemma_div_is_ordered(left2, left1, 1_000_000);
        let m1 = left1 / 1_000_000;
        let m2 = left2 / 1_000_000;
        vstd::arithmetic::div_mod::lemma_div_is_ordered(m2 + 999, m1 + 999, 1000);
        vstd::arithmetic::div_mod::lemma_fundamental_div_mod(m1 + 999, 1000);
        vstd::arithmetic::div_mod::lemma_fundamental_div_mod(left1, 1_000_000);
        assert((cap_secs * 1_000_000_000) / 1_000_000 == cap_secs * 1000) by (nonlinear_arith);
        assert((cap_secs * 1000 + 999) / 1000 == cap_secs) by (nonlinear_arith);
    }
}

/// `text` clipped to `max` characters, with an ellipsis standing in for
/// what was cut.
pub open spec fn truncated(text: Seq<char>, max: nat) -> Seq<char> {
    if text.len() <= max {
        text
    } else {
        text.take(if max > 0 { max - 1 } else { 0 }) + seq!['\u{2026}']
    }
}

/// Clips to `max` characters, adding an ellipsis when something was cut.
pub fn truncate(text: &str, max: usize) -> (clipped: String)
    ensures
        clipped@ == truncated(text@, max as nat),
{
    let chars = chars_of(text);
    if chars.len() <= max {
        return String::from_str(text);
    }
    let keep = if max > 0 { max - 1 } else { 0 };
    let mut clipped = string_of_range(chars.as_slice(), 0, keep);
    push_char(&mut clipped, '\u{2026}');
    assert(clipped@ =~= truncated(text@, max as nat));
    clipped
}

/// Suggested name for the compressed copy of a clip: its stem followed by
/// `_compressed`.
pub fn compressed_name(file_name: &str) -> (name: String)
    ensures
        name@ == crate::videos::file_stem(file_name@) + "_compressed"@,
{
    let mut name = crate::videos::display_name(file_name);
    name.append("_compressed");
    name
}

/// The ASCII digits of `s`, in order.
pub open spec fn ascii_digits_of(s: Seq<char>) -> Seq<char>
    decreases s.len(),
{
    if s.len() == 0 {
        Seq::empty()
    } else if '0' <= s.last() <= '9' {
        ascii_digits_of(s.drop_last()).push(s.last())
    } else {
        ascii_digits_of(s.drop_last())
    }
}

/// Picking a window from the list collapses the picker; switching to a new
/// target mid-recording closes out the current clip.
pub open spec fn window_picked(v: ToolbarView, info: crate::window_picker::WindowEntryView) -> (ToolbarView, Seq<Action>) {
    let is_new = match v.picker.selected {
        Some(s) => s.hwnd != info.hwnd,
        None => true,
    };
    let v1 = ToolbarView { picker: PickerView { is_open: false, selected: Some(info), ..v.picker }, ..v };
    let (v2, a2) = if is_new {
        stopped(v1)
    } else {
        (v1, Seq::empty())
    };
    (v2, a2 + seq![Action::Resize(panel_size(v2))])
}

/// The settings fields refilled from the configuration, with the panel
/// state and dialog flag kept.
pub open spec fn settings_reset(s: SettingsView, config: ConfigView) -> SettingsView {
    SettingsView {
        output_dir: config.output_dir,
        max_duration: decimal(config.max_duration_secs as nat),
        hotkey: config.hotkey,
        language: config.language,
        capturing: false,
        ..s
    }
}

/// Expanding or collapsing the settings panel. Collapsing commits the
/// fields; expanding refills them from the configuration and collapses the
/// other panels.
pub open spec fn settings_toggled(v: ToolbarView) -> (ToolbarView, Seq<Action>) {
    if v.settings.is_open {
        let (v1, a1) = settings_closed(v);
        (v1, a1 + seq![Action::Resize(panel_size(v1))])
    } else {
        let v1 = ToolbarView {
            settings: SettingsView { is_open: true, ..settings_reset(v.settings, v.config) },
            picker: PickerView { is_open: false, ..v.picker },
            videos: VideosView { is_open: false, pending_delete: None, ..v.videos },
            ..v
        };
        (v1, seq![Action::Resize(panel_size(v1))])
    }
}

/// Expanding or collapsing the recordings manager. Expanding re-scans the
/// output directory and collapses the other panels.
pub open spec fn videos_toggled(v: ToolbarView) -> (ToolbarView, Seq<Action>) {
    if v.videos.is_open {
        let v1 = ToolbarView { videos: VideosView { is_open: false, pending_delete: None, ..v.videos }, ..v };
        (v1, seq![Action::Resize(panel_size(v1))])
    } else {
        let v1 = ToolbarView { videos: VideosView { is_open: true, ..v.videos }, ..v };
        let (v2, a2) = settings_closed(v1);
        let v3 = ToolbarView { picker: PickerView { is_open: false, ..v2.picker }, ..v2 };
        (v3, seq![Action::RefreshVideos] + a2 + seq![Action::Resize(panel_size(v3))])
    }
}

/// The clock tick: an expired status disappears, and the recording stops
/// once it has run for the duration cap or its window is gone.
pub open spec fn ticked(v: ToolbarView, now: u64, elapsed_nanos: u128, target_alive: bool) -> (ToolbarView, Seq<Action>) {
    let v1 = if v.status is Some && now >= v.status_since + STATUS_TTL_MS {
        ToolbarView { status: None, ..v }
    } else {
        v
    };
    let over_cap = v.config.max_duration_secs > 0 && elapsed_nanos >= v.config.max_duration_secs
        * 1_000_000_000;
    if v1.recording is Some && (over_cap || !target_alive) {
        stopped(v1)
    } else {
        (v1, Seq::empty())
    }
}

/// Asking to compress a clip: refused while recording or while another
/// clip is being compressed, and when there is no ffmpeg; otherwise the
/// clip is marked busy and the user is asked where the result goes.
pub open spec fn compress_requested(v: ToolbarView, path: Seq<char>, ffmpeg_found: bool, now: u64) -> (ToolbarView, Seq<Action>) {
    if v.recording is Some {
        (with_status(v, Status::Info(Notice::StopBeforeCompress), now), Seq::empty())
    } else if v.videos.compressing is Some {
        (with_status(v, Status::Info(Notice::AlreadyCompressing), now), Seq::empty())
    } else if !ffmpeg_found {
        (with_status(v, Status::Failed(Failure::FfmpegMissing), now), Seq::empty())
    } else {
        (
            ToolbarView {
                videos: VideosView { compressing: Some(path), has_session: true, ..v.videos },
                ..v
            },
            seq![Action::PickSaveTarget],
        )
    }
}

impl Toolbar {
    /// The toolbar as it starts: every panel closed, nothing recording, the
    /// settings fields filled from `config`.
    pub fn new(config: AppConfig, default_output_dir: String) -> (toolbar: Toolbar)
        ensures
            well_formed(toolbar@),
            toolbar@.config == config@,
            toolbar@.default_output_dir == default_output_dir@,
            toolbar@.picker == (PickerView { is_open: false, selected: None, windows: Seq::empty(), include_others: false }),
            toolbar@.settings == (SettingsView {
                is_open: false,
                output_dir: config@.output_dir,
                max_duration: decimal(config@.max_duration_secs as nat),
                hotkey: config@.hotkey,
                language: config@.language,
                capturing: false,
                browsing: false,
            }),
            !toolbar@.videos.is_open,
            toolbar@.videos.pending_delete is None,
            toolbar@.videos.compressing is None,
            !toolbar@.videos.has_session,
            toolbar@.recording is None,
            !toolbar@.starting,
            !toolbar@.stopping,
            toolbar@.status is None,
    {
        let mut settings = SettingsState::new(config.language);
        settings.reset(&config);
        Toolbar {
            picker: WindowPickerState::new(),
            config,
            settings,
            videos: VideosState::new(),
            default_output_dir,
            recording: None,
            starting: false,
            stopping: false,
            status: None,
            status_since: 0,
        }
    }

    /// The window height for the expanded panel.
    pub fn panel_size(&self) -> (size: PanelSize)
        ensures
            size == panel_size(self@),
    {
        if self.picker.is_open {
            PanelSize::Picker
        } else if self.settings.is_open {
            PanelSize::Settings
        } else if self.videos.is_open {
            PanelSize::Videos
        } else {
            PanelSize::Bar
        }
    }

    /// What the record button shows, and whether it can be pressed.
    pub fn record_button(&self) -> (button: RecordButton)
        ensures
            button == record_button_of(self@),
    {
        let enabled = !self.starting && !self.stopping && self.picker.selected.is_some();
        if self.starting {
            RecordButton::Preparing
        } else if self.stopping {
            RecordButton::Saving
        } else if self.recording.is_some() {
            RecordButton::Stop { enabled }
        } else {
            RecordButton::Record { enabled }
        }
    }

    /// Whether a capture session is currently running.
    pub fn is_recording(&self) -> (r: bool)
        ensures
            r == (self@.recording is Some),
    {
        self.recording.is_some()
    }

    fn set_status(&mut self, status: Status, now: u64)
        ensures
            final(self)@ == with_status(old(self)@, status, now),
    {
        self.status = Some(status);
        self.status_since = now;
    }

    fn commit_settings(&mut self) -> (actions: Vec<Action>)
        ensures
            (final(self)@, actions@) == committed(old(self)@),
    {
        let updated = self.settings.to_config(self.default_output_dir.as_str());
        self.settings.output_dir = updated.output_dir.clone();
        self.settings.max_duration = string_of(decimal_chars(updated.max_duration_secs).as_slice());
        let mut actions: Vec<Action> = Vec::new();
        if updated.same_as(&self.config) {
            return actions;
        }
        let language_changed = updated.language != self.config.language;
        let rebind = updated.hotkey != self.config.hotkey;
        self.config = updated;
        if language_changed {
            actions.push(Action::SetLanguage);
            actions.push(Action::RefreshWindows { check_target: false });
        }
        if rebind {
            actions.push(Action::ApplyHotkey);
        }
        actions.push(Action::SaveConfig);
        proof {
            let ghost want = committed(old(self)@).1;
            assert(actions@ =~= want);
        }
        actions
    }

    fn close_settings(&mut self) -> (actions: Vec<Action>)
        ensures
            (final(self)@, actions@) == settings_closed(old(self)@),
    {
        if !self.settings.is_open {
            return Vec::new();
        }
        self.settings.is_open = false;
        self.settings.capturing = false;
        self.commit_settings()
    }

    fn stop_recording(&mut self) -> (actions: Vec<Action>)
        ensures
            (final(self)@, actions@) == stopped(old(self)@),
    {
        let mut actions: Vec<Action> = Vec::new();
        if self.recording.is_none() {
            return actions;
        }
        self.recording = None;
        self.stopping = true;
        actions.push(Action::FinishRecording);
        assert(actions@ =~= seq![Action::FinishRecording]);
        actions
    }

    fn stop_recording_without_target(&mut self) -> (actions: Vec<Action>)
        ensures
            (final(self)@, actions@) == stopped_without_target(old(self)@),
    {
        if self.picker.selected.is_none() {
            return self.stop_recording();
        }
        Vec::new()
    }

    /// Expands or collapses the window picker; see [`picker_toggled`].
    pub fn toggle_window_picker(&mut self) -> (actions: Vec<Action>)
        requires
            well_formed(old(self)@),
        ensures
            well_formed(final(self)@),
            (final(self)@, actions@) == picker_toggled(old(self)@),
    {
        let opened = self.picker.toggle();
        let mut actions: Vec<Action> = Vec::new();
        if opened {
            actions.push(Action::RefreshWindows { check_target: true });
            self.videos.is_open = false;
            self.videos.pending_delete = None;
            let mut more = self.close_settings();
            actions.append(&mut more);
        } else {
            let mut more = self.stop_recording_without_target();
            actions.append(&mut more);
        }
        actions.push(Action::Resize(self.panel_size()));
        actions
    }

    /// Picks a window from the list; see [`window_picked`].
    pub fn window_selected(&mut self, info: WindowEntry) -> (actions: Vec<Action>)
        requires
            well_formed(old(self)@),
        ensures
            well_formed(final(self)@),
            (final(self)@, actions@) == window_picked(old(self)@, info@),
    {
        let is_new = match &self.picker.selected {
            Some(s) => s.hwnd != info.hwnd,
            None => true,
        };
        self.picker.select(info);
        let mut actions = if is_new {
            self.stop_recording()
        } else {
            Vec::new()
        };
        actions.push(Action::Resize(self.panel_size()));
        actions
    }

    /// Asks for the window list to be re-enumerated.
    pub fn refresh_windows(&self) -> (actions: Vec<Action>)
        ensures
            actions@ == seq![Action::RefreshWindows { check_target: true }],
    {
        let mut actions = Vec::new();
        actions.push(Action::RefreshWindows { check_target: true });
        assert(actions@ =~= seq![Action::RefreshWindows { check_target: true }]);
        actions
    }

    /// Lists windows of other processes too, or stops listing them.
    pub fn toggle_other_windows(&mut self, show: bool) -> (actions: Vec<Action>)
        requires
            well_formed(old(self)@),
        ensures
            well_formed(final(self)@),
            final(self)@ == (ToolbarView {
                picker: PickerView { include_others: show, ..old(self)@.picker },
                ..old(self)@
            }),
            actions@ == seq![Action::RefreshWindows { check_target: true }],
    {
        self.picker.include_others = show;
        self.refresh_windows()
    }

    /// Takes a freshly enumerated window list. With `check_target`, a
    /// recording whose target disappeared from the selection is stopped.
    pub fn windows_refreshed(&mut self, windows: Vec<WindowEntry>, check_target: bool) -> (actions: Vec<Action>)
        requires
            well_formed(old(self)@),
        ensures
            well_formed(final(self)@),
            ({
                let v1 = ToolbarView {
                    picker: PickerView {
                        windows: entry_views(windows@),
                        selected: kept_selection(old(self)@.picker.selected, entry_views(windows@)),
                        ..old(self)@.picker
                    },
                    ..old(self)@
                };
                (final(self)@, actions@) == if check_target {
                    stopped_without_target(v1)
                } else {
                    (v1, Seq::empty())
                }
            }),
    {
        self.picker.refreshed(windows);
        if check_target {
            self.stop_recording_without_target()
        } else {
            Vec::new()
        }
    }

    /// Forgets the current selection, which ends a recording of it.
    pub fn clear_selection(&mut self) -> (actions: Vec<Action>)
        requires
            well_formed(old(self)@),
        ensures
            well_formed(final(self)@),
            (final(self)@, actions@) == stopped(
                ToolbarView { picker: PickerView { selected: None, ..old(self)@.picker }, ..old(self)@ },
            ),
    {
        self.picker.selected = None;
        self.stop_recording()
    }

    /// The Record/Stop button (or the global shortcut); see
    /// [`recording_toggled`].
    pub fn toggle_recording(&mut self, now: u64) -> (actions: Vec<Action>)
        requires
            well_formed(old(self)@),
        ensures
            well_formed(final(self)@),
            (final(self)@, actions@) == recording_toggled(old(self)@, now),
    {
        if self.starting || self.stopping {
            return Vec::new();
        }
        if self.recording.is_some() {
            self.stop_recording()
        } else {
            self.start_recording(now)
        }
    }

    /// What [`Action::StartRecording`] records: the selected window's handle
    /// and alias, with the recorder settings of the configuration.
    pub fn recording_request(&self) -> (request: Option<(isize, String, RecorderConfig)>)
        ensures
            match request {
                Some((hwnd, alias, config)) => {
                    &&& self@.picker.selected matches Some(w)
                    &&& w.hwnd == hwnd
                    &&& w.alias == alias@
                    &&& config.output_dir@ == self@.config.output_dir
                    &&& config.max_duration_secs == (if self@.config.max_duration_secs > 0 {
                        Some(self@.config.max_duration_secs)
                    } else {
                        None
                    })
                    &&& config.frame_rate == 60
                    &&& config.bitrate == 12_000_000
                    &&& config.exclude_window_border
                    &&& config.max_native_size == Some(
                        (crate::recorder::MAX_NATIVE_WIDTH, crate::recorder::MAX_NATIVE_HEIGHT),
                    )
                    &&& config.warmup_ms == crate::recorder::WARMUP_MS
                    &&& config.capture_audio
                },
                None => self@.picker.selected is None,
            },
    {
        match &self.picker.selected {
            Some(target) => Some((target.hwnd, target.alias.clone(), self.config.recorder_config())),
            None => None,
        }
    }

    /// The capture session came up or failed to. On success `result` holds
    /// the handle of the window the session records, or `None` when the
    /// session was gone by the time it was collected. A session that does
    /// not record the current selection, which can change during the
    /// start-up wait, is closed out at once.
    pub fn recording_started(&mut self, result: Result<Option<isize>, String>, now: u64) -> (actions: Vec<Action>)
        requires
            well_formed(old(self)@),
            old(self)@.starting,
        ensures
            well_formed(final(self)@),
            (final(self)@, actions@) == match result {
                Err(msg) => (
                    with_status(ToolbarView { starting: false, ..old(self)@ }, Status::Failed(Failure::Recorder(msg)), now),
                    Seq::empty(),
                ),
                Ok(session) => {
                    let v1 = ToolbarView { starting: false, recording: session, ..old(self)@ };
                    let same = match old(self)@.picker.selected {
                        Some(w) => session == Some(w.hwnd),
                        None => session is None,
                    };
                    if same {
                        (v1, Seq::empty())
                    } else {
                        stopped(v1)
                    }
                },
            },
    {
        self.starting = false;
        match result {
            Err(msg) => {
                self.set_status(Status::Failed(Failure::Recorder(msg)), now);
                Vec::new()
            },
            Ok(session) => {
                self.recording = session;
                let same = match (&self.picker.selected, session) {
                    (Some(w), Some(target)) => w.hwnd == target,
                    (None, None) => true,
                    _ => false,
                };
                if same {
                    Vec::new()
                } else {
                    self.stop_recording()
                }
            },
        }
    }

    /// The clock tick; see [`ticked`]. `elapsed_nanos` is how long the live
    /// session has run, and `target_alive` whether its window still exists.
    pub fn tick(&mut self, now: u64, elapsed_nanos: u128, target_alive: bool) -> (actions: Vec<Action>)
        requires
            well_formed(old(self)@),
        ensures
            well_formed(final(self)@),
            (final(self)@, actions@) == ticked(old(self)@, now, elapsed_nanos, target_alive),
    {
        if self.status.is_some() && now >= self.status_since && now - self.status_since >= STATUS_TTL_MS {
            self.status = None;
        }
        let over_cap = match self.config.max_duration() {
            Some(max) => elapsed_nanos >= max as u128 * 1_000_000_000,
            None => false,
        };
        if self.recording.is_some() && (over_cap || !target_alive) {
            self.stop_recording()
        } else {
            Vec::new()
        }
    }

    /// The encoder finished writing the file at `path`, or failed with a
    /// message. The manager, when open, is re-scanned for the new clip.
    pub fn recording_finished(&mut self, result: Result<String, String>, now: u64) -> (actions: Vec<Action>)
        requires
            well_formed(old(self)@),
        ensures
            well_formed(final(self)@),
            final(self)@ == with_status(
                ToolbarView { stopping: false, ..old(self)@ },
                match result {
                    Ok(path) => Status::Saved(path),
                    Err(msg) => Status::Failed(Failure::Recorder(msg)),
                },
                now,
            ),
            actions@ == if old(self)@.videos.is_open {
                seq![Action::RefreshVideos]
            } else {
                Seq::<Action>::empty()
            },
    {
        self.stopping = false;
        let status = match result {
            Ok(path) => Status::Saved(path),
            Err(msg) => Status::Failed(Failure::Recorder(msg)),
        };
        self.set_status(status, now);
        let mut actions = Vec::new();
        if self.videos.is_open {
            actions.push(Action::RefreshVideos);
        }
        proof {
            if old(self)@.videos.is_open {
                assert(actions@ =~= seq![Action::RefreshVideos]);
            } else {
                assert(actions@ =~= Seq::<Action>::empty());
            }
        }
        actions
    }

    /// Expands or collapses the settings panel; see [`settings_toggled`].
    pub fn toggle_settings(&mut self) -> (actions: Vec<Action>)
        requires
            well_formed(old(self)@),
        ensures
            well_formed(final(self)@),
            (final(self)@, actions@) == settings_toggled(old(self)@),
    {
        if self.settings.is_open {
            let mut actions = self.close_settings();
            actions.push(Action::Resize(self.panel_size()));
            return actions;
        }
        self.settings.is_open = true;
        self.settings.reset(&self.config);
        self.picker.is_open = false;
        self.videos.is_open = false;
        self.videos.pending_delete = None;
        let mut actions = Vec::new();
        actions.push(Action::Resize(self.panel_size()));
        assert(actions@ =~= seq![Action::Resize(PanelSize::Settings)]);
        actions
    }

    /// Expands or collapses the recordings manager; see [`videos_toggled`].
    pub fn toggle_videos(&mut self) -> (actions: Vec<Action>)
        requires
            well_formed(old(self)@),
        ensures
            well_formed(final(self)@),
            (final(self)@, actions@) == videos_toggled(old(self)@),
    {
        let mut actions = Vec::new();
        if self.videos.is_open {
            self.videos.is_open = false;
            self.videos.pending_delete = None;
            actions.push(Action::Resize(self.panel_size()));
            return actions;
        }
        self.videos.is_open = true;
        actions.push(Action::RefreshVideos);
        let mut more = self.close_settings();
        actions.append(&mut more);
        self.picker.is_open = false;
        actions.push(Action::Resize(self.panel_size()));
        actions
    }

    /// Takes a fresh listing of the output directory.
    pub fn videos_listed(&mut self, videos: Vec<VideoEntry>)
        requires
            well_formed(old(self)@),
        ensures
            well_formed(final(self)@),
            final(self)@ == (ToolbarView {
                videos: VideosView { videos: video_views(videos@), ..old(self)@.videos },
                ..old(self)@
            }),
    {
        self.videos.videos = videos;
    }

    /// Playing a clip failed with this message.
    pub fn play_failed(&mut self, error: String, now: u64)
        requires
            well_formed(old(self)@),
        ensures
            well_formed(final(self)@),
            final(self)@ == with_status(old(self)@, Status::Failed(Failure::Play(error)), now),
    {
        self.set_status(Status::Failed(Failure::Play(error)), now);
    }

    /// Revealing a clip in Explorer failed with this message.
    pub fn browse_failed(&mut self, error: String, now: u64)
        requires
            well_formed(old(self)@),
        ensures
            well_formed(final(self)@),
            final(self)@ == with_status(old(self)@, Status::Failed(Failure::Open(error)), now),
    {
        self.set_status(Status::Failed(Failure::Open(error)), now);
    }

    /// Asks to compress the clip at `path`; see [`compress_requested`].
    /// `ffmpeg_found` says whether the bundled ffmpeg is present.
    pub fn compress_video(&mut self, path: String, ffmpeg_found: bool, now: u64) -> (actions: Vec<Action>)
        requires
            well_formed(old(self)@),
        ensures
            well_formed(final(self)@),
            (final(self)@, actions@) == compress_requested(old(self)@, path@, ffmpeg_found, now),
    {
        let mut actions = Vec::new();
        if self.recording.is_some() {
            self.set_status(Status::Info(Notice::StopBeforeCompress), now);
            return actions;
        }
        if self.videos.compressing.is_some() {
            self.set_status(Status::Info(Notice::AlreadyCompressing), now);
            return actions;
        }
        if !ffmpeg_found {
            self.set_status(Status::Failed(Failure::FfmpegMissing), now);
            return actions;
        }
        self.videos.compressing = Some(path);
        self.videos.has_session = true;
        actions.push(Action::PickSaveTarget);
        assert(actions@ =~= seq![Action::PickSaveTarget]);
        actions
    }

    /// The save dialog closed with `destination` (or without one);
    /// `cancelled` says whether the user pressed cancel meanwhile. Returns
    /// the `(source, destination)` pair to compress when the pass should run.
    pub fn compress_target_picked(&mut self, destination: Option<String>, cancelled: bool, now: u64) -> (job: Option<(String, String)>)
        requires
            well_formed(old(self)@),
        ensures
            well_formed(final(self)@),
            ({
                let v = old(self)@;
                let v0 = ToolbarView { videos: VideosView { compressing: None, ..v.videos }, ..v };
                match v.videos.compressing {
                    None => final(self)@ == v && job is None,
                    Some(source) => match destination {
                        None => {
                            let v1 = ToolbarView { videos: VideosView { has_session: false, ..v0.videos }, ..v0 };
                            job is None && final(self)@ == if v.videos.has_session && cancelled {
                                with_status(v1, Status::Info(Notice::CompressCancelled), now)
                            } else {
                                v1
                            }
                        },
                        Some(dest) => if !v.videos.has_session {
                            job is None && final(self)@ == v0
                        } else if cancelled {
                            job is None && final(self)@ == with_status(
                                ToolbarView { videos: VideosView { has_session: false, ..v0.videos }, ..v0 },
                                Status::Info(Notice::CompressCancelled),
                                now,
                            )
                        } else {
                            &&& final(self)@ == v
                            &&& job matches Some((src, dst))
                            &&& src@ == source
                            &&& dst@ == dest@
                        },
                    },
                }
            }),
    {
        let source = match self.videos.compressing.take() {
            Some(source) => source,
            None => {
                return None;
            },
        };
        let destination = match destination {
            Some(d) => d,
            None => {
                let was_cancelled = self.videos.has_session && cancelled;
                self.videos.has_session = false;
                if was_cancelled {
                    self.set_status(Status::Info(Notice::CompressCancelled), now);
                }
                return None;
            },
        };
        if !self.videos.has_session {
            return None;
        }
        if cancelled {
            self.videos.has_session = false;
            self.set_status(Status::Info(Notice::CompressCancelled), now);
            return None;
        }
        let job_source = source.clone();
        self.videos.compressing = Some(source);
        Some((job_source, destination))
    }

    /// The compression pass reported back; the manager, when open, is
    /// re-scanned.
    pub fn compression_finished(&mut self, report: CompressionReport, now: u64) -> (actions: Vec<Action>)
        requires
            well_formed(old(self)@),
        ensures
            well_formed(final(self)@),
            final(self)@ == with_status(
                ToolbarView {
                    videos: VideosView { compressing: None, has_session: false, ..old(self)@.videos },
                    ..old(self)@
                },
                match report {
                    CompressionReport::Done(outcome) => Status::Compressed(outcome),
                    CompressionReport::Failed(error) => Status::Failed(Failure::Compress(error)),
                    CompressionReport::Cancelled => Status::Info(Notice::CompressCancelled),
                },
                now,
            ),
            actions@ == if old(self)@.videos.is_open {
                seq![Action::RefreshVideos]
            } else {
                Seq::<Action>::empty()
            },
    {
        self.videos.compressing = None;
        self.videos.has_session = false;
        let status = match report {
            CompressionReport::Done(outcome) => Status::Compressed(outcome),
            CompressionReport::Failed(error) => Status::Failed(Failure::Compress(error)),
            CompressionReport::Cancelled => Status::Info(Notice::CompressCancelled),
        };
        self.set_status(status, now);
        let mut actions = Vec::new();
        if self.videos.is_open {
            actions.push(Action::RefreshVideos);
        }
        proof {
            if old(self)@.videos.is_open {
                assert(actions@ =~= seq![Action::RefreshVideos]);
            } else {
                assert(actions@ =~= Seq::<Action>::empty());
            }
        }
        actions
    }

    /// Cancels the running compression, if any; the worker reports back.
    pub fn cancel_compression(&self) -> (actions: Vec<Action>)
        ensures
            actions@ == if self@.videos.has_session {
                seq![Action::CancelCompression]
            } else {
                Seq::<Action>::empty()
            },
    {
        let mut actions = Vec::new();
        if self.videos.has_session {
            actions.push(Action::CancelCompression);
            assert(actions@ =~= seq![Action::CancelCompression]);
        }
        actions
    }

    /// Arms the deletion of a clip, which the row then asks to confirm.
    pub fn delete_video(&mut self, path: String)
        requires
            well_formed(old(self)@),
        ensures
            well_formed(final(self)@),
            final(self)@ == (ToolbarView {
                videos: VideosView { pending_delete: Some(path@), ..old(self)@.videos },
                ..old(self)@
            }),
    {
        self.videos.pending_delete = Some(path);
    }

    /// The user confirmed the pending deletion: returns the clip to delete.
    pub fn confirm_delete(&mut self) -> (path: Option<String>)
        requires
            well_formed(old(self)@),
        ensures
            well_formed(final(self)@),
            final(self)@ == (ToolbarView {
                videos: VideosView { pending_delete: None, ..old(self)@.videos },
                ..old(self)@
            }),
            crate::videos::opt_string_view(path) == old(self)@.videos.pending_delete,
    {
        self.videos.pending_delete.take()
    }

    /// The user backed out of the pending deletion.
    pub fn cancel_delete(&mut self)
        requires
            well_formed(old(self)@),
        ensures
            well_formed(final(self)@),
            final(self)@ == (ToolbarView {
                videos: VideosView { pending_delete: None, ..old(self)@.videos },
                ..old(self)@
            }),
    {
        self.videos.pending_delete = None;
    }

    /// A confirmed deletion of the clip with file name `file_name` ended:
    /// success names the clip on the toolbar (and re-scans an open manager),
    /// failure shows the error.
    pub fn delete_finished(&mut self, file_name: &str, result: Result<(), String>, now: u64) -> (actions: Vec<Action>)
        requires
            well_formed(old(self)@),
        ensures
            well_formed(final(self)@),
            match result {
                Ok(()) => {
                    &&& final(self)@.status matches Some(Status::Deleted(name))
                    &&& name@ == crate::videos::file_stem(file_name@)
                    &&& final(self)@ == with_status(old(self)@, final(self)@.status.unwrap(), now)
                    &&& actions@ == if old(self)@.videos.is_open {
                        seq![Action::RefreshVideos]
                    } else {
                        Seq::<Action>::empty()
                    }
                },
                Err(e) => final(self)@ == with_status(old(self)@, Status::Failed(Failure::Delete(e)), now)
                    && actions@ == Seq::<Action>::empty(),
            },
    {
        let mut actions = Vec::new();
        match result {
            Ok(()) => {
                let name = crate::videos::display_name(file_name);
                self.set_status(Status::Deleted(name), now);
                if self.videos.is_open {
                    actions.push(Action::RefreshVideos);
                }
                proof {
                    if old(self)@.videos.is_open {
                        assert(actions@ =~= seq![Action::RefreshVideos]);
                    } else {
                        assert(actions@ =~= Seq::<Action>::empty());
                    }
                }
            },
            Err(e) => {
                self.set_status(Status::Failed(Failure::Delete(e)), now);
            },
        }
        actions
    }

    /// The output directory field was edited.
    pub fn output_dir_changed(&mut self, value: String)
        requires
            well_formed(old(self)@),
        ensures
            well_formed(final(self)@),
            final(self)@ == (ToolbarView {
                settings: SettingsView { output_dir: value@, ..old(self)@.settings },
                ..old(self)@
            }),
    {
        self.settings.output_dir = value;
    }

    /// The duration field was edited: only its ASCII digits are kept, so the
    /// field never holds something that silently parses to "no limit".
    pub fn max_duration_changed(&mut self, value: &str)
        requires
            well_formed(old(self)@),
        ensures
            well_formed(final(self)@),
            final(self)@ == (ToolbarView {
                settings: SettingsView { max_duration: ascii_digits_of(value@), ..old(self)@.settings },
                ..old(self)@
            }),
    {
        let chars = chars_of(value);
        let mut kept: Vec<char> = Vec::new();
        let mut i: usize = 0;
        while i < chars.len()
            invariant
                i <= chars.len(),
                chars@ == value@,
                kept@ == ascii_digits_of(chars@.take(i as int)),
            decreases chars.len() - i,
        {
            assert(chars@.take(i + 1).drop_last() == chars@.take(i as int));
            if '0' <= chars[i] && chars[i] <= '9' {
                kept.push(chars[i]);
            }
            i = i + 1;
        }
        assert(chars@.take(chars.len() as int) == chars@);
        self.settings.max_duration = string_of(kept.as_slice());
    }

    /// Opens the folder picker, unless it is already open.
    pub fn browse_output_dir(&mut self) -> (actions: Vec<Action>)
        requires
            well_formed(old(self)@),
        ensures
            well_formed(final(self)@),
            old(self)@.settings.browsing ==> final(self)@ == old(self)@ && actions@ == Seq::<Action>::empty(),
            !old(self)@.settings.browsing ==> final(self)@ == (ToolbarView {
                settings: SettingsView { browsing: true, ..old(self)@.settings },
                ..old(self)@
            }) && actions@ == seq![Action::PickFolder],
    {
        let mut actions = Vec::new();
        if self.settings.browsing {
            return actions;
        }
        self.settings.browsing = true;
        actions.push(Action::PickFolder);
        assert(actions@ =~= seq![Action::PickFolder]);
        actions
    }

    /// Where the folder picker opens: the output directory field, trimmed.
    pub fn folder_dialog_start(&self) -> (start: String)
        ensures
            start@ == trimmed(self@.settings.output_dir),
    {
        string_of(trim_chars(chars_of(self.settings.output_dir.as_str()).as_slice()).as_slice())
    }

    /// The folder picker closed, with a folder or without one; a picked
    /// folder goes into the field and is committed.
    pub fn output_dir_picked(&mut self, picked: Option<String>) -> (actions: Vec<Action>)
        requires
            well_formed(old(self)@),
        ensures
            well_formed(final(self)@),
            ({
                let v1 = ToolbarView {
                    settings: SettingsView { browsing: false, ..old(self)@.settings },
                    ..old(self)@
                };
                (final(self)@, actions@) == match picked {
                    Some(dir) => committed(
                        ToolbarView { settings: SettingsView { output_dir: dir@, ..v1.settings }, ..v1 },
                    ),
                    None => (v1, Seq::empty()),
                }
            }),
    {
        self.settings.browsing = false;
        match picked {
            Some(dir) => {
                self.settings.output_dir = dir;
                self.commit_settings()
            },
            None => Vec::new(),
        }
    }

    /// Starts (or stops) reading the next key press as the new shortcut.
    pub fn capture_hotkey(&mut self)
        requires
            well_formed(old(self)@),
        ensures
            well_formed(final(self)@),
            final(self)@ == (ToolbarView {
                settings: SettingsView { capturing: !old(self)@.settings.capturing, ..old(self)@.settings },
                ..old(self)@
            }),
    {
        self.settings.capturing = !self.settings.capturing;
    }

    /// Unassigns the shortcut and commits.
    pub fn clear_hotkey(&mut self) -> (actions: Vec<Action>)
        requires
            well_formed(old(self)@),
        ensures
            well_formed(final(self)@),
            (final(self)@, actions@) == committed(
                ToolbarView {
                    settings: SettingsView { capturing: false, hotkey: None, ..old(self)@.settings },
                    ..old(self)@
                },
            ),
    {
        self.settings.capturing = false;
        self.settings.hotkey = None;
        self.commit_settings()
    }

    /// A key press arrived; while the shortcut is being read it binds,
    /// clears or cancels as [`captured`] decides, committing a new binding.
    pub fn hotkey_captured(&mut self, key: &KeyInput, modifiers: Modifiers) -> (actions: Vec<Action>)
        requires
            well_formed(old(self)@),
        ensures
            well_formed(final(self)@),
            (final(self)@, actions@) == if !old(self)@.settings.capturing {
                (old(self)@, Seq::empty())
            } else {
                match captured(*key, modifiers) {
                    Capture::Bound(h) => committed(
                        ToolbarView {
                            settings: SettingsView { capturing: false, hotkey: Some(h), ..old(self)@.settings },
                            ..old(self)@
                        },
                    ),
                    Capture::Cleared => committed(
                        ToolbarView {
                            settings: SettingsView { capturing: false, hotkey: None, ..old(self)@.settings },
                            ..old(self)@
                        },
                    ),
                    Capture::Cancelled => (
                        ToolbarView {
                            settings: SettingsView { capturing: false, ..old(self)@.settings },
                            ..old(self)@
                        },
                        Seq::empty(),
                    ),
                    Capture::Ignored => (old(self)@, Seq::empty()),
                }
            },
    {
        if !self.settings.capturing {
            return Vec::new();
        }
        match capture(key, modifiers) {
            Capture::Bound(hotkey) => {
                self.settings.capturing = false;
                self.settings.hotkey = Some(hotkey);
                self.commit_settings()
            },
            Capture::Cleared => {
                self.settings.capturing = false;
                self.settings.hotkey = None;
                self.commit_settings()
            },
            Capture::Cancelled => {
                self.settings.capturing = false;
                Vec::new()
            },
            Capture::Ignored => Vec::new(),
        }
    }

    /// Confirms the settings: collapses the panel, which commits them.
    pub fn save_settings(&mut self) -> (actions: Vec<Action>)
        requires
            well_formed(old(self)@),
        ensures
            well_formed(final(self)@),
            ({
                let (v1, a1) = settings_closed(old(self)@);
                final(self)@ == v1 && actions@ == a1 + seq![Action::Resize(panel_size(v1))]
            }),
    {
        let mut actions = self.close_settings();
        actions.push(Action::Resize(self.panel_size()));
        actions
    }

    /// A display language was chosen; it is committed at once.
    pub fn select_language(&mut self, language: Language) -> (actions: Vec<Action>)
        requires
            well_formed(old(self)@),
        ensures
            well_formed(final(self)@),
            (final(self)@, actions@) == committed(
                ToolbarView { settings: SettingsView { language, ..old(self)@.settings }, ..old(self)@ },
            ),
    {
        self.settings.language = language;
        self.commit_settings()
    }

    /// Windows refused to register the configured shortcut, which in
    /// practice means another application owns it.
    pub fn hotkey_rejected(&mut self, now: u64)
        requires
            well_formed(old(self)@),
        ensures
            well_formed(final(self)@),
            final(self)@ == with_status(
                old(self)@,
                Status::Failed(Failure::HotkeyTaken(old(self)@.config.hotkey)),
                now,
            ),
    {
        self.set_status(Status::Failed(Failure::HotkeyTaken(self.config.hotkey)), now);
    }

    /// Writing the configuration failed with this message.
    pub fn settings_save_failed(&mut self, error: String, now: u64)
        requires
            well_formed(old(self)@),
        ensures
            well_formed(final(self)@),
            final(self)@ == with_status(old(self)@, Status::Failed(Failure::SettingsSave(error)), now),
    {
        self.set_status(Status::Failed(Failure::SettingsSave(error)), now);
    }

    /// The clock on the Stop button for a session that has run for
    /// `elapsed_nanos`: time left when there is a cap, time spent when there
    /// is not, and zero with no session.
    pub fn recording_clock(&self, elapsed_nanos: u128) -> (text: String)
        requires
            elapsed_nanos / 1_000_000_000 <= u64::MAX,
        ensures
            text@ == clock_text(
                if self@.recording is Some {
                    clock_seconds(self@.config.max_duration_secs, elapsed_nanos as nat)
                } else {
                    0
                },
            ),
    {
        if self.recording.is_none() {
            return clock(0);
        }
        let secs: u128 = match self.config.max_duration() {
            Some(max) => {
                let cap = max as u128 * 1_000_000_000;
                let left = if cap >= elapsed_nanos { cap - elapsed_nanos } else { 0 };
                let millis = left / 1_000_000;
                (millis + 999) / 1000
            },
            None => elapsed_nanos / 1_000_000_000,
        };
        assert(secs <= u64::MAX);
        clock(secs as u64)
    }

    fn start_recording(&mut self, now: u64) -> (actions: Vec<Action>)
        ensures
            (final(self)@, actions@) == started(old(self)@, now),
    {
        let mut actions: Vec<Action> = Vec::new();
        if self.picker.selected.is_none() {
            self.set_status(Status::Failed(Failure::PickWindow), now);
            return actions;
        }
        self.status = None;
        self.starting = true;
        actions.push(Action::StartRecording);
        assert(actions@ =~= seq![Action::StartRecording]);
        actions
    }
}


/// Expanding or collapsing any panel ends by resizing the window to the
/// panel that is then expanded.
pub proof fn lemma_toggles_resize_to_panel(v: ToolbarView)
    ensures
        ({
            let (next, actions) = picker_toggled(v);
            actions.len() > 0 && actions.last() == Action::Resize(panel_size(next))
        }),
        ({
            let (next, actions) = settings_toggled(v);
            actions.len() > 0 && actions.last() == Action::Resize(panel_size(next))
        }),
        ({
            let (next, actions) = videos_toggled(v);
            actions.len() > 0 && actions.last() == Action::Resize(panel_size(next))
        }),
{
}

/// Expanding a panel collapses the other two.
pub proof fn lemma_one_panel_open(v: ToolbarView)
    ensures
        !v.picker.is_open ==> ({
            let next = picker_toggled(v).0;
            next.picker.is_open && !next.settings.is_open && !next.videos.is_open
        }),
        !v.settings.is_open ==> ({
            let next = settings_toggled(v).0;
            next.settings.is_open && !next.picker.is_open && !next.videos.is_open
        }),
        !v.videos.is_open ==> ({
            let next = videos_toggled(v).0;
            next.videos.is_open && !next.picker.is_open && !next.settings.is_open
        }),
{
}

/// The Record/Stop toggle changes nothing while the encoder is starting or
/// finishing a file.
pub proof fn lemma_toggle_ignored_while_busy(v: ToolbarView, now: u64)
    requires
        v.starting || v.stopping,
    ensures
        recording_toggled(v, now) == (v, Seq::<Action>::empty()),
{
}

/// Pressing Record with a window picked starts exactly one session; with
/// none picked, nothing starts and the toolbar asks for a window.
pub proof fn lemma_record_needs_target(v: ToolbarView, now: u64)
    requires
        well_formed(v),
        !v.starting,
        !v.stopping,
        v.recording is None,
    ensures
        v.picker.selected is Some ==> recording_toggled(v, now) == (
            ToolbarView { status: None, starting: true, ..v },
            seq![Action::StartRecording],
        ),
        v.picker.selected is None ==> ({
            let (next, actions) = recording_toggled(v, now);
            &&& actions.len() == 0
            &&& !next.starting
            &&& next.status == Some(Status::Failed(Failure::PickWindow))
        }),
{
}

/// A recording never outlives its target: closing the picker with no window
/// selected leaves nothing recording.
pub proof fn lemma_no_recording_without_target(v: ToolbarView)
    requires
        v.picker.is_open,
        v.picker.selected is None,
    ensures
        picker_toggled(v).0.recording is None,
        v.recording is Some ==> picker_toggled(v).1.contains(Action::FinishRecording),
{
    let (next, actions) = picker_toggled(v);
    if v.recording is Some {
        assert(actions[0] == Action::FinishRecording);
    }
}

/// The tick stops a recording that has reached the duration cap or whose
/// window is gone, and an expired status disappears.
pub proof fn lemma_tick_enforces_cap(v: ToolbarView, now: u64, elapsed_nanos: u128, target_alive: bool)
    requires
        v.recording is Some,
        (v.config.max_duration_secs > 0 && elapsed_nanos >= v.config.max_duration_secs * 1_000_000_000)
            || !target_alive,
    ensures
        ticked(v, now, elapsed_nanos, target_alive).0.recording is None,
        ticked(v, now, elapsed_nanos, target_alive).0.stopping,
        ticked(v, now, elapsed_nanos, target_alive).1 == seq![Action::FinishRecording],
{
}

/// A status message is gone once it has been shown for its time.
pub proof fn lemma_status_expires(v: ToolbarView, now: u64, elapsed_nanos: u128, target_alive: bool)
    requires
        now >= v.status_since + STATUS_TTL_MS,
    ensures
        ticked(v, now, elapsed_nanos, target_alive).0.status is None,
{
}


/// What the settings panel shows is what is stored: filling the fields from
/// a configuration and reading them back gives the configuration, when its
/// output directory is set and has no surrounding white space.
pub proof fn lemma_settings_round_trip(s: SettingsView, config: ConfigView, default_output_dir: Seq<char>)
    requires
        trimmed(config.output_dir) == config.output_dir,
        config.output_dir.len() > 0,
    ensures
        config_from(settings_reset(s, config), default_output_dir) == config,
{
    crate::text::lemma_decimal_parses(config.max_duration_secs);
}


/// Committing the settings twice changes nothing the second time: no
/// configuration is written again and the fields stay as they are, as long
/// as the default output directory has no surrounding white space.
pub proof fn lemma_commit_idempotent(v: ToolbarView)
    requires
        trimmed(v.default_output_dir) == v.default_output_dir,
    ensures
        committed(committed(v).0) == (committed(v).0, Seq::<Action>::empty()),
{
    let updated = config_from(v.settings, v.default_output_dir);
    let v1 = committed(v).0;
    crate::text::lemma_decimal_parses(updated.max_duration_secs);
    crate::text::lemma_trimmed_idempotent(v.settings.output_dir);
    assert(v1.config == updated);
    assert(config_from(v1.settings, v1.default_output_dir) == updated);
}

} // verus!
