//! Plugin-boundary data: ids, styled text, effects, host events and
//! manifests. Plain data with a few constructors and the event → hook-kind
//! mapping.
use vstd::prelude::*;

use crate::text::TextLike;

verus! {

// ---------------------------------------------------------------------------
// Ids and small structural types
// ---------------------------------------------------------------------------
/// Stable identifier for a registered plugin (newtype over `String`).
#[derive(Debug, Clone, PartialEq, Eq, Hash)]
pub struct PluginId(pub String);

/// Stable identifier for an LLM provider (newtype over `String`).
#[derive(Debug, Clone, PartialEq, Eq, Hash)]
pub struct ProviderId(pub String);

/// Newtype identifying a live terminal screen instance.
#[derive(Debug, Clone, Copy, PartialEq, Eq, Hash)]
pub struct ScreenInstanceId(pub u32);

/// Axis-aligned rectangle within the terminal grid (columns × rows).
#[derive(Debug, Clone, Copy, PartialEq, Eq)]
pub struct Region {
    /// Columns from the terminal's left edge.
    pub x: u16,
    /// Rows from the terminal's top edge.
    pub y: u16,
    /// Width in columns.
    pub width: u16,
    /// Height in rows.
    pub height: u16,
}

/// Wall-clock instant with sub-second precision.
#[derive(Debug, Clone, Copy, PartialEq, Eq)]
pub struct Timestamp {
    /// Seconds since the Unix epoch.
    pub secs: i64,
    /// Sub-second component in nanoseconds.
    pub nanos: u32,
}

/// A keyboard event in a runtime-independent shape.
#[derive(Debug, Clone, PartialEq, Eq, Hash)]
pub struct KeyEventPortable {
    /// The key code pressed.
    pub code: KeyCodePortable,
    /// Modifier keys held at the time of the event.
    pub modifiers: KeyMods,
}

/// Runtime-independent representation of a key code.
#[derive(Debug, Clone, PartialEq, Eq, Hash)]
pub enum KeyCodePortable {
    /// A printable character.
    Char(char),
    /// Backspace.
    Backspace,
    /// Enter (Return).
    Enter,
    /// Escape.
    Esc,
    /// Tab (forward).
    Tab,
    /// Shift+Tab.
    BackTab,
    /// Insert.
    Insert,
    /// Delete (forward-delete).
    Delete,
    /// Up arrow.
    Up,
    /// Down arrow.
    Down,
    /// Left arrow.
    Left,
    /// Right arrow.
    Right,
    /// Home.
    Home,
    /// End.
    End,
    /// Page Up.
    PageUp,
    /// Page Down.
    PageDown,
    /// Function key with its number.
    F(u8),
    /// A key the terminal reported but that is not otherwise mapped.
    Null,
}

/// Modifier keys held during a key event.
#[derive(Debug, Clone, Copy, PartialEq, Eq, Hash, Default)]
pub struct KeyMods {
    /// Control.
    pub ctrl: bool,
    /// Alt (Option).
    pub alt: bool,
    /// Shift.
    pub shift: bool,
    /// Meta (Super / Command).
    pub meta: bool,
}

/// A single-key chord.
#[derive(Debug, Clone, PartialEq, Eq, Hash)]
pub struct ChordPortable {
    /// The key event that forms this chord.
    pub key: KeyEventPortable,
}

/// A theme catalog entry.
#[derive(Debug, Clone, PartialEq, Eq)]
pub struct ThemeEntry {
    /// Machine-readable identifier (e.g. `"light"`).
    pub slug: String,
    /// Display name shown in the theme picker.
    pub label: String,
    /// Whether this is a dark-background theme.
    pub dark: bool,
    /// The theme's palette.
    pub palette: ThemePalette,
}

/// Minimal palette of a theme.
#[derive(Debug, Clone, PartialEq, Eq)]
pub struct ThemePalette {
    /// Primary background color.
    pub bg: ThemeColor,
    /// Primary foreground (text) color.
    pub fg: ThemeColor,
    /// Accent color for highlights and active elements.
    pub accent: ThemeColor,
    /// Muted color for less prominent text and borders.
    pub muted: ThemeColor,
}

impl ThemePalette {
    /// Build a palette from its four colors.
    pub fn new(bg: ThemeColor, fg: ThemeColor, accent: ThemeColor, muted: ThemeColor) -> (r: Self)
        ensures
            r == (ThemePalette { bg, fg, accent, muted }),
    {
        ThemePalette { bg, fg, accent, muted }
    }
}

/// Arguments forwarded to a screen's constructor.
#[derive(Debug, Clone, PartialEq, Eq)]
pub struct ScreenArgs(pub Vec<String>);

// ---------------------------------------------------------------------------
// Styled text
// ---------------------------------------------------------------------------
/// A line of styled text.
#[derive(Debug, Clone, PartialEq, Eq)]
pub struct StyledLine {
    /// Ordered spans making up the line.
    pub spans: Vec<StyledSpan>,
}

/// A single styled run of text.
#[derive(Debug, Clone, PartialEq, Eq)]
pub struct StyledSpan {
    /// The text content.
    pub text: String,
    /// Optional foreground color; `None` inherits.
    pub fg: Option<ThemeColor>,
    /// Optional background color; `None` inherits.
    pub bg: Option<ThemeColor>,
    /// Text attribute modifiers.
    pub modifiers: TextMods,
}

/// A terminal color: ANSI named, indexed, RGB, or a semantic theme slot.
#[derive(Debug, Clone, Copy, PartialEq, Eq, Hash)]
#[non_exhaustive]
pub enum ThemeColor {
    /// Terminal default color.
    Default,
    /// ANSI black.
    Black,
    /// ANSI red.
    Red,
    /// ANSI green.
    Green,
    /// ANSI yellow.
    Yellow,
    /// ANSI blue.
    Blue,
    /// ANSI magenta.
    Magenta,
    /// ANSI cyan.
    Cyan,
    /// ANSI white.
    White,
    /// ANSI dark gray (bright black).
    DarkGray,
    /// ANSI light red.
    LightRed,
    /// ANSI light green.
    LightGreen,
    /// ANSI light yellow.
    LightYellow,
    /// ANSI light blue.
    LightBlue,
    /// ANSI light magenta.
    LightMagenta,
    /// ANSI light cyan.
    LightCyan,
    /// ANSI gray (bright white).
    Gray,
    /// 256-color palette index.
    Indexed(u8),
    /// Direct RGB color.
    Rgb {
        /// Red component.
        r: u8,
        /// Green component.
        g: u8,
        /// Blue component.
        b: u8,
    },
    /// Theme's primary foreground.
    Fg,
    /// Theme's primary background.
    Bg,
    /// Theme's accent color.
    Accent,
    /// Theme's muted color.
    Muted,
    /// Theme's error color.
    Error,
    /// Theme's warning color.
    Warning,
    /// Theme's success color.
    Success,
    /// Theme's secondary color.
    Secondary,
    /// Theme's chrome / border color.
    Border,
}

/// Plain-bool text attribute flags.
#[derive(Debug, Clone, Copy, Default, PartialEq, Eq, Hash)]
pub struct TextMods {
    /// Bold.
    pub bold: bool,
    /// Italic.
    pub italic: bool,
    /// Underline.
    pub underline: bool,
    /// Reverse video.
    pub reverse: bool,
    /// Dim (faint).
    pub dim: bool,
}

impl TextMods {
    /// No attributes set.
    pub open spec fn none() -> TextMods {
        TextMods { bold: false, italic: false, underline: false, reverse: false, dim: false }
    }
}

impl StyledLine {
    /// A line holding one unstyled span with the given text.
    pub fn plain<T: TextLike>(text: T) -> (r: Self)
        ensures
            r.spans@.len() == 1,
            r.spans@[0].text@ == text.text(),
            r.spans@[0].fg is None,
            r.spans@[0].bg is None,
            r.spans@[0].modifiers == TextMods::none(),
    {
        let span = StyledSpan {
            text: text.into_text(),
            fg: None,
            bg: None,
            modifiers: TextMods { bold: false, italic: false, underline: false, reverse: false, dim: false },
        };
        let mut spans = Vec::new();
        spans.push(span);
        StyledLine { spans }
    }
}

// ---------------------------------------------------------------------------
// Effects
// ---------------------------------------------------------------------------
/// Where an opened URL should be routed.
#[derive(Debug, Clone, Copy, PartialEq, Eq, Hash)]
pub enum UrlTarget {
    /// Hand off to the system browser / handler.
    SystemBrowser,
    /// Treat the href as a follow-up prompt in the conversation.
    ContinueConversation,
}

/// Closed vocabulary of host operations a plugin can request.
#[derive(Debug, PartialEq, Eq)]
#[non_exhaustive]
pub enum Effect {
    /// Append a styled-line note to the conversation log.
    PushNote {
        /// The line to append.
        line: StyledLine,
    },
    /// Push a new screen onto the runtime's screen stack.
    OpenScreen {
        /// Screen identifier.
        id: String,
        /// Arguments for the screen's constructor.
        args: ScreenArgs,
    },
    /// Pop the current screen.
    CloseScreen,
    /// Switch the active UI theme.
    SetActiveTheme {
        /// Theme slug.
        slug: String,
        /// Persist across sessions.
        persist: bool,
    },
    /// Switch the active LLM provider.
    SetActiveProvider {
        /// Provider id.
        id: ProviderId,
        /// Persist across sessions.
        persist: bool,
    },
    /// Announce a connected provider client.
    RegisterProvider {
        /// Provider id.
        id: ProviderId,
        /// Name shown in pickers.
        display_name: String,
    },
    /// Serialize the transcript to the given path.
    SaveTranscript {
        /// Output path.
        path: String,
    },
    /// Submit a message as if the user typed it.
    PromptSend {
        /// The text to send.
        text: String,
    },
    /// Invoke a registered slash command.
    RunSlash {
        /// Command name without the leading `/`.
        name: String,
        /// Positional arguments.
        args: Vec<String>,
    },
    /// Open a URL with the given routing.
    OpenUrl {
        /// The href as written.
        url: String,
        /// Where to route it.
        target: UrlTarget,
    },
    /// Erase the conversation log display.
    ClearLog,
    /// Shut down the application.
    Quit,
    /// Apply the children in order as one transaction.
    Stack(Vec<Effect>),
}

/// The right-hand side of a keybinding.
#[derive(Debug, PartialEq, Eq)]
#[non_exhaustive]
pub enum BoundAction {
    /// Invoke a slash command.
    RunSlash {
        /// Command name without the leading `/`.
        name: String,
        /// Positional arguments.
        args: Vec<String>,
    },
    /// Emit the effect directly.
    EmitEffect(Effect),
}

// ---------------------------------------------------------------------------
// Events
// ---------------------------------------------------------------------------
/// Discriminant-only mirror of [`HostEvent`], used as a hook-registry key.
#[derive(Debug, Clone, PartialEq, Eq, Hash)]
pub enum HookKind {
    /// Startup.
    HostStarting,
    /// Provider connected.
    Connect,
    /// Provider disconnected.
    Disconnect,
    /// Turn began.
    TurnStart,
    /// Turn ended.
    TurnEnd,
    /// Tool call dispatched.
    ToolCallStart,
    /// Tool call returned.
    ToolCallEnd,
    /// Prompt submitted.
    PromptSubmitted,
    /// Transcript saved.
    TranscriptSaved,
}

/// Typed host-lifecycle events fired into the plugin bus.
#[derive(Debug, Clone, PartialEq, Eq)]
pub enum HostEvent {
    /// The host is starting.
    HostStarting,
    /// A provider connected.
    Connect {
        /// The provider.
        provider_id: ProviderId,
    },
    /// A provider connection closed.
    Disconnect {
        /// The provider.
        provider_id: ProviderId,
        /// Why the connection ended.
        reason: String,
    },
    /// An agent turn began.
    TurnStart {
        /// Per-session turn counter, from 1.
        turn_id: u32,
    },
    /// An agent turn ended.
    TurnEnd {
        /// Turn counter matching the start event.
        turn_id: u32,
        /// Whether the turn succeeded.
        success: bool,
    },
    /// A tool call was dispatched.
    ToolCallStart {
        /// Correlates with the end event.
        call_id: String,
        /// Tool name.
        tool: String,
    },
    /// A tool call returned.
    ToolCallEnd {
        /// Correlates with the start event.
        call_id: String,
        /// Whether the tool succeeded.
        success: bool,
    },
    /// The user submitted a prompt.
    PromptSubmitted {
        /// The prompt text.
        text: String,
    },
    /// A transcript was written to disk.
    TranscriptSaved {
        /// Path of the saved file.
        path: String,
    },
}

/// The hook kind of each event variant.
pub open spec fn hook_kind_of(e: HostEvent) -> HookKind {
    match e {
        HostEvent::HostStarting => HookKind::HostStarting,
        HostEvent::Connect { .. } => HookKind::Connect,
        HostEvent::Disconnect { .. } => HookKind::Disconnect,
        HostEvent::TurnStart { .. } => HookKind::TurnStart,
        HostEvent::TurnEnd { .. } => HookKind::TurnEnd,
        HostEvent::ToolCallStart { .. } => HookKind::ToolCallStart,
        HostEvent::ToolCallEnd { .. } => HookKind::ToolCallEnd,
        HostEvent::PromptSubmitted { .. } => HookKind::PromptSubmitted,
        HostEvent::TranscriptSaved { .. } => HookKind::TranscriptSaved,
    }
}

impl HostEvent {
    /// The [`HookKind`] discriminant of this event.
    pub fn kind(&self) -> (k: HookKind)
        ensures
            k == hook_kind_of(*self),
    {
        match self {
            HostEvent::HostStarting => HookKind::HostStarting,
            HostEvent::Connect { .. } => HookKind::Connect,
            HostEvent::Disconnect { .. } => HookKind::Disconnect,
            HostEvent::TurnStart { .. } => HookKind::TurnStart,
            HostEvent::TurnEnd { .. } => HookKind::TurnEnd,
            HostEvent::ToolCallStart { .. } => HookKind::ToolCallStart,
            HostEvent::ToolCallEnd { .. } => HookKind::ToolCallEnd,
            HostEvent::PromptSubmitted { .. } => HookKind::PromptSubmitted,
            HostEvent::TranscriptSaved { .. } => HookKind::TranscriptSaved,
        }
    }
}

// ---------------------------------------------------------------------------
// Manifests
// ---------------------------------------------------------------------------
/// Static metadata a plugin advertises at registration.
#[derive(Debug, PartialEq, Eq)]
pub struct Manifest {
    /// Unique plugin id.
    pub id: PluginId,
    /// Human-readable name.
    pub name: String,
    /// SemVer version string.
    pub version: String,
    /// One-line description.
    pub description: String,
    /// Core or user-toggleable.
    pub kind: PluginKind,
    /// Everything the plugin contributes.
    pub contributions: Contributions,
}

/// Whether a plugin can be disabled by the user.
#[derive(Debug, Clone, Copy, PartialEq, Eq, Hash)]
pub enum PluginKind {
    /// Cannot be disabled.
    Core,
    /// User-toggleable.
    Optional,
}

/// All contribution kinds a plugin registers.
#[derive(Debug, Default, PartialEq, Eq)]
pub struct Contributions {
    /// Slash commands.
    pub slash_commands: Vec<SlashSpec>,
    /// Screens.
    pub screens: Vec<ScreenSpec>,
    /// Theme catalog entries.
    pub themes: Vec<ThemeEntry>,
    /// Provider descriptors.
    pub providers: Vec<ProviderSpec>,
    /// Lifecycle hooks subscribed to.
    pub hooks: Vec<HookKind>,
    /// Render-slot contributions.
    pub slots: Vec<SlotSpec>,
    /// Keybindings.
    pub keybindings: Vec<KeybindingSpec>,
}

/// A slash command contributed by a plugin.
#[derive(Debug, Clone, PartialEq, Eq)]
pub struct SlashSpec {
    /// Command name without the leading `/`.
    pub name: String,
    /// One-line summary.
    pub summary: String,
    /// Optional usage hint.
    pub args_hint: Option<String>,
}

/// A screen contributed by a plugin.
#[derive(Debug, Clone, PartialEq, Eq)]
pub struct ScreenSpec {
    /// Screen identifier.
    pub id: String,
    /// Sizing and placement.
    pub layout: ScreenLayout,
}

/// Geometry and chrome rules for a contributed screen.
#[derive(Debug, Clone, PartialEq, Eq)]
#[non_exhaustive]
pub enum ScreenLayout {
    /// The whole terminal.
    Fullscreen {
        /// Hide the runtime's chrome while on top.
        hide_chrome: bool,
    },
    /// A floating centred box.
    CenteredModal {
        /// Width as a percentage of the terminal.
        width_pct: u16,
        /// Height as a percentage of the terminal.
        height_pct: u16,
        /// Optional border title.
        title: Option<String>,
    },
    /// Anchored to the bottom with a fixed height.
    BottomSheet {
        /// Height in rows.
        height: u16,
    },
}

/// An LLM provider contributed by a plugin.
#[derive(Debug, Clone, PartialEq, Eq)]
pub struct ProviderSpec {
    /// Provider id.
    pub id: ProviderId,
    /// Name shown in pickers.
    pub display_name: String,
    /// The user must supply a credential.
    pub requires_credential: bool,
    /// Runs in-process.
    pub in_process: bool,
}

/// A render-slot contribution.
#[derive(Debug, Clone, PartialEq, Eq)]
pub struct SlotSpec {
    /// Target slot (e.g. `"home.tips"`).
    pub slot_id: String,
    /// Lower values render first.
    pub priority: i32,
}

/// A keybinding contributed by a plugin.
#[derive(Debug, PartialEq, Eq)]
pub struct KeybindingSpec {
    /// The chord that triggers the binding.
    pub chord: ChordPortable,
    /// Where the binding is active.
    pub scope: KeyScope,
    /// What the binding does.
    pub action: BoundAction,
}

/// The screen context a keybinding is active in.
#[derive(Debug, Clone, PartialEq, Eq, Hash)]
pub enum KeyScope {
    /// Everywhere.
    Global,
    /// Only when no screen is on top.
    OnHome,
    /// Only when the named screen is on top.
    OnScreen(String),
}

} // verus!
