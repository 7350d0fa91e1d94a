//! The settings window: the overlay's configuration, the rows that show it,
//! and how a change made in a row updates it.
use vstd::prelude::*;

use crate::text::{
    decimal, decimal_string, is_digit, is_white_space, lemma_decimal_digits, lemma_parse_decimal,
    parse_i32, parse_u16, parsed_integer, push_decimal, signed_decimal, trim, trim_back,
    trim_front, trimmed,
};
use crate::voice::TransportMode;

verus! {

// ---------------------------------------------------------------------------
// Configuration
// ---------------------------------------------------------------------------

/// When and how the voice users are shown.
#[derive(PartialEq, Eq, Structural, Clone, Copy, Debug)]
pub enum VoiceMembers {
    AlwaysOpaque,
    AlwaysTransparent,
    OnlyWhenSpeaking,
}

/// The label of a voice display mode in the settings.
pub open spec fn voice_members_label(m: VoiceMembers) -> Seq<char> {
    match m {
        VoiceMembers::AlwaysOpaque => "always (opaque)"@,
        VoiceMembers::AlwaysTransparent => "always (transparent)"@,
        VoiceMembers::OnlyWhenSpeaking => "only when speaking"@,
    }
}

/// The label of a transport mode in the settings.
pub open spec fn transport_label(t: TransportMode) -> Seq<char> {
    match t {
        TransportMode::Ipc => "ipc"@,
        TransportMode::Websocket => "websocket"@,
    }
}

/// The voice display mode a text converts to: the mode it is the label of;
/// any other text converts to the mode a configuration without one stands
/// for.
pub open spec fn voice_members_of_label(s: Seq<char>) -> VoiceMembers {
    if s == "always (transparent)"@ {
        VoiceMembers::AlwaysTransparent
    } else if s == "only when speaking"@ {
        VoiceMembers::OnlyWhenSpeaking
    } else {
        VoiceMembers::AlwaysOpaque
    }
}

/// The transport mode a text converts to: websocket for its label, IPC for
/// any other text.
pub open spec fn transport_of_label(s: Seq<char>) -> TransportMode {
    if s == "websocket"@ {
        TransportMode::Websocket
    } else {
        TransportMode::Ipc
    }
}

impl VoiceMembers {
    /// The mode a configuration without one stands for.
    pub fn default_mode() -> (r: VoiceMembers)
        ensures
            r == VoiceMembers::AlwaysOpaque,
    {
        VoiceMembers::AlwaysOpaque
    }

    pub fn label(&self) -> (r: String)
        ensures
            r@ == voice_members_label(*self),
    {
        match self {
            VoiceMembers::AlwaysOpaque => String::from_str("always (opaque)"),
            VoiceMembers::AlwaysTransparent => String::from_str("always (transparent)"),
            VoiceMembers::OnlyWhenSpeaking => String::from_str("only when speaking"),
        }
    }

    /// The mode a text converts to.
    pub fn from_label(s: &str) -> (r: VoiceMembers)
        ensures
            r == voice_members_of_label(s@),
    {
        let b = String::from_str("always (transparent)");
        let c = String::from_str("only when speaking");
        let t = String::from_str(s);
        if t == b {
            VoiceMembers::AlwaysTransparent
        } else if t == c {
            VoiceMembers::OnlyWhenSpeaking
        } else {
            VoiceMembers::AlwaysOpaque
        }
    }
}

pub fn transport_label_text(t: TransportMode) -> (r: String)
    ensures
        r@ == transport_label(t),
{
    match t {
        TransportMode::Ipc => String::from_str("ipc"),
        TransportMode::Websocket => String::from_str("websocket"),
    }
}

/// The transport mode a text converts to.
pub fn transport_from_label(s: &str) -> (r: TransportMode)
    ensures
        r == transport_of_label(s@),
{
    let b = String::from_str("websocket");
    let t = String::from_str(s);
    if t == b {
        TransportMode::Websocket
    } else {
        TransportMode::Ipc
    }
}

/// The overlay's configuration, as far as the settings window shows it.
pub struct Config {
    pub is_keybind_enabled: Option<bool>,
    /// The names of the keys of the overlay's keybind.
    pub overlay_keybind: Option<Vec<String>>,
    pub display_idx: Option<usize>,
    pub software_rendering: Option<bool>,
    pub display_voice_members: Option<VoiceMembers>,
    pub user_row_background: Option<String>,
    pub user_alignment: Option<String>,
    pub user_offset_x: i32,
    pub user_offset_y: i32,
    pub controls_position: Option<String>,
    pub enable_message_notifications: bool,
    pub messages_semitransparent: bool,
    pub message_alignment: Option<String>,
    pub message_offset_x: i32,
    pub message_offset_y: i32,
    pub transport_mode: TransportMode,
    pub port: Option<u16>,
}

/// A configuration with its texts as sequences of characters.
#[verifier::ext_equal]
pub struct ConfigView {
    pub is_keybind_enabled: Option<bool>,
    pub overlay_keybind: Option<Seq<Seq<char>>>,
    pub display_idx: Option<usize>,
    pub software_rendering: Option<bool>,
    pub display_voice_members: Option<VoiceMembers>,
    pub user_row_background: Option<Seq<char>>,
    pub user_alignment: Option<Seq<char>>,
    pub user_offset_x: i32,
    pub user_offset_y: i32,
    pub controls_position: Option<Seq<char>>,
    pub enable_message_notifications: bool,
    pub messages_semitransparent: bool,
    pub message_alignment: Option<Seq<char>>,
    pub message_offset_x: i32,
    pub message_offset_y: i32,
    pub transport_mode: TransportMode,
    pub port: Option<u16>,
}

pub open spec fn text_view(s: Option<String>) -> Option<Seq<char>> {
    match s {
        Some(t) => Some(t@),
        None => None,
    }
}

pub open spec fn texts_view(v: Seq<String>) -> Seq<Seq<char>> {
    v.map_values(|s: String| s@)
}

pub open spec fn keys_view(s: Option<Vec<String>>) -> Option<Seq<Seq<char>>> {
    match s {
        Some(v) => Some(texts_view(v@)),
        None => None,
    }
}

impl View for Config {
    type V = ConfigView;

    open spec fn view(&self) -> ConfigView {
        ConfigView {
            is_keybind_enabled: self.is_keybind_enabled,
            overlay_keybind: keys_view(self.overlay_keybind),
            display_idx: self.display_idx,
            software_rendering: self.software_rendering,
            display_voice_members: self.display_voice_members,
            user_row_background: text_view(self.user_row_background),
            user_alignment: text_view(self.user_alignment),
            user_offset_x: self.user_offset_x,
            user_offset_y: self.user_offset_y,
            controls_position: text_view(self.controls_position),
            enable_message_notifications: self.enable_message_notifications,
            messages_semitransparent: self.messages_semitransparent,
            message_alignment: text_view(self.message_alignment),
            message_offset_x: self.message_offset_x,
            message_offset_y: self.message_offset_y,
            transport_mode: self.transport_mode,
            port: self.port,
        }
    }
}

// ---------------------------------------------------------------------------
// Changes
// ---------------------------------------------------------------------------

/// A setting of the settings window.
#[derive(PartialEq, Eq, Structural, Clone, Copy, Debug)]
pub enum Setting {
    KeybindEnabled,
    OverlayKeybind,
    Display,
    SoftwareRendering,
    VoiceMembers,
    UserRowBackground,
    VoiceAlignment,
    VoiceOffsetX,
    VoiceOffsetY,
    ControlsPosition,
    MessageNotifications,
    SemiTransparentNotifications,
    NotificationAlignment,
    MessagesOffsetX,
    MessagesOffsetY,
    ConnectionMode,
    WebsocketPort,
}

/// What a row's control hands over when it is changed: a value as text, or
/// the names of the keys of a keybind.
pub enum SettingChange {
    Value(String),
    Keys(Vec<String>),
}

/// A change with its texts as sequences of characters.
pub enum ChangeView {
    Value(Seq<char>),
    Keys(Seq<Seq<char>>),
}

pub open spec fn change_view(c: SettingChange) -> ChangeView {
    match c {
        SettingChange::Value(v) => ChangeView::Value(v@),
        SettingChange::Keys(k) => ChangeView::Keys(texts_view(k@)),
    }
}

/// The place of the first `v` in `s`.
pub open spec fn position_of(s: Seq<Seq<char>>, v: Seq<char>) -> Option<int>
    decreases s.len(),
{
    if s.len() == 0 {
        None
    } else if s[0] == v {
        Some(0)
    } else {
        match position_of(s.drop_first(), v) {
            Some(i) => Some(i + 1),
            None => None,
        }
    }
}

/// An integer as the offset settings read it: trimmed, then parsed as `i32`.
pub open spec fn offset_value(v: Seq<char>) -> Option<int> {
    parsed_integer(trimmed(v), true, i32::MIN as int, i32::MAX as int)
}

/// A port as the port setting reads it: trimmed, then parsed as `u16`.
pub open spec fn port_value(v: Seq<char>) -> Option<int> {
    parsed_integer(trimmed(v), false, 0, u16::MAX as int)
}

/// The configuration after a change in the row of `setting`. A number that
/// does not parse, a display name that is not offered, or a change of the
/// other form leaves it as it was; the voice display and connection rows
/// convert whatever text they get.
pub open spec fn changed_config(
    c: ConfigView,
    setting: Setting,
    change: ChangeView,
    display_names: Seq<Seq<char>>,
) -> ConfigView {
    match change {
        ChangeView::Keys(keys) => match setting {
            Setting::OverlayKeybind => ConfigView { overlay_keybind: Some(keys), ..c },
            _ => c,
        },
        ChangeView::Value(v) => match setting {
            Setting::KeybindEnabled => ConfigView { is_keybind_enabled: Some(v == "true"@), ..c },
            Setting::OverlayKeybind => c,
            Setting::Display => match position_of(display_names, v) {
                Some(i) => ConfigView { display_idx: Some(i as usize), ..c },
                None => c,
            },
            Setting::SoftwareRendering => ConfigView {
                software_rendering: Some(v == "true"@),
                ..c
            },
            Setting::VoiceMembers => ConfigView {
                display_voice_members: Some(voice_members_of_label(v)),
                ..c
            },
            Setting::UserRowBackground => ConfigView { user_row_background: Some(v), ..c },
            Setting::VoiceAlignment => ConfigView { user_alignment: Some(v), ..c },
            Setting::VoiceOffsetX => match offset_value(v) {
                Some(n) => ConfigView { user_offset_x: n as i32, ..c },
                None => c,
            },
            Setting::VoiceOffsetY => match offset_value(v) {
                Some(n) => ConfigView { user_offset_y: n as i32, ..c },
                None => c,
            },
            Setting::ControlsPosition => ConfigView { controls_position: Some(v), ..c },
            Setting::MessageNotifications => ConfigView {
                enable_message_notifications: v == "true"@,
                ..c
            },
            Setting::SemiTransparentNotifications => ConfigView {
                messages_semitransparent: v == "true"@,
                ..c
            },
            Setting::NotificationAlignment => ConfigView { message_alignment: Some(v), ..c },
            Setting::MessagesOffsetX => match offset_value(v) {
                Some(n) => ConfigView { message_offset_x: n as i32, ..c },
                None => c,
            },
            Setting::MessagesOffsetY => match offset_value(v) {
                Some(n) => ConfigView { message_offset_y: n as i32, ..c },
                None => c,
            },
            Setting::ConnectionMode => ConfigView { transport_mode: transport_of_label(v), ..c },
            Setting::WebsocketPort => match port_value(v) {
                Some(n) => ConfigView { port: Some(n as u16), ..c },
                None => c,
            },
        },
    }
}

fn is_true_text(v: &String) -> (r: bool)
    ensures
        r == (v@ == "true"@),
{
    let t = String::from_str("true");
    *v == t
}

/// The place of the first `v` in `names`.
pub fn position_in(names: &Vec<String>, v: &String) -> (r: Option<usize>)
    ensures
        match r {
            Some(i) => position_of(texts_view(names@), v@) == Some(i as int),
            None => position_of(texts_view(names@), v@) is None,
        },
{
    let ghost all = texts_view(names@);
    let n = names.len();
    let mut i: usize = 0;
    assert(all.skip(0) =~= all);
    while i < n
        invariant
            i <= n,
            n == names@.len(),
            all == texts_view(names@),
            forall|j: int| 0 <= j < i ==> all[j] != v@,
            position_of(all, v@) == match position_of(all.skip(i as int), v@) {
                Some(p) => Some(p + i),
                None => None::<int>,
            },
        decreases n - i,
    {
        assert(all.skip(i as int)[0] == all[i as int]);
        if names[i] == *v {
            return Some(i);
        }
        assert(all.skip(i as int).drop_first() =~= all.skip(i + 1));
        i = i + 1;
    }
    None
}

/// Applies a change made in the row of `setting` to the configuration.
/// `display_names` are the names the display row offers.
pub fn apply_change(
    config: &mut Config,
    setting: Setting,
    change: SettingChange,
    display_names: &Vec<String>,
)
    ensures
        final(config)@ == changed_config(
            old(config)@,
            setting,
            change_view(change),
            texts_view(display_names@),
        ),
{
    let ghost before = config@;
    let ghost ch = change_view(change);
    match change {
        SettingChange::Keys(keys) => {
            if setting == Setting::OverlayKeybind {
                config.overlay_keybind = Some(keys);
            }
        },
        SettingChange::Value(v) => {
            match setting {
                Setting::KeybindEnabled => {
                    config.is_keybind_enabled = Some(is_true_text(&v));
                },
                Setting::OverlayKeybind => {},
                Setting::Display => {
                    match position_in(display_names, &v) {
                        Some(i) => {
                            config.display_idx = Some(i);
                        },
                        None => {},
                    }
                },
                Setting::SoftwareRendering => {
                    config.software_rendering = Some(is_true_text(&v));
                },
                Setting::VoiceMembers => {
                    config.display_voice_members = Some(VoiceMembers::from_label(v.as_str()));
                },
                Setting::UserRowBackground => {
                    config.user_row_background = Some(v);
                },
                Setting::VoiceAlignment => {
                    config.user_alignment = Some(v);
                },
                Setting::VoiceOffsetX => {
                    match parse_i32(trim(v.as_str()).as_str()) {
                        Some(n) => {
                            config.user_offset_x = n;
                        },
                        None => {},
                    }
                },
                Setting::VoiceOffsetY => {
                    match parse_i32(trim(v.as_str()).as_str()) {
                        Some(n) => {
                            config.user_offset_y = n;
                        },
                        None => {},
                    }
                },
                Setting::ControlsPosition => {
                    config.controls_position = Some(v);
                },
                Setting::MessageNotifications => {
                    config.enable_message_notifications = is_true_text(&v);
                },
                Setting::SemiTransparentNotifications => {
                    config.messages_semitransparent = is_true_text(&v);
                },
                Setting::NotificationAlignment => {
                    config.message_alignment = Some(v);
                },
                Setting::MessagesOffsetX => {
                    match parse_i32(trim(v.as_str()).as_str()) {
                        Some(n) => {
                            config.message_offset_x = n;
                        },
                        None => {},
                    }
                },
                Setting::MessagesOffsetY => {
                    match parse_i32(trim(v.as_str()).as_str()) {
                        Some(n) => {
                            config.message_offset_y = n;
                        },
                        None => {},
                    }
                },
                Setting::ConnectionMode => {
                    config.transport_mode = transport_from_label(v.as_str());
                },
                Setting::WebsocketPort => {
                    match parse_u16(trim(v.as_str()).as_str()) {
                        Some(n) => {
                            config.port = Some(n);
                        },
                        None => {},
                    }
                },
            }
        },
    }
    assert(config@ == changed_config(before, setting, ch, texts_view(display_names@)));
}

// ---------------------------------------------------------------------------
// Rows
// ---------------------------------------------------------------------------

/// The control a setting row shows, with its current value.
pub enum SettingKind {
    Toggle(bool),
    /// The options, and the option shown as chosen.
    Dropdown(Vec<String>, Option<String>),
    Input(Option<String>),
    ColorInput(Option<String>),
    Slider { value: i32, min: i32, max: i32, step: i32 },
    /// The names of the keys shown.
    Keybind(Option<Vec<String>>),
}

/// A control with its texts as sequences of characters.
pub enum KindView {
    Toggle(bool),
    Dropdown(Seq<Seq<char>>, Option<Seq<char>>),
    Input(Option<Seq<char>>),
    ColorInput(Option<Seq<char>>),
    Slider { value: i32, min: i32, max: i32, step: i32 },
    Keybind(Option<Seq<Seq<char>>>),
}

pub open spec fn kind_view(k: SettingKind) -> KindView {
    match k {
        SettingKind::Toggle(b) => KindView::Toggle(b),
        SettingKind::Dropdown(o, c) => KindView::Dropdown(texts_view(o@), text_view(c)),
        SettingKind::Input(v) => KindView::Input(text_view(v)),
        SettingKind::ColorInput(v) => KindView::ColorInput(text_view(v)),
        SettingKind::Slider { value, min, max, step } => KindView::Slider { value, min, max, step },
        SettingKind::Keybind(k) => KindView::Keybind(keys_view(k)),
    }
}

/// A row of the settings window.
pub struct SettingRow {
    pub setting: Setting,
    pub name: String,
    pub description: Option<String>,
    pub kind: SettingKind,
    /// The row is greyed out.
    pub disabled: bool,
}

/// A row with its texts as sequences of characters.
pub struct RowView {
    pub setting: Setting,
    pub name: Seq<char>,
    pub description: Option<Seq<char>>,
    pub kind: KindView,
    pub disabled: bool,
}

pub open spec fn row_view(r: SettingRow) -> RowView {
    RowView {
        setting: r.setting,
        name: r.name@,
        description: text_view(r.description),
        kind: kind_view(r.kind),
        disabled: r.disabled,
    }
}

/// The screen corners and edge centres a group of rows can be placed at.
pub open spec fn alignment_options() -> Seq<Seq<char>> {
    seq![
        "topleft"@,
        "topright"@,
        "bottomleft"@,
        "bottomright"@,
        "topcenter"@,
        "bottomcenter"@,
        "centerleft"@,
        "centerright"@,
    ]
}

pub open spec fn voice_members_options() -> Seq<Seq<char>> {
    seq!["always (opaque)"@, "always (transparent)"@, "only when speaking"@]
}

pub open spec fn controls_position_options() -> Seq<Seq<char>> {
    seq!["top"@, "bottom"@]
}

pub open spec fn transport_options() -> Seq<Seq<char>> {
    seq!["ipc"@, "websocket"@]
}

/// The rows of the settings window, top to bottom; the keybind rows stand
/// only where keybinds are supported.
pub open spec fn row_order(keybinds: bool) -> Seq<Setting> {
    (if keybinds {
        seq![Setting::KeybindEnabled, Setting::OverlayKeybind]
    } else {
        Seq::empty()
    }) + seq![
        Setting::Display,
        Setting::SoftwareRendering,
        Setting::VoiceMembers,
        Setting::UserRowBackground,
        Setting::VoiceAlignment,
        Setting::VoiceOffsetX,
        Setting::VoiceOffsetY,
        Setting::ControlsPosition,
        Setting::MessageNotifications,
        Setting::SemiTransparentNotifications,
        Setting::NotificationAlignment,
        Setting::MessagesOffsetX,
        Setting::MessagesOffsetY,
        Setting::ConnectionMode,
        Setting::WebsocketPort,
    ]
}

/// Whether a divider line follows the row.
pub open spec fn has_divider_after(s: Setting) -> bool {
    !(s == Setting::VoiceAlignment || s == Setting::VoiceOffsetX
        || s == Setting::SemiTransparentNotifications || s == Setting::MessagesOffsetX)
}

pub open spec fn setting_name(s: Setting) -> Seq<char> {
    match s {
        Setting::KeybindEnabled => "Enable Keybind"@,
        Setting::OverlayKeybind => "Overlay Keybind"@,
        Setting::Display => "Display"@,
        Setting::SoftwareRendering => "Force Software Renderer"@,
        Setting::VoiceMembers => "Display Voice Members"@,
        Setting::UserRowBackground => "User Row Background"@,
        Setting::VoiceAlignment => "Voice Alignment"@,
        Setting::VoiceOffsetX => "Voice X Offset (px)"@,
        Setting::VoiceOffsetY => "Voice Y Offset (px)"@,
        Setting::ControlsPosition => "Controls Position"@,
        Setting::MessageNotifications => "Enable Message Notifications"@,
        Setting::SemiTransparentNotifications => "Semi-Transparent Notifications"@,
        Setting::NotificationAlignment => "Notification Alignment"@,
        Setting::MessagesOffsetX => "Messages X Offset (px)"@,
        Setting::MessagesOffsetY => "Messages Y Offset (px)"@,
        Setting::ConnectionMode => "Connection Mode"@,
        Setting::WebsocketPort => "Websocket Port"@,
    }
}

pub open spec fn setting_description(s: Setting) -> Option<Seq<char>> {
    match s {
        Setting::KeybindEnabled => Some("Toggle overlay visibility with a keybind"@),
        Setting::OverlayKeybind => Some("The keybind used to open the overlay"@),
        Setting::Display => Some("The display to show the overlay on"@),
        Setting::SoftwareRendering => Some(
            "Use software rendering instead of hardware acceleration. Requires restart."@,
        ),
        Setting::VoiceMembers => Some("Control when and how voice users are visible"@),
        Setting::UserRowBackground => Some(
            "Background color for voice user rows (hex, e.g. #FF252B32)"@,
        ),
        Setting::VoiceAlignment => Some("Screen position for voice users"@),
        Setting::VoiceOffsetX => None,
        Setting::VoiceOffsetY => None,
        Setting::ControlsPosition => Some("Position of voice controls bar (top/bottom)"@),
        Setting::MessageNotifications => Some(
            "Show incoming message notifications on the overlay"@,
        ),
        Setting::SemiTransparentNotifications => Some(
            "Fade notifications when the overlay is closed"@,
        ),
        Setting::NotificationAlignment => Some("Screen position for notifications"@),
        Setting::MessagesOffsetX => None,
        Setting::MessagesOffsetY => None,
        Setting::ConnectionMode => Some(
            "Set the communication method between Lumina and Discord. If using an official client, use \"ipc\", otherwise, use \"websocket\"."@,
        ),
        Setting::WebsocketPort => Some(
            "Port the websocket server listens on (websocket mode only). REQUIRES RESTART."@,
        ),
    }
}

pub open spec fn or_text(v: Option<Seq<char>>, fallback: Seq<char>) -> Seq<char> {
    match v {
        Some(t) => t,
        None => fallback,
    }
}

/// The control of a setting's row for configuration `c`.
pub open spec fn setting_kind(
    s: Setting,
    c: ConfigView,
    display_names: Seq<Seq<char>>,
    default_keys: Seq<Seq<char>>,
) -> KindView {
    match s {
        Setting::KeybindEnabled => KindView::Toggle(
            match c.is_keybind_enabled {
                Some(b) => b,
                None => true,
            },
        ),
        Setting::OverlayKeybind => KindView::Keybind(
            Some(
                match c.overlay_keybind {
                    Some(k) => k,
                    None => default_keys,
                },
            ),
        ),
        Setting::Display => KindView::Dropdown(
            display_names,
            match c.display_idx {
                Some(i) => if i < display_names.len() {
                    Some(display_names[i as int])
                } else {
                    None
                },
                None => None,
            },
        ),
        Setting::SoftwareRendering => KindView::Toggle(
            match c.software_rendering {
                Some(b) => b,
                None => false,
            },
        ),
        Setting::VoiceMembers => KindView::Dropdown(
            voice_members_options(),
            Some(
                voice_members_label(
                    match c.display_voice_members {
                        Some(m) => m,
                        None => VoiceMembers::AlwaysOpaque,
                    },
                ),
            ),
        ),
        Setting::UserRowBackground => KindView::ColorInput(
            Some(or_text(c.user_row_background, "#FF252B32"@)),
        ),
        Setting::VoiceAlignment => KindView::Dropdown(
            alignment_options(),
            Some(or_text(c.user_alignment, "topleft"@)),
        ),
        Setting::VoiceOffsetX => KindView::Slider {
            value: c.user_offset_x,
            min: 0,
            max: 200,
            step: 1,
        },
        Setting::VoiceOffsetY => KindView::Slider {
            value: c.user_offset_y,
            min: 0,
            max: 200,
            step: 1,
        },
        Setting::ControlsPosition => KindView::Dropdown(
            controls_position_options(),
            Some(or_text(c.controls_position, "top"@)),
        ),
        Setting::MessageNotifications => KindView::Toggle(c.enable_message_notifications),
        Setting::SemiTransparentNotifications => KindView::Toggle(c.messages_semitransparent),
        Setting::NotificationAlignment => KindView::Dropdown(
            alignment_options(),
            Some(or_text(c.message_alignment, "topright"@)),
        ),
        Setting::MessagesOffsetX => KindView::Slider {
            value: c.message_offset_x,
            min: 0,
            max: 200,
            step: 1,
        },
        Setting::MessagesOffsetY => KindView::Slider {
            value: c.message_offset_y,
            min: 50,
            max: 200,
            step: 1,
        },
        Setting::ConnectionMode => KindView::Dropdown(
            transport_options(),
            Some(transport_label(c.transport_mode)),
        ),
        Setting::WebsocketPort => KindView::Input(
            Some(
                decimal(
                    match c.port {
                        Some(p) => p as nat,
                        None => 6888,
                    },
                ),
            ),
        ),
    }
}

/// A row is greyed out when what it sets has no effect: the keybind while
/// keybinds are off, the port outside websocket mode.
pub open spec fn setting_disabled(s: Setting, c: ConfigView) -> bool {
    match s {
        Setting::OverlayKeybind => !match c.is_keybind_enabled {
            Some(b) => b,
            None => true,
        },
        Setting::WebsocketPort => c.transport_mode != TransportMode::Websocket,
        _ => false,
    }
}

pub open spec fn setting_row_view(
    s: Setting,
    c: ConfigView,
    display_names: Seq<Seq<char>>,
    default_keys: Seq<Seq<char>>,
) -> RowView {
    RowView {
        setting: s,
        name: setting_name(s),
        description: setting_description(s),
        kind: setting_kind(s, c, display_names, default_keys),
        disabled: setting_disabled(s, c),
    }
}

fn text(s: &str) -> (r: String)
    ensures
        r@ == s@,
{
    String::from_str(s)
}

fn copy_texts(v: &Vec<String>) -> (r: Vec<String>)
    ensures
        texts_view(r@) == texts_view(v@),
{
    let mut out: Vec<String> = Vec::new();
    let mut i: usize = 0;
    while i < v.len()
        invariant
            i <= v.len(),
            out@.len() == i,
            forall|j: int| 0 <= j < i ==> #[trigger] out@[j]@ == v@[j]@,
        decreases v.len() - i,
    {
        out.push(v[i].clone());
        i = i + 1;
    }
    assert(texts_view(out@) =~= texts_view(v@));
    out
}

fn texts_of(parts: &[&str]) -> (r: Vec<String>)
    ensures
        texts_view(r@) == parts@.map_values(|p: &str| p@),
{
    let mut out: Vec<String> = Vec::new();
    let mut i: usize = 0;
    while i < parts.len()
        invariant
            i <= parts@.len(),
            out@.len() == i,
            forall|j: int| 0 <= j < i ==> #[trigger] out@[j]@ == parts@[j]@,
        decreases parts@.len() - i,
    {
        out.push(String::from_str(parts[i]));
        i = i + 1;
    }
    assert(texts_view(out@) =~= parts@.map_values(|p: &str| p@));
    out
}

fn alignments() -> (r: Vec<String>)
    ensures
        texts_view(r@) == alignment_options(),
{
    let parts: [&str; 8] = [
        "topleft",
        "topright",
        "bottomleft",
        "bottomright",
        "topcenter",
        "bottomcenter",
        "centerleft",
        "centerright",
    ];
    let r = texts_of(&parts);
    assert(texts_view(r@) =~= alignment_options());
    r
}

fn voice_members_choices() -> (r: Vec<String>)
    ensures
        texts_view(r@) == voice_members_options(),
{
    let parts: [&str; 3] = ["always (opaque)", "always (transparent)", "only when speaking"];
    let r = texts_of(&parts);
    assert(texts_view(r@) =~= voice_members_options());
    r
}

fn controls_position_choices() -> (r: Vec<String>)
    ensures
        texts_view(r@) == controls_position_options(),
{
    let parts: [&str; 2] = ["top", "bottom"];
    let r = texts_of(&parts);
    assert(texts_view(r@) =~= controls_position_options());
    r
}

fn transport_choices() -> (r: Vec<String>)
    ensures
        texts_view(r@) == transport_options(),
{
    let parts: [&str; 2] = ["ipc", "websocket"];
    let r = texts_of(&parts);
    assert(texts_view(r@) =~= transport_options());
    r
}

fn text_or(v: &Option<String>, fallback: &str) -> (r: String)
    ensures
        r@ == or_text(text_view(*v), fallback@),
{
    match v {
        Some(t) => t.clone(),
        None => String::from_str(fallback),
    }
}

fn setting_name_text(s: Setting) -> (r: String)
    ensures
        r@ == setting_name(s),
{
    match s {
        Setting::KeybindEnabled => text("Enable Keybind"),
        Setting::OverlayKeybind => text("Overlay Keybind"),
        Setting::Display => text("Display"),
        Setting::SoftwareRendering => text("Force Software Renderer"),
        Setting::VoiceMembers => text("Display Voice Members"),
        Setting::UserRowBackground => text("User Row Background"),
        Setting::VoiceAlignment => text("Voice Alignment"),
        Setting::VoiceOffsetX => text("Voice X Offset (px)"),
        Setting::VoiceOffsetY => text("Voice Y Offset (px)"),
        Setting::ControlsPosition => text("Controls Position"),
        Setting::MessageNotifications => text("Enable Message Notifications"),
        Setting::SemiTransparentNotifications => text("Semi-Transparent Notifications"),
        Setting::NotificationAlignment => text("Notification Alignment"),
        Setting::MessagesOffsetX => text("Messages X Offset (px)"),
        Setting::MessagesOffsetY => text("Messages Y Offset (px)"),
        Setting::ConnectionMode => text("Connection Mode"),
        Setting::WebsocketPort => text("Websocket Port"),
    }
}

fn setting_description_text(s: Setting) -> (r: Option<String>)
    ensures
        text_view(r) == setting_description(s),
{
    match s {
        Setting::KeybindEnabled => Some(text("Toggle overlay visibility with a keybind")),
        Setting::OverlayKeybind => Some(text("The keybind used to open the overlay")),
        Setting::Display => Some(text("The display to show the overlay on")),
        Setting::SoftwareRendering => Some(
            text("Use software rendering instead of hardware acceleration. Requires restart."),
        ),
        Setting::VoiceMembers => Some(text("Control when and how voice users are visible")),
        Setting::UserRowBackground => Some(
            text("Background color for voice user rows (hex, e.g. #FF252B32)"),
        ),
        Setting::VoiceAlignment => Some(text("Screen position for voice users")),
        Setting::VoiceOffsetX => None,
        Setting::VoiceOffsetY => None,
        Setting::ControlsPosition => Some(text("Position of voice controls bar (top/bottom)")),
        Setting::MessageNotifications => Some(
            text("Show incoming message notifications on the overlay"),
        ),
        Setting::SemiTransparentNotifications => Some(
            text("Fade notifications when the overlay is closed"),
        ),
        Setting::NotificationAlignment => Some(text("Screen position for notifications")),
        Setting::MessagesOffsetX => None,
        Setting::MessagesOffsetY => None,
        Setting::ConnectionMode => Some(
            text(
                "Set the communication method between Lumina and Discord. If using an official client, use \"ipc\", otherwise, use \"websocket\".",
            ),
        ),
        Setting::WebsocketPort => Some(
            text("Port the websocket server listens on (websocket mode only). REQUIRES RESTART."),
        ),
    }
}

fn setting_kind_of(
    s: Setting,
    config: &Config,
    display_names: &Vec<String>,
    default_keys: &Vec<String>,
) -> (r: SettingKind)
    ensures
        kind_view(r) == setting_kind(
            s,
            config@,
            texts_view(display_names@),
            texts_view(default_keys@),
        ),
{
    match s {
        Setting::KeybindEnabled => SettingKind::Toggle(
            match config.is_keybind_enabled {
                Some(b) => b,
                None => true,
            },
        ),
        Setting::OverlayKeybind => SettingKind::Keybind(
            Some(
                match &config.overlay_keybind {
                    Some(k) => copy_texts(k),
                    None => copy_texts(default_keys),
                },
            ),
        ),
        Setting::Display => {
            let chosen = match config.display_idx {
                Some(i) => if i < display_names.len() {
                    Some(display_names[i].clone())
                } else {
                    None
                },
                None => None,
            };
            SettingKind::Dropdown(copy_texts(display_names), chosen)
        },
        Setting::SoftwareRendering => SettingKind::Toggle(
            match config.software_rendering {
                Some(b) => b,
                None => false,
            },
        ),
        Setting::VoiceMembers => {
            let mode = match config.display_voice_members {
                Some(m) => m,
                None => VoiceMembers::default_mode(),
            };
            SettingKind::Dropdown(voice_members_choices(), Some(mode.label()))
        },
        Setting::UserRowBackground => SettingKind::ColorInput(
            Some(text_or(&config.user_row_background, "#FF252B32")),
        ),
        Setting::VoiceAlignment => SettingKind::Dropdown(
            alignments(),
            Some(text_or(&config.user_alignment, "topleft")),
        ),
        Setting::VoiceOffsetX => SettingKind::Slider {
            value: config.user_offset_x,
            min: 0,
            max: 200,
            step: 1,
        },
        Setting::VoiceOffsetY => SettingKind::Slider {
            value: config.user_offset_y,
            min: 0,
            max: 200,
            step: 1,
        },
        Setting::ControlsPosition => SettingKind::Dropdown(
            controls_position_choices(),
            Some(text_or(&config.controls_position, "top")),
        ),
        Setting::MessageNotifications => SettingKind::Toggle(config.enable_message_notifications),
        Setting::SemiTransparentNotifications => SettingKind::Toggle(
            config.messages_semitransparent,
        ),
        Setting::NotificationAlignment => SettingKind::Dropdown(
            alignments(),
            Some(text_or(&config.message_alignment, "topright")),
        ),
        Setting::MessagesOffsetX => SettingKind::Slider {
            value: config.message_offset_x,
            min: 0,
            max: 200,
            step: 1,
        },
        Setting::MessagesOffsetY => SettingKind::Slider {
            value: config.message_offset_y,
            min: 50,
            max: 200,
            step: 1,
        },
        Setting::ConnectionMode => SettingKind::Dropdown(
            transport_choices(),
            Some(transport_label_text(config.transport_mode)),
        ),
        Setting::WebsocketPort => {
            let port: u16 = match config.port {
                Some(p) => p,
                None => 6888,
            };
            SettingKind::Input(Some(decimal_string(port as u64)))
        },
    }
}

/// The row of a setting for the given configuration. `display_names` are the
/// displays the display row offers, `default_keys` the keybind shown while
/// none is configured.
pub fn setting_row(
    s: Setting,
    config: &Config,
    display_names: &Vec<String>,
    default_keys: &Vec<String>,
) -> (r: SettingRow)
    ensures
        row_view(r) == setting_row_view(
            s,
            config@,
            texts_view(display_names@),
            texts_view(default_keys@),
        ),
{
    let disabled = match s {
        Setting::OverlayKeybind => !match config.is_keybind_enabled {
            Some(b) => b,
            None => true,
        },
        Setting::WebsocketPort => config.transport_mode != TransportMode::Websocket,
        _ => false,
    };
    SettingRow {
        setting: s,
        name: setting_name_text(s),
        description: setting_description_text(s),
        kind: setting_kind_of(s, config, display_names, default_keys),
        disabled,
    }
}

/// Whether a divider line follows the row of a setting.
pub fn divider_after(s: Setting) -> (r: bool)
    ensures
        r == has_divider_after(s),
{
    !(s == Setting::VoiceAlignment || s == Setting::VoiceOffsetX
        || s == Setting::SemiTransparentNotifications || s == Setting::MessagesOffsetX)
}

/// The rows of the settings window, top to bottom.
pub fn setting_rows(
    config: &Config,
    display_names: &Vec<String>,
    default_keys: &Vec<String>,
    keybinds: bool,
) -> (r: Vec<SettingRow>)
    ensures
        r@.len() == row_order(keybinds).len(),
        forall|i: int|
            0 <= i < r@.len() ==> row_view(#[trigger] r@[i]) == setting_row_view(
                row_order(keybinds)[i],
                config@,
                texts_view(display_names@),
                texts_view(default_keys@),
            ),
{
    let mut order: Vec<Setting> = Vec::new();
    if keybinds {
        order.push(Setting::KeybindEnabled);
        order.push(Setting::OverlayKeybind);
    }
    order.push(Setting::Display);
    order.push(Setting::SoftwareRendering);
    order.push(Setting::VoiceMembers);
    order.push(Setting::UserRowBackground);
    order.push(Setting::VoiceAlignment);
    order.push(Setting::VoiceOffsetX);
    order.push(Setting::VoiceOffsetY);
    order.push(Setting::ControlsPosition);
    order.push(Setting::MessageNotifications);
    order.push(Setting::SemiTransparentNotifications);
    order.push(Setting::NotificationAlignment);
    order.push(Setting::MessagesOffsetX);
    order.push(Setting::MessagesOffsetY);
    order.push(Setting::ConnectionMode);
    order.push(Setting::WebsocketPort);
    assert(order@ =~= row_order(keybinds));
    let mut rows: Vec<SettingRow> = Vec::new();
    let mut i: usize = 0;
    while i < order.len()
        invariant
            i <= order@.len(),
            order@ == row_order(keybinds),
            rows@.len() == i,
            forall|k: int|
                0 <= k < i ==> row_view(#[trigger] rows@[k]) == setting_row_view(
                    order@[k],
                    config@,
                    texts_view(display_names@),
                    texts_view(default_keys@),
                ),
        decreases order@.len() - i,
    {
        rows.push(setting_row(order[i], config, display_names, default_keys));
        i = i + 1;
    }
    rows
}

// ---------------------------------------------------------------------------
// Labels
// ---------------------------------------------------------------------------

/// How the display row names a display: its name, then its size as
/// "(width x height)" without spaces.
pub open spec fn display_label_text(name: Seq<char>, width: nat, height: nat) -> Seq<char> {
    name + " ("@ + decimal(width) + "x"@ + decimal(height) + ")"@
}

/// The display row's name for a display.
pub fn display_label(name: &str, width: u32, height: u32) -> (r: String)
    ensures
        r@ == display_label_text(name@, width as nat, height as nat),
{
    let mut s = String::from_str(name);
    s.append(" (");
    push_decimal(&mut s, width as u64);
    s.append("x");
    push_decimal(&mut s, height as u64);
    s.append(")");
    assert(s@ =~= display_label_text(name@, width as nat, height as nat));
    s
}

/// The label of the button that opens the folder of the configuration.
pub fn config_folder_label(path: &str) -> (r: String)
    ensures
        r@ == "Open config folder: "@ + path@,
{
    let mut s = String::from_str("Open config folder: ");
    s.append(path);
    s
}

// ---------------------------------------------------------------------------
// Laws
// ---------------------------------------------------------------------------

/// What a row's control hands over when its current value is submitted
/// again: a toggle its state as "true" or "false", a dropdown, input or
/// colour field the text it shows, a slider its value in decimal, a keybind
/// field its keys. A control that shows nothing hands over nothing.
pub open spec fn resubmission(k: KindView) -> Option<ChangeView> {
    match k {
        KindView::Toggle(b) => Some(
            ChangeView::Value(
                if b {
                    "true"@
                } else {
                    "false"@
                },
            ),
        ),
        KindView::Dropdown(_, Some(x)) => Some(ChangeView::Value(x)),
        KindView::Input(Some(x)) => Some(ChangeView::Value(x)),
        KindView::ColorInput(Some(x)) => Some(ChangeView::Value(x)),
        KindView::Slider { value, .. } => Some(ChangeView::Value(signed_decimal(value as int))),
        KindView::Keybind(Some(k)) => Some(ChangeView::Keys(k)),
        _ => None,
    }
}

proof fn lemma_position_of(s: Seq<Seq<char>>, v: Seq<char>)
    ensures
        position_of(s, v) matches Some(j) ==> 0 <= j < s.len() && s[j] == v,
        s.contains(v) ==> position_of(s, v) is Some,
    decreases s.len(),
{
    if s.len() > 0 {
        lemma_position_of(s.drop_first(), v);
        if s.contains(v) && s[0] != v {
            let j = choose|j: int| 0 <= j < s.len() && s[j] == v;
            assert(s.drop_first()[j - 1] == v);
        }
    }
}

/// A text that neither begins nor ends with whitespace is its own trim.
proof fn lemma_trim_keeps(s: Seq<char>)
    requires
        s.len() > 0,
        !is_white_space(s[0]),
        !is_white_space(s.last()),
    ensures
        trimmed(s) == s,
{
    assert(trim_front(s) == s);
    assert(trim_back(s) == s);
}

proof fn lemma_decimal_has_no_white_space(n: int)
    ensures
        signed_decimal(n).len() > 0,
        !is_white_space(signed_decimal(n)[0]),
        !is_white_space(signed_decimal(n).last()),
{
    let m: nat = if n < 0 {
        (-n) as nat
    } else {
        n as nat
    };
    lemma_decimal_digits(m);
    let d = decimal(m);
    assert(is_digit(d[0]));
    assert(is_digit(d[d.len() - 1]));
    if n < 0 {
        let t = signed_decimal(n);
        assert(t.last() == d.last());
    }
}

/// Submitting the value a row shows leaves the row as it was: the change
/// reads back to the configuration what the row was showing.
pub proof fn lemma_resubmit_keeps_row(
    s: Setting,
    c: ConfigView,
    display_names: Seq<Seq<char>>,
    default_keys: Seq<Seq<char>>,
)
    requires
        display_names.len() <= usize::MAX,
    ensures
        match resubmission(setting_kind(s, c, display_names, default_keys)) {
            Some(ch) => setting_row_view(
                s,
                changed_config(c, s, ch, display_names),
                display_names,
                default_keys,
            ) == setting_row_view(s, c, display_names, default_keys),
            None => true,
        },
{
    reveal_strlit("true");
    reveal_strlit("false");
    reveal_strlit("always (opaque)");
    reveal_strlit("always (transparent)");
    reveal_strlit("only when speaking");
    reveal_strlit("ipc");
    reveal_strlit("websocket");
    match s {
        Setting::Display => {
            if let Some(i) = c.display_idx {
                if i < display_names.len() {
                    let v = display_names[i as int];
                    assert(display_names.contains(v));
                    lemma_position_of(display_names, v);
                }
            }
        },
        Setting::VoiceOffsetX => {
            lemma_decimal_has_no_white_space(c.user_offset_x as int);
            lemma_trim_keeps(signed_decimal(c.user_offset_x as int));
            lemma_parse_decimal(c.user_offset_x as int, true, i32::MIN as int, i32::MAX as int);
        },
        Setting::VoiceOffsetY => {
            lemma_decimal_has_no_white_space(c.user_offset_y as int);
            lemma_trim_keeps(signed_decimal(c.user_offset_y as int));
            lemma_parse_decimal(c.user_offset_y as int, true, i32::MIN as int, i32::MAX as int);
        },
        Setting::MessagesOffsetX => {
            lemma_decimal_has_no_white_space(c.message_offset_x as int);
            lemma_trim_keeps(signed_decimal(c.message_offset_x as int));
            lemma_parse_decimal(c.message_offset_x as int, true, i32::MIN as int, i32::MAX as int);
        },
        Setting::MessagesOffsetY => {
            lemma_decimal_has_no_white_space(c.message_offset_y as int);
            lemma_trim_keeps(signed_decimal(c.message_offset_y as int));
            lemma_parse_decimal(c.message_offset_y as int, true, i32::MIN as int, i32::MAX as int);
        },
        Setting::WebsocketPort => {
            let p: int = match c.port {
                Some(p) => p as int,
                None => 6888,
            };
            lemma_decimal_has_no_white_space(p);
            lemma_trim_keeps(signed_decimal(p));
            lemma_parse_decimal(p, false, 0, u16::MAX as int);
        },
        _ => {},
    }
}

/// A change in one row leaves every other row as it was, except that the
/// keybind toggle greys the keybind row in or out and the connection mode
/// greys the port row in or out.
pub proof fn lemma_change_keeps_other_rows(
    s: Setting,
    t: Setting,
    c: ConfigView,
    ch: ChangeView,
    display_names: Seq<Seq<char>>,
    default_keys: Seq<Seq<char>>,
)
    requires
        s != t,
        !(s == Setting::KeybindEnabled && t == Setting::OverlayKeybind),
        !(s == Setting::ConnectionMode && t == Setting::WebsocketPort),
    ensures
        setting_row_view(t, changed_config(c, s, ch, display_names), display_names, default_keys)
            == setting_row_view(t, c, display_names, default_keys),
{
}

/// Whatever the configuration was, a change in a row takes effect on that
/// row's setting: a toggle is on after "true" and off after "false"; a text
/// row holds the text it was given; an offset or port row holds the number
/// its text reads as (after trimming), and keeps its value when the text
/// reads as no number; the display row holds the place of the display named;
/// the voice display and connection rows hold the mode named; the keybind
/// row holds the keys it was given.
pub proof fn lemma_changes_take_effect(
    c: ConfigView,
    names: Seq<Seq<char>>,
    v: Seq<char>,
    keys: Seq<Seq<char>>,
    n: i32,
    p: u16,
    k: int,
    m: VoiceMembers,
    t: TransportMode,
)
    requires
        names.len() <= usize::MAX,
    ensures
        changed_config(c, Setting::KeybindEnabled, ChangeView::Value("true"@), names).is_keybind_enabled
            == Some(true),
        changed_config(c, Setting::KeybindEnabled, ChangeView::Value("false"@), names).is_keybind_enabled
            == Some(false),
        changed_config(c, Setting::SoftwareRendering, ChangeView::Value("true"@), names).software_rendering
            == Some(true),
        changed_config(c, Setting::SoftwareRendering, ChangeView::Value("false"@), names).software_rendering
            == Some(false),
        changed_config(c, Setting::MessageNotifications, ChangeView::Value("true"@), names).enable_message_notifications,
        !changed_config(c, Setting::MessageNotifications, ChangeView::Value("false"@), names).enable_message_notifications,
        changed_config(c, Setting::SemiTransparentNotifications, ChangeView::Value("true"@), names).messages_semitransparent,
        !changed_config(c, Setting::SemiTransparentNotifications, ChangeView::Value("false"@), names).messages_semitransparent,
        changed_config(c, Setting::UserRowBackground, ChangeView::Value(v), names).user_row_background
            == Some(v),
        changed_config(c, Setting::VoiceAlignment, ChangeView::Value(v), names).user_alignment
            == Some(v),
        changed_config(c, Setting::ControlsPosition, ChangeView::Value(v), names).controls_position
            == Some(v),
        changed_config(c, Setting::NotificationAlignment, ChangeView::Value(v), names).message_alignment
            == Some(v),
        changed_config(c, Setting::VoiceOffsetX, ChangeView::Value(signed_decimal(n as int)), names).user_offset_x
            == n,
        changed_config(c, Setting::VoiceOffsetY, ChangeView::Value(signed_decimal(n as int)), names).user_offset_y
            == n,
        changed_config(c, Setting::MessagesOffsetX, ChangeView::Value(signed_decimal(n as int)), names).message_offset_x
            == n,
        changed_config(c, Setting::MessagesOffsetY, ChangeView::Value(signed_decimal(n as int)), names).message_offset_y
            == n,
        offset_value(v) == Some(n as int) ==> {
            &&& changed_config(c, Setting::VoiceOffsetX, ChangeView::Value(v), names).user_offset_x
                == n
            &&& changed_config(c, Setting::VoiceOffsetY, ChangeView::Value(v), names).user_offset_y
                == n
            &&& changed_config(c, Setting::MessagesOffsetX, ChangeView::Value(v), names).message_offset_x
                == n
            &&& changed_config(c, Setting::MessagesOffsetY, ChangeView::Value(v), names).message_offset_y
                == n
        },
        offset_value(v) is None ==> {
            &&& changed_config(c, Setting::VoiceOffsetX, ChangeView::Value(v), names) == c
            &&& changed_config(c, Setting::VoiceOffsetY, ChangeView::Value(v), names) == c
            &&& changed_config(c, Setting::MessagesOffsetX, ChangeView::Value(v), names) == c
            &&& changed_config(c, Setting::MessagesOffsetY, ChangeView::Value(v), names) == c
        },
        changed_config(c, Setting::WebsocketPort, ChangeView::Value(decimal(p as nat)), names).port
            == Some(p),
        port_value(v) == Some(p as int) ==> changed_config(
            c,
            Setting::WebsocketPort,
            ChangeView::Value(v),
            names,
        ).port == Some(p),
        port_value(v) is None ==> changed_config(c, Setting::WebsocketPort, ChangeView::Value(v), names)
            == c,
        0 <= k < names.len() && (forall|j: int|
            0 <= j < names.len() && j != k ==> #[trigger] names[j] != names[k]) ==> changed_config(
            c,
            Setting::Display,
            ChangeView::Value(names[k]),
            names,
        ).display_idx == Some(k as usize),
        (forall|j: int| 0 <= j < names.len() ==> #[trigger] names[j] != v) ==> changed_config(
            c,
            Setting::Display,
            ChangeView::Value(v),
            names,
        ) == c,
        changed_config(c, Setting::VoiceMembers, ChangeView::Value(voice_members_label(m)), names).display_voice_members
            == Some(m),
        changed_config(c, Setting::ConnectionMode, ChangeView::Value(transport_label(t)), names).transport_mode
            == t,
        changed_config(c, Setting::OverlayKeybind, ChangeView::Keys(keys), names).overlay_keybind
            == Some(keys),
{
    reveal_strlit("true");
    reveal_strlit("false");
    reveal_strlit("always (opaque)");
    reveal_strlit("always (transparent)");
    reveal_strlit("only when speaking");
    reveal_strlit("ipc");
    reveal_strlit("websocket");
    lemma_decimal_has_no_white_space(n as int);
    lemma_trim_keeps(signed_decimal(n as int));
    lemma_parse_decimal(n as int, true, i32::MIN as int, i32::MAX as int);
    lemma_decimal_has_no_white_space(p as int);
    lemma_trim_keeps(signed_decimal(p as int));
    lemma_parse_decimal(p as int, false, 0, u16::MAX as int);
    lemma_position_unique(names, k);
    lemma_position_absent(names, v);
}

proof fn lemma_position_unique(s: Seq<Seq<char>>, k: int)
    ensures
        0 <= k < s.len() && (forall|j: int| 0 <= j < s.len() && j != k ==> #[trigger] s[j] != s[k])
            ==> position_of(s, s[k]) == Some(k),
    decreases s.len(),
{
    if 0 <= k < s.len() && (forall|j: int| 0 <= j < s.len() && j != k ==> #[trigger] s[j] != s[k])
        && k > 0 {
        let rest = s.drop_first();
        assert(s[0] != s[k]);
        assert(rest[k - 1] == s[k]);
        assert forall|j: int| 0 <= j < rest.len() && j != k - 1 implies #[trigger] rest[j] != rest[k
            - 1] by {
            assert(rest[j] == s[j + 1]);
        }
        lemma_position_unique(rest, k - 1);
    }
}

proof fn lemma_position_absent(s: Seq<Seq<char>>, v: Seq<char>)
    ensures
        (forall|j: int| 0 <= j < s.len() ==> #[trigger] s[j] != v) ==> position_of(s, v) is None,
    decreases s.len(),
{
    if s.len() > 0 && (forall|j: int| 0 <= j < s.len() ==> #[trigger] s[j] != v) {
        let rest = s.drop_first();
        assert(s[0] != v);
        assert forall|j: int| 0 <= j < rest.len() implies #[trigger] rest[j] != v by {
            assert(rest[j] == s[j + 1]);
        }
        lemma_position_absent(rest, v);
    }
}

/// What the rows show of a configuration: the keybind toggle is on unless
/// keybinds were turned off, and on exactly when the keybind row is not
/// greyed out; software rendering is off unless turned on; each offset
/// slider shows its offset over 0 to 200 (50 to 200 for the messages' Y
/// offset) in steps of 1; the port field shows the port, or 6888 when none
/// is set, and is greyed out exactly outside websocket mode; the keybind
/// field shows the configured keys, or the default ones.
pub proof fn lemma_rows_show_config(
    c: ConfigView,
    names: Seq<Seq<char>>,
    default_keys: Seq<Seq<char>>,
)
    ensures
        setting_kind(Setting::KeybindEnabled, c, names, default_keys) == KindView::Toggle(
            c.is_keybind_enabled != Some(false),
        ),
        setting_kind(Setting::KeybindEnabled, c, names, default_keys) == KindView::Toggle(
            !setting_disabled(Setting::OverlayKeybind, c),
        ),
        c.is_keybind_enabled is None ==> setting_kind(Setting::KeybindEnabled, c, names, default_keys)
            == KindView::Toggle(true),
        setting_disabled(Setting::OverlayKeybind, c) == (c.is_keybind_enabled == Some(false)),
        setting_kind(Setting::SoftwareRendering, c, names, default_keys) == KindView::Toggle(
            c.software_rendering == Some(true),
        ),
        setting_kind(Setting::MessageNotifications, c, names, default_keys) == KindView::Toggle(
            c.enable_message_notifications,
        ),
        setting_kind(Setting::SemiTransparentNotifications, c, names, default_keys)
            == KindView::Toggle(c.messages_semitransparent),
        setting_kind(Setting::VoiceOffsetX, c, names, default_keys) == (KindView::Slider {
            value: c.user_offset_x,
            min: 0,
            max: 200,
            step: 1,
        }),
        setting_kind(Setting::VoiceOffsetY, c, names, default_keys) == (KindView::Slider {
            value: c.user_offset_y,
            min: 0,
            max: 200,
            step: 1,
        }),
        setting_kind(Setting::MessagesOffsetX, c, names, default_keys) == (KindView::Slider {
            value: c.message_offset_x,
            min: 0,
            max: 200,
            step: 1,
        }),
        setting_kind(Setting::MessagesOffsetY, c, names, default_keys) == (KindView::Slider {
            value: c.message_offset_y,
            min: 50,
            max: 200,
            step: 1,
        }),
        c.port matches Some(p) ==> setting_kind(Setting::WebsocketPort, c, names, default_keys)
            == KindView::Input(Some(decimal(p as nat))),
        c.port is None ==> setting_kind(Setting::WebsocketPort, c, names, default_keys)
            == KindView::Input(Some("6888"@)),
        setting_disabled(Setting::WebsocketPort, c) == (c.transport_mode == TransportMode::Ipc),
        c.overlay_keybind matches Some(k) ==> setting_kind(
            Setting::OverlayKeybind,
            c,
            names,
            default_keys,
        ) == KindView::Keybind(Some(k)),
        c.overlay_keybind is None ==> setting_kind(Setting::OverlayKeybind, c, names, default_keys)
            == KindView::Keybind(Some(default_keys)),
        forall|s: Setting|
            s != Setting::OverlayKeybind && s != Setting::WebsocketPort ==> !#[trigger] setting_disabled(s, c),
{
    reveal_strlit("6888");
    assert(decimal(6888) =~= "6888"@) by {
        reveal_with_fuel(decimal, 5);
    }
}

/// The settings window has one row per setting, none twice; the two keybind
/// rows come first where keybinds are supported and are absent elsewhere.
pub proof fn lemma_row_order_rules(keybinds: bool, s: Setting)
    ensures
        row_order(keybinds).no_duplicates(),
        row_order(keybinds).contains(s) == (keybinds || (s != Setting::KeybindEnabled && s
            != Setting::OverlayKeybind)),
        keybinds ==> row_order(true)[0] == Setting::KeybindEnabled && row_order(true)[1]
            == Setting::OverlayKeybind,
{
    let o = row_order(keybinds);
    let off: int = if keybinds { 2 } else { 0 };
    assert(o.len() == 15 + off);
    if keybinds {
        assert(o[0] == Setting::KeybindEnabled);
        assert(o[1] == Setting::OverlayKeybind);
    }
    assert(o[off] == Setting::Display);
    assert(o[off + 1] == Setting::SoftwareRendering);
    assert(o[off + 2] == Setting::VoiceMembers);
    assert(o[off + 3] == Setting::UserRowBackground);
    assert(o[off + 4] == Setting::VoiceAlignment);
    assert(o[off + 5] == Setting::VoiceOffsetX);
    assert(o[off + 6] == Setting::VoiceOffsetY);
    assert(o[off + 7] == Setting::ControlsPosition);
    assert(o[off + 8] == Setting::MessageNotifications);
    assert(o[off + 9] == Setting::SemiTransparentNotifications);
    assert(o[off + 10] == Setting::NotificationAlignment);
    assert(o[off + 11] == Setting::MessagesOffsetX);
    assert(o[off + 12] == Setting::MessagesOffsetY);
    assert(o[off + 13] == Setting::ConnectionMode);
    assert(o[off + 14] == Setting::WebsocketPort);
    if !keybinds {
        assert forall|i: int| 0 <= i < o.len() implies o[i] != Setting::KeybindEnabled && o[i]
            != Setting::OverlayKeybind by {}
    }
}

} // verus!
