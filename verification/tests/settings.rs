use lumina::settings::{
    apply_change, config_folder_label, display_label, divider_after, setting_row, setting_rows,
    Config, Setting, SettingChange, SettingKind, VoiceMembers,
};
use lumina::voice::TransportMode;

fn config() -> Config {
    Config {
        is_keybind_enabled: None,
        overlay_keybind: None,
        display_idx: None,
        software_rendering: None,
        display_voice_members: None,
        user_row_background: None,
        user_alignment: None,
        user_offset_x: 0,
        user_offset_y: 0,
        controls_position: None,
        enable_message_notifications: true,
        messages_semitransparent: false,
        message_alignment: None,
        message_offset_x: 0,
        message_offset_y: 50,
        transport_mode: TransportMode::Ipc,
        port: None,
    }
}

fn displays() -> Vec<String> {
    vec!["Main (1920x1080)".to_string(), "Side (1280x1024)".to_string()]
}

fn value(s: &str) -> SettingChange {
    SettingChange::Value(s.to_string())
}

#[test]
fn toggles_read_true() {
    let mut c = config();
    apply_change(&mut c, Setting::KeybindEnabled, value("false"), &displays());
    assert_eq!(c.is_keybind_enabled, Some(false));
    apply_change(&mut c, Setting::SoftwareRendering, value("true"), &displays());
    assert_eq!(c.software_rendering, Some(true));
    apply_change(&mut c, Setting::MessageNotifications, value("yes"), &displays());
    assert!(!c.enable_message_notifications);
    apply_change(&mut c, Setting::SemiTransparentNotifications, value("true"), &displays());
    assert!(c.messages_semitransparent);
}

#[test]
fn display_choice_by_name() {
    let mut c = config();
    apply_change(&mut c, Setting::Display, value("Side (1280x1024)"), &displays());
    assert_eq!(c.display_idx, Some(1));
    apply_change(&mut c, Setting::Display, value("Gone"), &displays());
    assert_eq!(c.display_idx, Some(1));
}

#[test]
fn offsets_and_port_parse() {
    let mut c = config();
    apply_change(&mut c, Setting::VoiceOffsetX, value(" 120 "), &displays());
    assert_eq!(c.user_offset_x, 120);
    apply_change(&mut c, Setting::VoiceOffsetY, value("-7"), &displays());
    assert_eq!(c.user_offset_y, -7);
    apply_change(&mut c, Setting::MessagesOffsetX, value("abc"), &displays());
    assert_eq!(c.message_offset_x, 0);
    apply_change(&mut c, Setting::MessagesOffsetY, value("60"), &displays());
    assert_eq!(c.message_offset_y, 60);
    apply_change(&mut c, Setting::WebsocketPort, value("7000"), &displays());
    assert_eq!(c.port, Some(7000));
    apply_change(&mut c, Setting::WebsocketPort, value("70000"), &displays());
    assert_eq!(c.port, Some(7000));
}

#[test]
fn texts_and_modes() {
    let mut c = config();
    apply_change(&mut c, Setting::UserRowBackground, value("#FF000000"), &displays());
    assert_eq!(c.user_row_background, Some("#FF000000".to_string()));
    apply_change(&mut c, Setting::VoiceAlignment, value("bottomright"), &displays());
    assert_eq!(c.user_alignment, Some("bottomright".to_string()));
    apply_change(&mut c, Setting::NotificationAlignment, value("topleft"), &displays());
    assert_eq!(c.message_alignment, Some("topleft".to_string()));
    apply_change(&mut c, Setting::ControlsPosition, value("bottom"), &displays());
    assert_eq!(c.controls_position, Some("bottom".to_string()));
    apply_change(&mut c, Setting::ConnectionMode, value("websocket"), &displays());
    assert_eq!(c.transport_mode, TransportMode::Websocket);
    apply_change(&mut c, Setting::VoiceMembers, value("only when speaking"), &displays());
    assert_eq!(c.display_voice_members, Some(VoiceMembers::OnlyWhenSpeaking));
}

#[test]
fn keybind_change_takes_keys_only() {
    let mut c = config();
    let keys = vec!["ControlLeft".to_string(), "KeyO".to_string()];
    apply_change(&mut c, Setting::OverlayKeybind, SettingChange::Keys(keys.clone()), &displays());
    assert_eq!(c.overlay_keybind, Some(keys.clone()));
    apply_change(&mut c, Setting::OverlayKeybind, value("x"), &displays());
    assert_eq!(c.overlay_keybind, Some(keys.clone()));
    apply_change(&mut c, Setting::VoiceAlignment, SettingChange::Keys(keys), &displays());
    assert_eq!(c.user_alignment, None);
}

#[test]
fn rows_in_order() {
    let c = config();
    let rows = setting_rows(&c, &displays(), &vec!["KeyO".to_string()], true);
    assert_eq!(rows.len(), 17);
    assert_eq!(rows[0].name, "Enable Keybind");
    assert_eq!(rows[16].name, "Websocket Port");
    let rows = setting_rows(&c, &displays(), &Vec::new(), false);
    assert_eq!(rows.len(), 15);
    assert_eq!(rows[0].name, "Display");
    assert_eq!(rows[0].description.as_deref(), Some("The display to show the overlay on"));
}

#[test]
fn row_values_and_greying() {
    let mut c = config();
    let keys = vec!["KeyO".to_string()];
    let row = setting_row(Setting::WebsocketPort, &c, &displays(), &keys);
    match &row.kind {
        SettingKind::Input(Some(v)) => assert_eq!(v, "6888"),
        _ => panic!("port row is an input"),
    }
    assert!(row.disabled);
    let row = setting_row(Setting::OverlayKeybind, &c, &displays(), &keys);
    match &row.kind {
        SettingKind::Keybind(Some(k)) => assert_eq!(k, &keys),
        _ => panic!("keybind row"),
    }
    assert!(!row.disabled);
    c.is_keybind_enabled = Some(false);
    c.transport_mode = TransportMode::Websocket;
    assert!(setting_row(Setting::OverlayKeybind, &c, &displays(), &keys).disabled);
    assert!(!setting_row(Setting::WebsocketPort, &c, &displays(), &keys).disabled);
    let row = setting_row(Setting::VoiceMembers, &c, &displays(), &keys);
    match &row.kind {
        SettingKind::Dropdown(opts, Some(v)) => {
            assert_eq!(opts.len(), 3);
            assert_eq!(v, "always (opaque)");
        }
        _ => panic!("voice members row is a dropdown"),
    }
    let row = setting_row(Setting::MessagesOffsetY, &c, &displays(), &keys);
    match row.kind {
        SettingKind::Slider { value, min, max, step } => {
            assert_eq!((value, min, max, step), (50, 50, 200, 1));
        }
        _ => panic!("offset row is a slider"),
    }
    let row = setting_row(Setting::Display, &c, &displays(), &keys);
    match &row.kind {
        SettingKind::Dropdown(_, None) => {}
        _ => panic!("no display chosen"),
    }
}

fn shown_value(kind: &SettingKind) -> Option<SettingChange> {
    match kind {
        SettingKind::Toggle(b) => Some(value(if *b { "true" } else { "false" })),
        SettingKind::Dropdown(_, Some(x)) | SettingKind::Input(Some(x)) | SettingKind::ColorInput(Some(x)) => {
            Some(value(x))
        }
        SettingKind::Slider { value: v, .. } => Some(value(&v.to_string())),
        SettingKind::Keybind(Some(k)) => Some(SettingChange::Keys(k.clone())),
        _ => None,
    }
}

fn same_row(a: &lumina::settings::SettingRow, b: &lumina::settings::SettingRow) -> bool {
    let kind_eq = match (&a.kind, &b.kind) {
        (SettingKind::Toggle(x), SettingKind::Toggle(y)) => x == y,
        (SettingKind::Dropdown(o1, c1), SettingKind::Dropdown(o2, c2)) => o1 == o2 && c1 == c2,
        (SettingKind::Input(x), SettingKind::Input(y)) => x == y,
        (SettingKind::ColorInput(x), SettingKind::ColorInput(y)) => x == y,
        (
            SettingKind::Slider { value: v1, min: a1, max: b1, step: s1 },
            SettingKind::Slider { value: v2, min: a2, max: b2, step: s2 },
        ) => (v1, a1, b1, s1) == (v2, a2, b2, s2),
        (SettingKind::Keybind(x), SettingKind::Keybind(y)) => x == y,
        _ => false,
    };
    kind_eq && a.name == b.name && a.description == b.description && a.disabled == b.disabled
}

#[test]
fn resubmitting_shown_values_keeps_rows() {
    let mut c = config();
    c.display_idx = Some(1);
    c.user_offset_x = -12;
    c.port = Some(9000);
    let keys = vec!["KeyO".to_string()];
    for base in [config(), c] {
        let rows = setting_rows(&base, &displays(), &keys, true);
        for row in rows {
            if let Some(change) = shown_value(&row.kind) {
                let mut changed = clone_config(&base);
                apply_change(&mut changed, row.setting, change, &displays());
                let again = setting_row(row.setting, &changed, &displays(), &keys);
                assert!(same_row(&row, &again), "row {}", row.name);
            }
        }
    }
}

fn clone_config(c: &Config) -> Config {
    Config {
        is_keybind_enabled: c.is_keybind_enabled,
        overlay_keybind: c.overlay_keybind.clone(),
        display_idx: c.display_idx,
        software_rendering: c.software_rendering,
        display_voice_members: c.display_voice_members,
        user_row_background: c.user_row_background.clone(),
        user_alignment: c.user_alignment.clone(),
        user_offset_x: c.user_offset_x,
        user_offset_y: c.user_offset_y,
        controls_position: c.controls_position.clone(),
        enable_message_notifications: c.enable_message_notifications,
        messages_semitransparent: c.messages_semitransparent,
        message_alignment: c.message_alignment.clone(),
        message_offset_x: c.message_offset_x,
        message_offset_y: c.message_offset_y,
        transport_mode: c.transport_mode,
        port: c.port,
    }
}

#[test]
fn change_leaves_other_rows() {
    let c = config();
    let keys = vec!["KeyO".to_string()];
    let before = setting_rows(&c, &displays(), &keys, true);
    let mut changed = clone_config(&c);
    apply_change(&mut changed, Setting::VoiceOffsetX, value("33"), &displays());
    let after = setting_rows(&changed, &displays(), &keys, true);
    for (a, b) in before.iter().zip(after.iter()) {
        if a.setting != Setting::VoiceOffsetX {
            assert!(same_row(a, b), "row {}", a.name);
        } else {
            assert!(!same_row(a, b));
        }
    }
}

#[test]
fn labels() {
    assert_eq!(display_label("DELL U2720Q", 3840, 2160), "DELL U2720Q (3840x2160)");
    assert_eq!(config_folder_label("/home/a/.config/lumina"), "Open config folder: /home/a/.config/lumina");
    assert!(divider_after(Setting::Display));
    assert!(!divider_after(Setting::VoiceAlignment));
    assert!(!divider_after(Setting::MessagesOffsetX));
    assert!(divider_after(Setting::WebsocketPort));
}

#[test]
fn unknown_labels_convert_to_defaults() {
    let mut c = config();
    c.transport_mode = TransportMode::Websocket;
    apply_change(&mut c, Setting::VoiceMembers, value("bogus"), &displays());
    assert_eq!(c.display_voice_members, Some(VoiceMembers::AlwaysOpaque));
    apply_change(&mut c, Setting::ConnectionMode, value("bogus"), &displays());
    assert_eq!(c.transport_mode, TransportMode::Ipc);
    apply_change(&mut c, Setting::VoiceMembers, value("always (transparent)"), &displays());
    assert_eq!(c.display_voice_members, Some(VoiceMembers::AlwaysTransparent));
    apply_change(&mut c, Setting::ConnectionMode, value("ipc"), &displays());
    assert_eq!(c.transport_mode, TransportMode::Ipc);
}
