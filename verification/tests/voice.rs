use lumina::bridge::BridgeCommand;
use lumina::voice::{
    control_command, control_shade, voice_control_buttons, ButtonShade, ControlAction,
    ControlIcon, TransportMode, VoiceState,
};

#[test]
fn idle_user_over_ipc() {
    let b = voice_control_buttons(VoiceState::Idle, false, TransportMode::Ipc);
    let icons: Vec<ControlIcon> = b.iter().map(|b| b.icon).collect();
    assert_eq!(
        icons,
        vec![
            ControlIcon::Mute,
            ControlIcon::Deafen,
            ControlIcon::Soundboard,
            ControlIcon::Disconnect,
            ControlIcon::Settings
        ]
    );
    let red: Vec<bool> = b.iter().map(|b| b.is_red).collect();
    assert_eq!(red, vec![false, false, false, true, false]);
}

#[test]
fn deafened_streaming_user_over_websocket() {
    let b = voice_control_buttons(VoiceState::Deafened, true, TransportMode::Websocket);
    let icons: Vec<ControlIcon> = b.iter().map(|b| b.icon).collect();
    assert_eq!(
        icons,
        vec![
            ControlIcon::Muted,
            ControlIcon::Deafened,
            ControlIcon::Disconnect,
            ControlIcon::StopStream,
            ControlIcon::Settings
        ]
    );
    assert!(b[0].is_red && b[1].is_red && b[3].is_red);
}

#[test]
fn muted_user_shows_red_mute_only() {
    let b = voice_control_buttons(VoiceState::Muted, false, TransportMode::Websocket);
    assert_eq!(b[0].icon, ControlIcon::Muted);
    assert!(b[0].is_red);
    assert_eq!(b[1].icon, ControlIcon::Deafen);
    assert!(!b[1].is_red);
}

#[test]
fn commands_of_controls() {
    assert_eq!(control_command(ControlAction::ToggleMute), Some(BridgeCommand::ToggleMute));
    assert_eq!(control_command(ControlAction::ToggleDeaf), Some(BridgeCommand::ToggleDeaf));
    assert_eq!(control_command(ControlAction::Disconnect), Some(BridgeCommand::Disconnect));
    assert_eq!(control_command(ControlAction::StopStream), Some(BridgeCommand::StopStream));
    assert_eq!(control_command(ControlAction::ToggleSoundboard), None);
    assert_eq!(control_command(ControlAction::OpenSettings), None);
    assert_eq!(BridgeCommand::ToggleMute.name(), "TOGGLE_MUTE");
    assert_eq!(BridgeCommand::ToggleDeaf.name(), "TOGGLE_DEAF");
    assert_eq!(BridgeCommand::Disconnect.name(), "DISCONNECT");
    assert_eq!(BridgeCommand::StopStream.name(), "STOP_STREAM");
    let nav = BridgeCommand::Navigate {
        guild_id: None,
        channel_id: Some("2".to_string()),
        message_id: Some("3".to_string()),
    };
    assert_eq!(nav.name(), "NAVIGATE");
}

#[test]
fn shades() {
    assert_eq!(control_shade(false, true), ButtonShade::Transparent);
    assert_eq!(control_shade(true, true), ButtonShade::RedGray);
    assert_eq!(control_shade(true, false), ButtonShade::LightGray);
}
