//! The voice controls bar: which buttons it holds, how they look and what
//! each one does.
use vstd::prelude::*;

use crate::bridge::{command_name, BridgeCommand};

verus! {

/// What a voice user is doing.
#[derive(PartialEq, Eq, Structural, Clone, Copy, Debug)]
pub enum VoiceState {
    Idle,
    Speaking,
    Muted,
    Deafened,
}

/// How the overlay talks to the Discord client.
#[derive(PartialEq, Eq, Structural, Clone, Copy, Debug)]
pub enum TransportMode {
    Ipc,
    Websocket,
}

/// The icon on a control button.
#[derive(PartialEq, Eq, Structural, Clone, Copy, Debug)]
pub enum ControlIcon {
    Mute,
    Muted,
    Deafen,
    Deafened,
    Soundboard,
    Disconnect,
    StopStream,
    Settings,
}

/// What pressing a control button does.
#[derive(PartialEq, Eq, Structural, Clone, Copy, Debug)]
pub enum ControlAction {
    ToggleMute,
    ToggleDeaf,
    ToggleSoundboard,
    Disconnect,
    StopStream,
    OpenSettings,
}

/// One button of the voice controls bar.
#[derive(PartialEq, Eq, Structural, Clone, Copy, Debug)]
pub struct ControlButton {
    pub icon: ControlIcon,
    /// Red buttons stand for a muted state or a leaving action.
    pub is_red: bool,
    pub action: ControlAction,
}

pub open spec fn button(icon: ControlIcon, is_red: bool, action: ControlAction) -> ControlButton {
    ControlButton { icon, is_red, action }
}

/// The buttons of the bar, left to right: mute, deafen, the soundboard (only
/// over IPC), disconnect, stop streaming (only while streaming) and settings.
pub open spec fn control_buttons(
    state: VoiceState,
    streaming: bool,
    transport: TransportMode,
) -> Seq<ControlButton> {
    let muted = state == VoiceState::Muted || state == VoiceState::Deafened;
    let deafened = state == VoiceState::Deafened;
    seq![
        button(
            if muted { ControlIcon::Muted } else { ControlIcon::Mute },
            muted,
            ControlAction::ToggleMute,
        ),
        button(
            if deafened { ControlIcon::Deafened } else { ControlIcon::Deafen },
            deafened,
            ControlAction::ToggleDeaf,
        ),
    ] + (if transport == TransportMode::Ipc {
        seq![button(ControlIcon::Soundboard, false, ControlAction::ToggleSoundboard)]
    } else {
        Seq::empty()
    }) + seq![button(ControlIcon::Disconnect, true, ControlAction::Disconnect)] + (if streaming {
        seq![button(ControlIcon::StopStream, true, ControlAction::StopStream)]
    } else {
        Seq::empty()
    }) + seq![button(ControlIcon::Settings, false, ControlAction::OpenSettings)]
}

/// The buttons of the voice controls bar for a user in `state`.
pub fn voice_control_buttons(state: VoiceState, streaming: bool, transport: TransportMode) -> (r: Vec<
    ControlButton,
>)
    ensures
        r@ == control_buttons(state, streaming, transport),
{
    let muted = state == VoiceState::Muted || state == VoiceState::Deafened;
    let deafened = state == VoiceState::Deafened;
    let mut v: Vec<ControlButton> = Vec::new();
    v.push(
        ControlButton {
            icon: if muted {
                ControlIcon::Muted
            } else {
                ControlIcon::Mute
            },
            is_red: muted,
            action: ControlAction::ToggleMute,
        },
    );
    v.push(
        ControlButton {
            icon: if deafened {
                ControlIcon::Deafened
            } else {
                ControlIcon::Deafen
            },
            is_red: deafened,
            action: ControlAction::ToggleDeaf,
        },
    );
    if transport == TransportMode::Ipc {
        v.push(
            ControlButton {
                icon: ControlIcon::Soundboard,
                is_red: false,
                action: ControlAction::ToggleSoundboard,
            },
        );
    }
    v.push(
        ControlButton { icon: ControlIcon::Disconnect, is_red: true, action: ControlAction::Disconnect },
    );
    if streaming {
        v.push(
            ControlButton {
                icon: ControlIcon::StopStream,
                is_red: true,
                action: ControlAction::StopStream,
            },
        );
    }
    v.push(
        ControlButton { icon: ControlIcon::Settings, is_red: false, action: ControlAction::OpenSettings },
    );
    assert(v@ =~= control_buttons(state, streaming, transport));
    v
}

/// The command a control sends to the client; the soundboard and settings
/// buttons act inside the overlay and send none.
pub open spec fn action_command(action: ControlAction) -> Option<BridgeCommand> {
    match action {
        ControlAction::ToggleMute => Some(BridgeCommand::ToggleMute),
        ControlAction::ToggleDeaf => Some(BridgeCommand::ToggleDeaf),
        ControlAction::Disconnect => Some(BridgeCommand::Disconnect),
        ControlAction::StopStream => Some(BridgeCommand::StopStream),
        ControlAction::ToggleSoundboard => None,
        ControlAction::OpenSettings => None,
    }
}

/// The command a control sends to the client.
pub fn control_command(action: ControlAction) -> (r: Option<BridgeCommand>)
    ensures
        r == action_command(action),
{
    match action {
        ControlAction::ToggleMute => Some(BridgeCommand::ToggleMute),
        ControlAction::ToggleDeaf => Some(BridgeCommand::ToggleDeaf),
        ControlAction::Disconnect => Some(BridgeCommand::Disconnect),
        ControlAction::StopStream => Some(BridgeCommand::StopStream),
        ControlAction::ToggleSoundboard => None,
        ControlAction::OpenSettings => None,
    }
}

/// The background of a control button.
#[derive(PartialEq, Eq, Structural, Clone, Copy, Debug)]
pub enum ButtonShade {
    Transparent,
    LightGray,
    RedGray,
}

/// A control button is transparent until hovered, then red-gray if it is a
/// red button and light gray otherwise.
pub fn control_shade(hovered: bool, is_red: bool) -> (r: ButtonShade)
    ensures
        r == (if !hovered {
            ButtonShade::Transparent
        } else if is_red {
            ButtonShade::RedGray
        } else {
            ButtonShade::LightGray
        }),
{
    if hovered {
        if is_red {
            ButtonShade::RedGray
        } else {
            ButtonShade::LightGray
        }
    } else {
        ButtonShade::Transparent
    }
}

/// The layout of the voice controls bar, by position: the mute button
/// first, shown muted and red exactly while the user is muted or deafened;
/// the deafen button second, shown deafened and red exactly while deafened;
/// then the soundboard button over IPC only; then the red disconnect button;
/// then the red stop-stream button while streaming only; the settings button
/// last. No other button is red.
pub proof fn lemma_voice_bar_layout(state: VoiceState, streaming: bool, transport: TransportMode)
    ensures
        ({
            let b = control_buttons(state, streaming, transport);
            let muted = state == VoiceState::Muted || state == VoiceState::Deafened;
            let deafened = state == VoiceState::Deafened;
            let ipc: int = if transport == TransportMode::Ipc { 1 } else { 0 };
            let live: int = if streaming { 1 } else { 0 };
            &&& b.len() == 4 + ipc + live
            &&& b[0].action == ControlAction::ToggleMute
            &&& b[0].is_red == muted
            &&& (b[0].icon == ControlIcon::Muted) == muted
            &&& (b[0].icon == ControlIcon::Mute) == !muted
            &&& b[1].action == ControlAction::ToggleDeaf
            &&& b[1].is_red == deafened
            &&& (b[1].icon == ControlIcon::Deafened) == deafened
            &&& (b[1].icon == ControlIcon::Deafen) == !deafened
            &&& transport == TransportMode::Ipc ==> b[2].action == ControlAction::ToggleSoundboard
                && b[2].icon == ControlIcon::Soundboard && !b[2].is_red
            &&& b[2 + ipc].action == ControlAction::Disconnect
            &&& b[2 + ipc].icon == ControlIcon::Disconnect
            &&& b[2 + ipc].is_red
            &&& streaming ==> b[3 + ipc].action == ControlAction::StopStream
                && b[3 + ipc].icon == ControlIcon::StopStream && b[3 + ipc].is_red
            &&& b[b.len() - 1].action == ControlAction::OpenSettings
            &&& b[b.len() - 1].icon == ControlIcon::Settings
            &&& !b[b.len() - 1].is_red
            &&& (exists|i: int| 0 <= i < b.len() && b[i].action == ControlAction::ToggleSoundboard)
                == (transport == TransportMode::Ipc)
            &&& (exists|i: int| 0 <= i < b.len() && b[i].action == ControlAction::StopStream)
                == streaming
            &&& forall|i: int|
                0 <= i < b.len() ==> (#[trigger] b[i].is_red == (b[i].action
                    == ControlAction::Disconnect || b[i].action == ControlAction::StopStream || (
                b[i].action == ControlAction::ToggleMute && muted) || (b[i].action
                    == ControlAction::ToggleDeaf && deafened)))
        }),
{
    let b = control_buttons(state, streaming, transport);
    let ipc: int = if transport == TransportMode::Ipc { 1 } else { 0 };
    if transport == TransportMode::Ipc {
        assert(b[2].action == ControlAction::ToggleSoundboard);
    } else {
        assert forall|i: int| 0 <= i < b.len() implies b[i].action
            != ControlAction::ToggleSoundboard by {}
    }
    if streaming {
        assert(b[3 + ipc].action == ControlAction::StopStream);
    } else {
        assert forall|i: int| 0 <= i < b.len() implies b[i].action != ControlAction::StopStream by {}
    }
}

/// Each client action sends its own command, named after the action; the
/// soundboard and settings buttons send nothing to the client.
pub proof fn lemma_control_commands()
    ensures
        action_command(ControlAction::ToggleMute) matches Some(c) && command_name(c)
            == "TOGGLE_MUTE"@,
        action_command(ControlAction::ToggleDeaf) matches Some(c) && command_name(c)
            == "TOGGLE_DEAF"@,
        action_command(ControlAction::Disconnect) matches Some(c) && command_name(c)
            == "DISCONNECT"@,
        action_command(ControlAction::StopStream) matches Some(c) && command_name(c)
            == "STOP_STREAM"@,
        action_command(ControlAction::ToggleSoundboard) is None,
        action_command(ControlAction::OpenSettings) is None,
{
}

} // verus!
