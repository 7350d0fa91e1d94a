//! The commands the overlay sends to the Discord client through its bridge.
use vstd::prelude::*;

verus! {

/// A command for the client. The bridge sends it as a message whose `cmd`
/// is [`BridgeCommand::name`] and whose data holds the variant's fields.
#[derive(PartialEq, Eq, Debug)]
pub enum BridgeCommand {
    ToggleMute,
    ToggleDeaf,
    Disconnect,
    StopStream,
    PlaySoundboardSound { sound_id: String, source_guild_id: Option<String> },
    /// Open the place of a notified message; an id the notification lacks is
    /// sent as null.
    Navigate {
        guild_id: Option<String>,
        channel_id: Option<String>,
        message_id: Option<String>,
    },
}

pub open spec fn command_name(c: BridgeCommand) -> Seq<char> {
    match c {
        BridgeCommand::ToggleMute => "TOGGLE_MUTE"@,
        BridgeCommand::ToggleDeaf => "TOGGLE_DEAF"@,
        BridgeCommand::Disconnect => "DISCONNECT"@,
        BridgeCommand::StopStream => "STOP_STREAM"@,
        BridgeCommand::PlaySoundboardSound { .. } => "PLAY_SOUNDBOARD_SOUND"@,
        BridgeCommand::Navigate { .. } => "NAVIGATE"@,
    }
}

impl BridgeCommand {
    /// The `cmd` of the bridge message.
    pub fn name(&self) -> (r: String)
        ensures
            r@ == command_name(*self),
    {
        match self {
            BridgeCommand::ToggleMute => String::from_str("TOGGLE_MUTE"),
            BridgeCommand::ToggleDeaf => String::from_str("TOGGLE_DEAF"),
            BridgeCommand::Disconnect => String::from_str("DISCONNECT"),
            BridgeCommand::StopStream => String::from_str("STOP_STREAM"),
            BridgeCommand::PlaySoundboardSound { .. } => String::from_str("PLAY_SOUNDBOARD_SOUND"),
            BridgeCommand::Navigate { .. } => String::from_str("NAVIGATE"),
        }
    }
}

} // verus!
