use lumina::overlay::{
    action_button_look, avatar_url_and_border, badges_of, dragged_offset, messages_look,
    user_row_look, Badge, Rgb, User,
};
use lumina::voice::VoiceState;

fn user(avatar: &str, state: VoiceState, streaming: bool, camera: bool) -> User {
    User {
        id: "123".to_string(),
        name: "ann".to_string(),
        avatar: avatar.to_string(),
        voice_state: state,
        streaming,
        camera,
    }
}

#[test]
fn avatar_address_and_ring() {
    let (url, ring) = avatar_url_and_border(&user("abc", VoiceState::Speaking, false, false));
    assert_eq!(url, "https://cdn.discordapp.com/avatars/123/abc.png?size=80");
    assert_eq!(ring, Some(Rgb { r: 47, g: 186, b: 139 }));
    let (url, ring) = avatar_url_and_border(&user("", VoiceState::Muted, false, false));
    assert_eq!(url, "");
    assert_eq!(ring, Some(Rgb { r: 218, g: 62, b: 68 }));
    let (_, ring) = avatar_url_and_border(&user("", VoiceState::Deafened, false, false));
    assert_eq!(ring, Some(Rgb { r: 218, g: 62, b: 68 }));
    let (_, ring) = avatar_url_and_border(&user("", VoiceState::Idle, false, false));
    assert_eq!(ring, None);
}

#[test]
fn badges_in_order() {
    assert_eq!(
        badges_of(&user("", VoiceState::Muted, true, true)),
        vec![Badge::Muted, Badge::Streaming, Badge::Camera]
    );
    assert_eq!(badges_of(&user("", VoiceState::Deafened, false, false)), vec![Badge::Deafened]);
    assert!(badges_of(&user("", VoiceState::Speaking, false, false)).is_empty());
}

#[test]
fn row_fades_only_when_silent_and_closed() {
    assert!(user_row_look(VoiceState::Idle, false, true, false).faded);
    assert!(!user_row_look(VoiceState::Speaking, false, true, false).faded);
    assert!(!user_row_look(VoiceState::Idle, false, true, true).faded);
    assert!(!user_row_look(VoiceState::Idle, false, false, false).faded);
    let look = user_row_look(VoiceState::Speaking, true, false, true);
    assert!(look.name_first && look.outlined);
}

#[test]
fn drag_moves_offset() {
    assert_eq!(dragged_offset(10, 5, 1), 15);
    assert_eq!(dragged_offset(10, 5, -1), 5);
    assert_eq!(dragged_offset(10, 0, -1), 10);
}

#[test]
fn messages_fade_and_censor() {
    let l = messages_look(3, false, true, false);
    assert!(l.faded);
    assert_eq!(l.shown, 3);
    let l = messages_look(3, true, true, true);
    assert!(!l.faded);
    assert_eq!(l.shown, 0);
}

#[test]
fn action_buttons() {
    let l = action_button_look(true);
    assert!(!l.green && l.bordered);
    let l = action_button_look(false);
    assert!(l.green && !l.bordered);
}
