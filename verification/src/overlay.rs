//! The overlay's rows: voice users with their avatar, badges and dragging,
//! and the message notifications with their action buttons.
use vstd::prelude::*;

use crate::voice::VoiceState;

verus! {

/// A user in the voice channel.
#[derive(PartialEq, Eq, Debug)]
pub struct User {
    pub id: String,
    pub name: String,
    /// The avatar's hash; empty for a user without an avatar.
    pub avatar: String,
    pub voice_state: VoiceState,
    pub streaming: bool,
    pub camera: bool,
}

/// A colour given by its red, green and blue parts.
#[derive(PartialEq, Eq, Structural, Clone, Copy, Debug)]
pub struct Rgb {
    pub r: u8,
    pub g: u8,
    pub b: u8,
}

/// Where the avatar of a user comes from: nothing for a user without an
/// avatar, else the CDN address of the avatar in size 80.
pub open spec fn avatar_url(id: Seq<char>, avatar: Seq<char>) -> Seq<char> {
    if avatar.len() == 0 {
        Seq::empty()
    } else {
        "https://cdn.discordapp.com/avatars/"@ + id + "/"@ + avatar + ".png?size=80"@
    }
}

/// The ring around the avatar: green while speaking, red while muted or
/// deafened, none otherwise.
pub open spec fn avatar_border(state: VoiceState) -> Option<Rgb> {
    match state {
        VoiceState::Speaking => Some(Rgb { r: 47, g: 186, b: 139 }),
        VoiceState::Deafened | VoiceState::Muted => Some(Rgb { r: 218, g: 62, b: 68 }),
        _ => None,
    }
}

/// The avatar address and ring of a user.
pub fn avatar_url_and_border(user: &User) -> (r: (String, Option<Rgb>))
    ensures
        r.0@ == avatar_url(user.id@, user.avatar@),
        r.1 == avatar_border(user.voice_state),
{
    let border = match user.voice_state {
        VoiceState::Speaking => Some(Rgb { r: 47, g: 186, b: 139 }),
        VoiceState::Deafened | VoiceState::Muted => Some(Rgb { r: 218, g: 62, b: 68 }),
        _ => None,
    };
    let url = if user.avatar.as_str().unicode_len() == 0 {
        String::new()
    } else {
        let mut s = String::from_str("https://cdn.discordapp.com/avatars/");
        s.append(user.id.as_str());
        s.append("/");
        s.append(user.avatar.as_str());
        s.append(".png?size=80");
        s
    };
    (url, border)
}

/// A small icon after a user's name.
#[derive(PartialEq, Eq, Structural, Clone, Copy, Debug)]
pub enum Badge {
    Muted,
    Deafened,
    Streaming,
    Camera,
}

/// The icons after a user's name, in this order: muted, deafened, streaming,
/// camera, each where it applies.
pub open spec fn user_badges(state: VoiceState, streaming: bool, camera: bool) -> Seq<Badge> {
    (if state == VoiceState::Muted {
        seq![Badge::Muted]
    } else {
        Seq::empty()
    }) + (if state == VoiceState::Deafened {
        seq![Badge::Deafened]
    } else {
        Seq::empty()
    }) + (if streaming {
        seq![Badge::Streaming]
    } else {
        Seq::empty()
    }) + (if camera {
        seq![Badge::Camera]
    } else {
        Seq::empty()
    })
}

/// The icons after a user's name.
pub fn badges_of(user: &User) -> (r: Vec<Badge>)
    ensures
        r@ == user_badges(user.voice_state, user.streaming, user.camera),
{
    let mut v: Vec<Badge> = Vec::new();
    if user.voice_state == VoiceState::Muted {
        v.push(Badge::Muted);
    }
    if user.voice_state == VoiceState::Deafened {
        v.push(Badge::Deafened);
    }
    if user.streaming {
        v.push(Badge::Streaming);
    }
    if user.camera {
        v.push(Badge::Camera);
    }
    assert(v@ =~= user_badges(user.voice_state, user.streaming, user.camera));
    v
}

/// How a voice user's row looks.
#[derive(PartialEq, Eq, Structural, Clone, Copy, Debug)]
pub struct UserRowLook {
    /// The row is drawn half transparent.
    pub faded: bool,
    /// The name stands before the avatar (the row is aligned to the right).
    pub name_first: bool,
    /// The name's frame is outlined in green.
    pub outlined: bool,
}

/// A row fades while its user is silent, semi-transparent voice rows are
/// asked for and the overlay is closed; the name comes first in a row
/// aligned to the right; a speaking user's name is outlined.
pub fn user_row_look(
    state: VoiceState,
    right_aligned: bool,
    semitransparent: bool,
    is_open: bool,
) -> (r: UserRowLook)
    ensures
        r.faded == (state != VoiceState::Speaking && semitransparent && !is_open),
        r.name_first == right_aligned,
        r.outlined == (state == VoiceState::Speaking),
{
    let speaking = state == VoiceState::Speaking;
    UserRowLook {
        faded: !speaking && (semitransparent && !is_open),
        name_first: right_aligned,
        outlined: speaking,
    }
}

/// The offset a drag gives: the offset when the drag began plus the
/// distance moved, scaled by the direction factor of the row's corner.
pub fn dragged_offset(initial: i32, moved: i32, factor: i32) -> (r: i32)
    requires
        i32::MIN <= moved * factor <= i32::MAX,
        i32::MIN <= initial + moved * factor <= i32::MAX,
    ensures
        r == initial + moved * factor,
{
    let d = moved * factor;
    initial + d
}

/// How the notifications look.
#[derive(PartialEq, Eq, Structural, Clone, Copy, Debug)]
pub struct MessagesLook {
    /// The notifications are drawn half transparent.
    pub faded: bool,
    /// How many notifications are shown.
    pub shown: usize,
}

/// Notifications fade while semi-transparent notifications are asked for and
/// the overlay is closed; a censored overlay shows none of them.
pub fn messages_look(count: usize, censored: bool, semitransparent: bool, is_open: bool) -> (r:
    MessagesLook)
    ensures
        r.faded == (semitransparent && !is_open),
        r.shown == (if censored {
            0
        } else {
            count
        }),
{
    MessagesLook {
        faded: semitransparent && !is_open,
        shown: if censored {
            0
        } else {
            count
        },
    }
}

/// How an action button of a notification looks.
#[derive(PartialEq, Eq, Structural, Clone, Copy, Debug)]
pub struct ActionButtonLook {
    /// The button is filled green; otherwise it is transparent.
    pub green: bool,
    /// The button has a muted gray border.
    pub bordered: bool,
}

/// A secondary action is a transparent, bordered button; any other is a
/// green one without a border.
pub fn action_button_look(secondary: bool) -> (r: ActionButtonLook)
    ensures
        r.green == !secondary,
        r.bordered == secondary,
{
    ActionButtonLook { green: !secondary, bordered: secondary }
}

/// Each badge stands for its own fact alone: the muted badge for a muted
/// user, the deafened badge for a deafened one, the streaming badge for a
/// user who streams and the camera badge for one whose camera is on,
/// whatever the rest; no badge shows twice, and they keep the order muted,
/// deafened, streaming, camera.
pub proof fn lemma_badges_follow_flags(state: VoiceState, streaming: bool, camera: bool)
    ensures
        ({
            let b = user_badges(state, streaming, camera);
            &&& b.contains(Badge::Muted) == (state == VoiceState::Muted)
            &&& b.contains(Badge::Deafened) == (state == VoiceState::Deafened)
            &&& b.contains(Badge::Streaming) == streaming
            &&& b.contains(Badge::Camera) == camera
            &&& b.no_duplicates()
            &&& forall|i: int, j: int|
                0 <= i < j < b.len() ==> badge_rank(#[trigger] b[i]) < badge_rank(#[trigger] b[j])
        }),
{
    let b = user_badges(state, streaming, camera);
    let m: Seq<Badge> = if state == VoiceState::Muted { seq![Badge::Muted] } else { Seq::empty() };
    let d: Seq<Badge> = if state == VoiceState::Deafened { seq![Badge::Deafened] } else { Seq::empty() };
    let s: Seq<Badge> = if streaming { seq![Badge::Streaming] } else { Seq::empty() };
    let c: Seq<Badge> = if camera { seq![Badge::Camera] } else { Seq::empty() };
    assert(b == m + d + s + c);
    assert forall|i: int, j: int| 0 <= i < j < b.len() implies badge_rank(#[trigger] b[i])
        < badge_rank(#[trigger] b[j]) by {
        assert(forall|k: int| 0 <= k < m.len() ==> badge_rank(b[k]) == 0);
        assert(forall|k: int| m.len() <= k < m.len() + d.len() ==> badge_rank(b[k]) == 1);
        assert(forall|k: int|
            m.len() + d.len() <= k < m.len() + d.len() + s.len() ==> badge_rank(b[k]) == 2);
        assert(forall|k: int|
            m.len() + d.len() + s.len() <= k < b.len() ==> badge_rank(b[k]) == 3);
    }
    assert(b.contains(Badge::Muted) == (state == VoiceState::Muted)) by {
        if state == VoiceState::Muted {
            assert(b[0] == Badge::Muted);
        }
    }
    assert(b.contains(Badge::Deafened) == (state == VoiceState::Deafened)) by {
        if state == VoiceState::Deafened {
            assert(b[m.len() as int] == Badge::Deafened);
        }
    }
    assert(b.contains(Badge::Streaming) == streaming) by {
        if streaming {
            assert(b[(m.len() + d.len()) as int] == Badge::Streaming);
        }
    }
    assert(b.contains(Badge::Camera) == camera) by {
        if camera {
            assert(b[(m.len() + d.len() + s.len()) as int] == Badge::Camera);
        }
    }
}

/// The place of a badge in a user's label.
pub open spec fn badge_rank(b: Badge) -> int {
    match b {
        Badge::Muted => 0,
        Badge::Deafened => 1,
        Badge::Streaming => 2,
        Badge::Camera => 3,
    }
}

/// The avatar ring: green exactly while speaking, red exactly while muted or
/// deafened, absent exactly while idle. A user without an avatar gets no
/// address; any other address ends with the avatar's hash and ".png?size=80".
pub proof fn lemma_avatar_facts(id: Seq<char>, avatar: Seq<char>, state: VoiceState)
    ensures
        (avatar_border(state) == Some(Rgb { r: 47, g: 186, b: 139 })) == (state
            == VoiceState::Speaking),
        (avatar_border(state) == Some(Rgb { r: 218, g: 62, b: 68 })) == (state == VoiceState::Muted
            || state == VoiceState::Deafened),
        avatar_border(state) is None == (state == VoiceState::Idle),
        (avatar_url(id, avatar).len() == 0) == (avatar.len() == 0),
        avatar.len() > 0 ==> avatar_url(id, avatar).subrange(
            avatar_url(id, avatar).len() - avatar.len() - 12,
            avatar_url(id, avatar).len() as int,
        ) == avatar + ".png?size=80"@,
{
    reveal_strlit(".png?size=80");
    if avatar.len() > 0 {
        let u = avatar_url(id, avatar);
        let head = "https://cdn.discordapp.com/avatars/"@ + id + "/"@;
        assert(u == head + (avatar + ".png?size=80"@));
        assert(u.subrange(u.len() - avatar.len() - 12, u.len() as int) =~= avatar
            + ".png?size=80"@);
    }
}

} // verus!
