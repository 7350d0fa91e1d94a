use lumina::bridge::BridgeCommand;
use lumina::soundboard::{
    guild_order, guild_stands_before, heading_for, offer_sound, play_command, sort_guilds,
    sound_face_text, soundboard_sections, GuildSounds, SoundboardSound,
};

fn sound(id: &str, guild: Option<&str>, emoji: Option<&str>, available: bool) -> SoundboardSound {
    SoundboardSound {
        sound_id: id.to_string(),
        guild_id: guild.map(|g| g.to_string()),
        name: format!("sound {}", id),
        emoji_name: emoji.map(|e| e.to_string()),
        available,
    }
}

fn entry(id: &str) -> GuildSounds {
    (id.to_string(), vec![sound(&format!("{}-1", id), Some(id), None, true)])
}

#[test]
fn guild_order_ranks() {
    assert_eq!(guild_order("5", "5"), 0);
    assert_eq!(guild_order("", ""), 1);
    assert_eq!(guild_order("0", "5"), 1);
    assert_eq!(guild_order("", "5"), 1);
    assert_eq!(guild_order("7", "5"), 2);
    assert_eq!(guild_order("7", ""), 2);
}

#[test]
fn guilds_sort_current_default_then_descending() {
    let guilds = vec![entry("111"), entry(""), entry("999"), entry("555"), entry("333")];
    let sorted = sort_guilds(guilds, "555");
    let ids: Vec<&str> = sorted.iter().map(|(g, _)| g.as_str()).collect();
    assert_eq!(ids, vec!["555", "", "999", "333", "111"]);
}

#[test]
fn guild_sort_does_not_depend_on_input_order() {
    let a = sort_guilds(vec![entry("2"), entry("0"), entry("10"), entry("3")], "3");
    let b = sort_guilds(vec![entry("10"), entry("3"), entry("2"), entry("0")], "3");
    assert_eq!(a, b);
    let ids: Vec<&str> = a.iter().map(|(g, _)| g.as_str()).collect();
    assert_eq!(ids, vec!["3", "0", "2", "10"]);
}

#[test]
fn order_relation_agrees_with_sort() {
    assert!(guild_stands_before("5", "9", "5"));
    assert!(!guild_stands_before("9", "5", "5"));
    assert!(guild_stands_before("9", "5", ""));
    assert!(guild_stands_before("x", "x", ""));
}

#[test]
fn headings() {
    let names = vec![("42".to_string(), "Guild Answer".to_string())];
    assert_eq!(heading_for(&"".to_string(), &names), "Default");
    assert_eq!(heading_for(&"42".to_string(), &names), "Guild Answer");
    assert_eq!(heading_for(&"43".to_string(), &names), "43");
}

#[test]
fn sounds_of_other_guilds_lock_without_nitro() {
    let current = "1".to_string();
    assert!(!offer_sound(sound("a", Some("2"), None, true), false, &current).available);
    assert!(offer_sound(sound("a", Some("2"), None, true), true, &current).available);
    assert!(offer_sound(sound("a", Some("1"), None, true), false, &current).available);
    assert!(offer_sound(sound("a", Some("0"), None, true), false, &current).available);
    assert!(offer_sound(sound("a", None, None, true), false, &current).available);
    assert!(!offer_sound(sound("a", None, None, false), true, &current).available);
}

#[test]
fn locked_sound_plays_nothing() {
    let current = "1".to_string();
    let s = offer_sound(sound("a", Some("2"), None, true), false, &current);
    assert_eq!(play_command(&s), None);
}

#[test]
fn playing_sends_sound_and_guild() {
    let s = sound("abc", Some("9"), Some("🔔"), true);
    assert_eq!(
        play_command(&s),
        Some(BridgeCommand::PlaySoundboardSound {
            sound_id: "abc".to_string(),
            source_guild_id: Some("9".to_string()),
        })
    );
    assert_eq!(play_command(&s).unwrap().name(), "PLAY_SOUNDBOARD_SOUND");
    assert_eq!(sound_face_text(&s), "🔔");
    assert_eq!(sound_face_text(&sound("x", None, None, true)), "?");
}

#[test]
fn sections_follow_order_and_offer() {
    let cache = vec![
        ("".to_string(), vec![sound("d", None, None, true)]),
        ("7".to_string(), vec![sound("s", Some("7"), None, true)]),
        ("3".to_string(), vec![sound("t", Some("3"), None, true)]),
    ];
    let names = vec![("7".to_string(), "Seven".to_string())];
    let sections = soundboard_sections(cache, &"3".to_string(), false, &names);
    let headings: Vec<&str> = sections.iter().map(|s| s.heading.as_str()).collect();
    assert_eq!(headings, vec!["3", "Default", "Seven"]);
    assert!(sections[0].sounds[0].available);
    assert!(sections[1].sounds[0].available);
    assert!(!sections[2].sounds[0].available);
}

#[test]
fn empty_cache_has_no_sections() {
    assert!(soundboard_sections(Vec::new(), &"1".to_string(), true, &Vec::new()).is_empty());
}

#[test]
fn sections_have_distinct_guilds() {
    let cache = vec![entry("5"), entry(""), entry("9")];
    let sections = soundboard_sections(cache, &"9".to_string(), true, &Vec::new());
    let ids: Vec<&str> = sections.iter().map(|s| s.guild_id.as_str()).collect();
    assert_eq!(ids, vec!["9", "", "5"]);
}
