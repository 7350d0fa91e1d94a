//! The soundboard: in which order the guilds' sounds stand, under which
//! heading, which sounds can be played and what playing one sends.
use vstd::prelude::*;

use crate::bridge::BridgeCommand;
use crate::text::{lemma_lex_asymmetric, lemma_lex_irreflexive, lemma_lex_total, lemma_lex_transitive, lex_less, str_less};

verus! {

/// A soundboard sound as the client reports it.
#[derive(PartialEq, Eq, Debug, Clone)]
pub struct SoundboardSound {
    pub sound_id: String,
    /// The guild the sound belongs to; `None` or `"0"` for a default sound.
    pub guild_id: Option<String>,
    pub name: String,
    pub emoji_name: Option<String>,
    pub available: bool,
}

/// The sounds of one guild, keyed by the guild's id (empty for the default
/// sounds).
pub type GuildSounds = (String, Vec<SoundboardSound>);

// ---------------------------------------------------------------------------
// Order of the guilds
// ---------------------------------------------------------------------------

/// The rank of a guild: 0 for the guild the user is in, 1 for the default
/// sounds (empty id or `"0"`), 2 for any other guild.
pub open spec fn guild_rank(guild_id: Seq<char>, current: Seq<char>) -> nat {
    if current.len() > 0 && guild_id == current {
        0
    } else if guild_id.len() == 0 || guild_id == seq!['0'] {
        1
    } else {
        2
    }
}

/// Guild `a` may stand before guild `b`: it has a smaller rank, or the same
/// rank and an id that is not smaller (ids of one rank run downwards).
pub open spec fn stands_before(a: Seq<char>, b: Seq<char>, current: Seq<char>) -> bool {
    guild_rank(a, current) < guild_rank(b, current) || (guild_rank(a, current) == guild_rank(
        b,
        current,
    ) && !lex_less(a, b))
}

/// Every guild stands before every later one.
pub open spec fn guilds_in_order(s: Seq<GuildSounds>, current: Seq<char>) -> bool {
    forall|i: int, j: int|
        0 <= i < j < s.len() ==> stands_before(#[trigger] s[i].0@, #[trigger] s[j].0@, current)
}

/// No two entries share a guild id, as in a map keyed by the id.
pub open spec fn distinct_guilds(s: Seq<GuildSounds>) -> bool {
    forall|i: int, j: int| 0 <= i < j < s.len() ==> #[trigger] s[i].0@ != #[trigger] s[j].0@
}

/// The order of the guilds is total.
pub proof fn lemma_stands_before_total(a: Seq<char>, b: Seq<char>, current: Seq<char>)
    ensures
        stands_before(a, b, current) || stands_before(b, a, current),
        stands_before(a, a, current),
        stands_before(a, b, current) && stands_before(b, a, current) ==> a == b,
{
    lemma_lex_total(a, b);
    lemma_lex_asymmetric(a, b);
    lemma_lex_irreflexive(a);
}

/// The order of the guilds is transitive.
pub proof fn lemma_stands_before_transitive(
    a: Seq<char>,
    b: Seq<char>,
    c: Seq<char>,
    current: Seq<char>,
)
    requires
        stands_before(a, b, current),
        stands_before(b, c, current),
    ensures
        stands_before(a, c, current),
{
    if guild_rank(a, current) == guild_rank(b, current) && guild_rank(b, current) == guild_rank(
        c,
        current,
    ) {
        lemma_lex_total(a, b);
        lemma_lex_total(b, c);
        if lex_less(a, c) {
            if b == c {
            } else if a == b {
            } else {
                lemma_lex_transitive(b, a, c);
                lemma_lex_transitive(c, b, a);
                lemma_lex_asymmetric(a, c);
            }
        }
    }
}

fn is_zero_id(s: &str) -> (r: bool)
    ensures
        r == (s@ == seq!['0']),
{
    if s.unicode_len() == 1 {
        let c = s.get_char(0);
        if c == '0' {
            assert(s@ =~= seq!['0']);
        }
        c == '0'
    } else {
        false
    }
}

fn same_text(a: &str, b: &str) -> (r: bool)
    ensures
        r == (a@ == b@),
{
    proof {
        lemma_lex_total(a@, b@);
        lemma_lex_irreflexive(a@);
    }
    !str_less(a, b) && !str_less(b, a)
}

/// The rank of a guild in the soundboard.
pub fn guild_order(guild_id: &str, current: &str) -> (r: u8)
    ensures
        r as nat == guild_rank(guild_id@, current@),
{
    if current.unicode_len() > 0 && same_text(guild_id, current) {
        0
    } else if guild_id.unicode_len() == 0 || is_zero_id(guild_id) {
        1
    } else {
        2
    }
}

/// Whether guild `a` may stand before guild `b` in the soundboard.
pub fn guild_stands_before(a: &str, b: &str, current: &str) -> (r: bool)
    ensures
        r == stands_before(a@, b@, current@),
{
    let ra = guild_order(a, current);
    let rb = guild_order(b, current);
    ra < rb || (ra == rb && !str_less(a, b))
}

proof fn lemma_insert_multiset<A>(s: Seq<A>, p: int, x: A)
    requires
        0 <= p <= s.len(),
    ensures
        s.insert(p, x).to_multiset() =~= s.to_multiset().insert(x),
{
    s.to_multiset_ensures();
    let front = s.subrange(0, p);
    let back = s.subrange(p, s.len() as int);
    assert(s =~= front + back);
    vstd::seq_lib::lemma_multiset_commutative(front, back);
    vstd::seq_lib::lemma_multiset_commutative(front.push(x), back);
    front.to_multiset_ensures();
}

/// Puts the guilds in soundboard order: the current guild first, then the
/// default sounds, then every other guild, ids of one rank from the largest
/// down. The result holds the same entries as the input.
pub fn sort_guilds(guilds: Vec<GuildSounds>, current: &str) -> (r: Vec<GuildSounds>)
    ensures
        r@.to_multiset() == guilds@.to_multiset(),
        guilds_in_order(r@, current@),
{
    broadcast use vstd::seq_lib::group_to_multiset_ensures;

    let mut rest = guilds;
    let mut out: Vec<GuildSounds> = Vec::new();
    while rest.len() > 0
        invariant
            out@.to_multiset().add(rest@.to_multiset()) == guilds@.to_multiset(),
            guilds_in_order(out@, current@),
        decreases rest.len(),
    {
        let ghost before = rest@;
        let x = rest.pop().unwrap();
        assert(before =~= rest@.push(x));
        let mut p: usize = 0;
        while p < out.len() && guild_stands_before(&out[p].0, &x.0, current)
            invariant
                p <= out.len(),
                forall|k: int| 0 <= k < p ==> stands_before(#[trigger] out@[k].0@, x.0@, current@),
            decreases out.len() - p,
        {
            p = p + 1;
        }
        let ghost old_out = out@;
        proof {
            lemma_insert_multiset(old_out, p as int, x);
            if p < old_out.len() {
                lemma_stands_before_total(old_out[p as int].0@, x.0@, current@);
            }
        }
        out.insert(p, x);
        proof {
            broadcast use vstd::multiset::group_multiset_axioms;

            rest@.to_multiset_ensures();
            assert(before.to_multiset() == rest@.to_multiset().insert(x));
            assert(out@.to_multiset().add(rest@.to_multiset()) =~= old_out.to_multiset().add(
                before.to_multiset(),
            ));
            assert forall|i: int, j: int| 0 <= i < j < out@.len() implies stands_before(
                #[trigger] out@[i].0@,
                #[trigger] out@[j].0@,
                current@,
            ) by {
                if j < p {
                    assert(out@[i] == old_out[i] && out@[j] == old_out[j]);
                } else if j == p {
                    assert(out@[i] == old_out[i]);
                } else if i == p {
                    assert(out@[j] == old_out[j - 1]);
                    if j - 1 > p {
                        assert(stands_before(old_out[p as int].0@, old_out[j - 1].0@, current@));
                        lemma_stands_before_transitive(
                            x.0@,
                            old_out[p as int].0@,
                            old_out[j - 1].0@,
                            current@,
                        );
                    }
                } else if i < p {
                    assert(out@[i] == old_out[i] && out@[j] == old_out[j - 1]);
                    assert(stands_before(x.0@, old_out[p as int].0@, current@));
                    if j - 1 > p {
                        assert(stands_before(old_out[p as int].0@, old_out[j - 1].0@, current@));
                        lemma_stands_before_transitive(
                            x.0@,
                            old_out[p as int].0@,
                            old_out[j - 1].0@,
                            current@,
                        );
                    }
                    lemma_stands_before_transitive(
                        old_out[i].0@,
                        x.0@,
                        old_out[j - 1].0@,
                        current@,
                    );
                } else {
                    assert(out@[i] == old_out[i - 1] && out@[j] == old_out[j - 1]);
                }
            }
        }
    }
    assert(rest@ =~= Seq::<GuildSounds>::empty());
    out
}

/// Two arrangements of the same guild entries that are both in soundboard
/// order are the same, when no guild id occurs twice (as in the map the
/// client's cache is): the order does not depend on how the entries came.
pub proof fn lemma_guild_order_unique(a: Seq<GuildSounds>, b: Seq<GuildSounds>, current: Seq<char>)
    requires
        a.to_multiset() == b.to_multiset(),
        guilds_in_order(a, current),
        guilds_in_order(b, current),
        distinct_guilds(a),
    ensures
        a == b,
    decreases a.len(),
{
    broadcast use vstd::multiset::group_multiset_axioms;

    a.to_multiset_ensures();
    b.to_multiset_ensures();
    if a.len() == 0 {
        assert(b.len() == 0);
        assert(a =~= b);
    } else {
        assert(b.len() == a.len());
        assert(a.to_multiset().count(a[0]) > 0);
        assert(b.contains(a[0]));
        let k = choose|k: int| 0 <= k < b.len() && b[k] == a[0];
        assert(b.to_multiset().count(b[0]) > 0);
        assert(a.contains(b[0]));
        let m = choose|m: int| 0 <= m < a.len() && a[m] == b[0];
        if a[0] != b[0] {
            assert(k > 0 && m > 0);
            assert(stands_before(a[0].0@, a[m].0@, current));
            assert(stands_before(b[0].0@, b[k].0@, current));
            lemma_stands_before_total(a[0].0@, b[0].0@, current);
            assert(a[0].0@ == a[m].0@);
            assert(false);
        }
        let ra = a.drop_first();
        let rb = b.drop_first();
        assert(a.remove(0) =~= ra);
        assert(b.remove(0) =~= rb);
        assert(ra.to_multiset() == rb.to_multiset());
        assert forall|i: int, j: int| 0 <= i < j < ra.len() implies stands_before(
            #[trigger] ra[i].0@,
            #[trigger] ra[j].0@,
            current,
        ) by {
            assert(ra[i] == a[i + 1] && ra[j] == a[j + 1]);
        }
        assert forall|i: int, j: int| 0 <= i < j < rb.len() implies stands_before(
            #[trigger] rb[i].0@,
            #[trigger] rb[j].0@,
            current,
        ) by {
            assert(rb[i] == b[i + 1] && rb[j] == b[j + 1]);
        }
        assert forall|i: int, j: int| 0 <= i < j < ra.len() implies #[trigger] ra[i].0@
            != #[trigger] ra[j].0@ by {
            assert(ra[i] == a[i + 1] && ra[j] == a[j + 1]);
        }
        lemma_guild_order_unique(ra, rb, current);
        assert(a =~= b) by {
            assert forall|i: int| 0 <= i < a.len() implies a[i] == b[i] by {
                if i > 0 {
                    assert(a[i] == ra[i - 1] && b[i] == rb[i - 1]);
                }
            }
        }
    }
}

/// In soundboard order, the guild the user is in comes first whenever it
/// has sounds.
pub proof fn lemma_current_guild_first(s: Seq<GuildSounds>, current: Seq<char>, i: int)
    requires
        guilds_in_order(s, current),
        current.len() > 0,
        0 <= i < s.len(),
        s[i].0@ == current,
    ensures
        s[0].0@ == current,
{
    if i > 0 {
        assert(stands_before(s[0].0@, s[i].0@, current));
        if s[0].0@ != current {
            assert(guild_rank(s[0].0@, current) > 0);
            assert(false);
        }
    }
}

/// The same entries in another arrangement still have distinct guild ids.
pub proof fn lemma_distinct_guilds_kept(a: Seq<GuildSounds>, b: Seq<GuildSounds>)
    requires
        a.to_multiset() == b.to_multiset(),
        distinct_guilds(a),
    ensures
        distinct_guilds(b),
{
    broadcast use vstd::multiset::group_multiset_axioms;

    a.to_multiset_ensures();
    b.to_multiset_ensures();
    assert(a.no_duplicates()) by {
        assert forall|i: int, j: int| 0 <= i < a.len() && 0 <= j < a.len() && i != j implies a[i]
            != a[j] by {
            if i < j {
                assert(a[i].0@ != a[j].0@);
            } else {
                assert(a[j].0@ != a[i].0@);
            }
        }
    }
    a.lemma_multiset_has_no_duplicates();
    b.lemma_multiset_has_no_duplicates_conv();
    assert forall|i: int, j: int| 0 <= i < j < b.len() implies #[trigger] b[i].0@ != #[trigger] b[j].0@ by {
        assert(b.contains(b[i]));
        assert(b.contains(b[j]));
        assert(b.to_multiset().count(b[i]) > 0);
        assert(b.to_multiset().count(b[j]) > 0);
        assert(a.to_multiset().count(b[i]) > 0);
        assert(a.to_multiset().count(b[j]) > 0);
        assert(a.contains(b[i]));
        assert(a.contains(b[j]));
        let p = choose|p: int| 0 <= p < a.len() && a[p] == b[i];
        let q = choose|q: int| 0 <= q < a.len() && a[q] == b[j];
        assert(b[i] != b[j]);
        assert(p != q);
        if p < q {
            assert(a[p].0@ != a[q].0@);
        } else {
            assert(a[q].0@ != a[p].0@);
        }
    }
}

// ---------------------------------------------------------------------------
// Headings, locks and buttons
// ---------------------------------------------------------------------------

/// The first name given for `id` in a list of (guild id, guild name) pairs
/// (the client's map of guild names gives each id one).
pub open spec fn lookup_name(names: Seq<(String, String)>, id: Seq<char>) -> Option<Seq<char>>
    decreases names.len(),
{
    if names.len() == 0 {
        None
    } else if names[0].0@ == id {
        Some(names[0].1@)
    } else {
        lookup_name(names.drop_first(), id)
    }
}

/// The heading over a guild's sounds: "Default" for the default sounds, else
/// the guild's name where it is known, else its id.
pub open spec fn guild_heading(id: Seq<char>, names: Seq<(String, String)>) -> Seq<char> {
    if id.len() == 0 {
        "Default"@
    } else {
        match lookup_name(names, id) {
            Some(name) => name,
            None => id,
        }
    }
}

/// The heading over a guild's sounds.
pub fn heading_for(id: &String, names: &Vec<(String, String)>) -> (r: String)
    ensures
        r@ == guild_heading(id@, names@),
{
    if id.as_str().unicode_len() == 0 {
        return String::from_str("Default");
    }
    let n = names.len();
    let mut i: usize = 0;
    assert(names@.skip(0) =~= names@);
    while i < n
        invariant
            i <= n,
            n == names@.len(),
            id@.len() > 0,
            lookup_name(names@, id@) == lookup_name(names@.skip(i as int), id@),
        decreases n - i,
    {
        assert(names@.skip(i as int)[0] == names@[i as int]);
        if same_text(names[i].0.as_str(), id.as_str()) {
            return names[i].1.clone();
        }
        assert(names@.skip(i as int).drop_first() =~= names@.skip(i + 1));
        i = i + 1;
    }
    id.clone()
}

/// The heading of a guild: "Default" for the empty id; the name listed for
/// the id wherever the id is listed (as the client's map lists each id once);
/// the id itself exactly when it is listed nowhere.
pub proof fn lemma_heading_names_guild(id: Seq<char>, names: Seq<(String, String)>, k: int)
    ensures
        id.len() == 0 ==> guild_heading(id, names) == "Default"@,
        id.len() > 0 && 0 <= k < names.len() && names[k].0@ == id && (forall|j: int|
            0 <= j < names.len() && j != k ==> #[trigger] names[j].0@ != id) ==> guild_heading(
            id,
            names,
        ) == names[k].1@,
        id.len() > 0 && (forall|j: int| 0 <= j < names.len() ==> #[trigger] names[j].0@ != id)
            ==> guild_heading(id, names) == id,
{
    lemma_lookup_name(names, id, k);
}

proof fn lemma_lookup_name(names: Seq<(String, String)>, id: Seq<char>, k: int)
    ensures
        0 <= k < names.len() && names[k].0@ == id && (forall|j: int|
            0 <= j < names.len() && j != k ==> #[trigger] names[j].0@ != id) ==> lookup_name(
            names,
            id,
        ) == Some(names[k].1@),
        (forall|j: int| 0 <= j < names.len() ==> #[trigger] names[j].0@ != id) ==> lookup_name(
            names,
            id,
        ) is None,
    decreases names.len(),
{
    if names.len() > 0 {
        let rest = names.drop_first();
        lemma_lookup_name(rest, id, k - 1);
        if 0 <= k < names.len() && names[k].0@ == id && (forall|j: int|
            0 <= j < names.len() && j != k ==> #[trigger] names[j].0@ != id) && k > 0 {
            assert(names[0].0@ != id);
            assert(rest[k - 1] == names[k]);
            assert forall|j: int| 0 <= j < rest.len() && j != k - 1 implies #[trigger] rest[j].0@
                != id by {
                assert(rest[j] == names[j + 1]);
            }
        }
        if forall|j: int| 0 <= j < names.len() ==> #[trigger] names[j].0@ != id {
            assert(names[0].0@ != id);
            assert forall|j: int| 0 <= j < rest.len() implies #[trigger] rest[j].0@ != id by {
                assert(rest[j] == names[j + 1]);
            }
        }
    }
}

/// A sound of another guild cannot be played without Nitro.
pub open spec fn sound_locked(sound: SoundboardSound, has_nitro: bool, current: Seq<char>) -> bool {
    match sound.guild_id {
        Some(g) => !has_nitro && g@ != seq!['0'] && g@ != current,
        None => false,
    }
}

/// The sound as the soundboard offers it: unavailable where it is locked.
pub open spec fn offered_sound(sound: SoundboardSound, has_nitro: bool, current: Seq<char>) -> SoundboardSound {
    SoundboardSound {
        sound_id: sound.sound_id,
        guild_id: sound.guild_id,
        name: sound.name,
        emoji_name: sound.emoji_name,
        available: sound.available && !sound_locked(sound, has_nitro, current),
    }
}

/// Marks the sound unavailable where the user may not play it.
pub fn offer_sound(sound: SoundboardSound, has_nitro: bool, current: &String) -> (r: SoundboardSound)
    ensures
        r == offered_sound(sound, has_nitro, current@),
{
    let mut sound = sound;
    let locked = match &sound.guild_id {
        Some(g) => !has_nitro && !is_zero_id(g.as_str()) && !same_text(g.as_str(), current.as_str()),
        None => false,
    };
    if locked {
        sound.available = false;
    }
    sound
}

/// What a sound's button shows: its emoji, or "?" for a sound without one.
pub open spec fn sound_face(sound: SoundboardSound) -> Seq<char> {
    match sound.emoji_name {
        Some(e) => e@,
        None => "?"@,
    }
}

/// What a sound's button shows.
pub fn sound_face_text(sound: &SoundboardSound) -> (r: String)
    ensures
        r@ == sound_face(*sound),
{
    match &sound.emoji_name {
        Some(e) => e.clone(),
        None => String::from_str("?"),
    }
}

fn copy_id(id: &Option<String>) -> (r: Option<String>)
    ensures
        r == *id,
{
    match id {
        Some(s) => Some(s.clone()),
        None => None,
    }
}

/// What pressing a sound's button sends: nothing for an unavailable sound,
/// else the command to play it, with its id and its guild.
pub fn play_command(sound: &SoundboardSound) -> (r: Option<BridgeCommand>)
    ensures
        sound.available <==> r is Some,
        sound.available ==> r == Some(
            BridgeCommand::PlaySoundboardSound {
                sound_id: sound.sound_id,
                source_guild_id: sound.guild_id,
            },
        ),
{
    if !sound.available {
        return None;
    }
    Some(
        BridgeCommand::PlaySoundboardSound {
            sound_id: sound.sound_id.clone(),
            source_guild_id: copy_id(&sound.guild_id),
        },
    )
}

/// A sound the soundboard locked cannot be played.
pub proof fn lemma_locked_sound_silent(sound: SoundboardSound, has_nitro: bool, current: Seq<char>)
    requires
        sound_locked(sound, has_nitro, current),
    ensures
        !offered_sound(sound, has_nitro, current).available,
{
}

// ---------------------------------------------------------------------------
// Sections
// ---------------------------------------------------------------------------

/// One guild's block in the soundboard.
pub struct SoundSection {
    pub guild_id: String,
    pub heading: String,
    pub sounds: Vec<SoundboardSound>,
}

/// The section shows the guild's entry: its id, its heading, and its sounds
/// as offered.
pub open spec fn section_shows(
    section: SoundSection,
    entry: GuildSounds,
    names: Seq<(String, String)>,
    has_nitro: bool,
    current: Seq<char>,
) -> bool {
    &&& section.guild_id@ == entry.0@
    &&& section.heading@ == guild_heading(entry.0@, names)
    &&& section.sounds@ == entry.1@.map_values(
        |s: SoundboardSound| offered_sound(s, has_nitro, current),
    )
}

fn offer_sounds(sounds: Vec<SoundboardSound>, has_nitro: bool, current: &String) -> (r: Vec<
    SoundboardSound,
>)
    ensures
        r@ == sounds@.map_values(|s: SoundboardSound| offered_sound(s, has_nitro, current@)),
{
    let mut rest = sounds;
    let mut out: Vec<SoundboardSound> = Vec::new();
    let ghost all = rest@;
    let n = rest.len();
    let mut i: usize = 0;
    assert(all.skip(0) =~= all);
    while i < n
        invariant
            i <= n,
            n == all.len(),
            rest@ == all.skip(i as int),
            out@ == all.take(i as int).map_values(
                |s: SoundboardSound| offered_sound(s, has_nitro, current@),
            ),
        decreases n - i,
    {
        let s = rest.remove(0);
        assert(rest@ =~= all.skip(i + 1));
        out.push(offer_sound(s, has_nitro, current));
        assert(all.take(i + 1).drop_last() =~= all.take(i as int));
        assert(out@ =~= all.take(i + 1).map_values(
            |s: SoundboardSound| offered_sound(s, has_nitro, current@),
        ));
        i = i + 1;
    }
    assert(all.take(n as int) =~= all);
    out
}

/// The soundboard's sections: one per guild of the cache, in soundboard
/// order, each under its heading with its sounds as offered to this user.
/// No section means the soundboard says that no sounds are available. The
/// cache comes from a map keyed by the guild id, so no id occurs twice in
/// it; the ordering is then the only one (`lemma_guild_order_unique`).
pub fn soundboard_sections(
    cache: Vec<GuildSounds>,
    current: &String,
    has_nitro: bool,
    names: &Vec<(String, String)>,
) -> (r: Vec<SoundSection>)
    requires
        distinct_guilds(cache@),
    ensures
        forall|i: int, j: int|
            0 <= i < j < r@.len() ==> #[trigger] r@[i].guild_id@ != #[trigger] r@[j].guild_id@,
        exists|ordered: Seq<GuildSounds>|
            {
                &&& ordered.to_multiset() == cache@.to_multiset()
                &&& guilds_in_order(ordered, current@)
                &&& r@.len() == ordered.len()
                &&& forall|i: int|
                    0 <= i < ordered.len() ==> section_shows(
                        #[trigger] r@[i],
                        ordered[i],
                        names@,
                        has_nitro,
                        current@,
                    )
            },
{
    let ghost input = cache@;
    let ordered = sort_guilds(cache, current.as_str());
    let ghost all = ordered@;
    proof {
        lemma_distinct_guilds_kept(input, all);
    }
    let mut rest = ordered;
    let mut out: Vec<SoundSection> = Vec::new();
    let n = rest.len();
    let mut i: usize = 0;
    assert(all.skip(0) =~= all);
    while i < n
        invariant
            i <= n,
            n == all.len(),
            rest@ == all.skip(i as int),
            out@.len() == i,
            distinct_guilds(all),
            forall|k: int|
                0 <= k < i ==> section_shows(#[trigger] out@[k], all[k], names@, has_nitro, current@),
        decreases n - i,
    {
        let entry = rest.remove(0);
        assert(entry == all[i as int]);
        assert(rest@ =~= all.skip(i + 1));
        let (guild_id, sounds) = entry;
        let heading = heading_for(&guild_id, names);
        let sounds = offer_sounds(sounds, has_nitro, current);
        out.push(SoundSection { guild_id, heading, sounds });
        i = i + 1;
    }
    out
}

/// The rules of the soundboard's order: the guild the user is in stands
/// before every other guild; the default sounds (empty id or "0") stand
/// before every guild other than the current one; two other guilds stand by
/// id, the larger first.
pub proof fn lemma_guild_order_rules(a: Seq<char>, b: Seq<char>, current: Seq<char>)
    ensures
        current.len() > 0 && a == current ==> stands_before(a, b, current),
        current.len() > 0 && a == current && b != current ==> !stands_before(b, a, current),
        (a.len() == 0 || a == seq!['0']) && b.len() > 0 && b != seq!['0'] && b != current
            ==> !stands_before(b, a, current),
        a.len() > 0 && a != seq!['0'] && a != current && b.len() > 0 && b != seq!['0'] && b
            != current ==> (stands_before(a, b, current) == !lex_less(a, b)),
{
    lemma_lex_irreflexive(a);
    if current.len() > 0 && a == current && b != current {
        lemma_lex_total(a, b);
    }
}

/// Which sounds the soundboard locks: with Nitro none; without it, exactly
/// the sounds of a guild other than the current one that are not default
/// sounds. Locked sounds are offered as unavailable, and locking never makes
/// an unavailable sound available.
pub proof fn lemma_lock_rules(sound: SoundboardSound, has_nitro: bool, current: Seq<char>)
    ensures
        has_nitro ==> !sound_locked(sound, has_nitro, current),
        sound.guild_id is None ==> !sound_locked(sound, has_nitro, current),
        sound.guild_id matches Some(g) ==> (g@ == seq!['0'] || g@ == current ==> !sound_locked(
            sound,
            has_nitro,
            current,
        )),
        sound.guild_id matches Some(g) ==> (!has_nitro && g@ != seq!['0'] && g@ != current
            ==> sound_locked(sound, has_nitro, current)),
        offered_sound(sound, has_nitro, current).available ==> sound.available,
        !sound_locked(sound, has_nitro, current) ==> offered_sound(sound, has_nitro, current)
            == sound,
        sound_locked(sound, has_nitro, current) ==> !offered_sound(
            sound,
            has_nitro,
            current,
        ).available,
{
}

} // verus!
