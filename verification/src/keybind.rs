//! Recording a keybind: keys are collected while the field has focus, and the
//! combination is taken once every key is released again.
use vstd::prelude::*;

use crate::text::{join, joined, string_views};

verus! {

/// A key, by the number the application gives it.
pub type KeyId = u32;

/// The recorder's state as sequences of keys.
#[verifier::ext_equal]
pub struct RecorderView {
    /// Keys held down right now.
    pub pressing: Seq<KeyId>,
    /// Every key pressed since the recording began, in the order of its
    /// first press.
    pub candidate: Seq<KeyId>,
    /// The combination taken last (or the one the field started with).
    pub recorded: Seq<KeyId>,
}

/// The state of a keybind field.
pub struct KeyRecorder {
    pressing: Vec<KeyId>,
    candidate: Vec<KeyId>,
    recorded: Vec<KeyId>,
}

impl View for KeyRecorder {
    type V = RecorderView;

    closed spec fn view(&self) -> RecorderView {
        RecorderView {
            pressing: self.pressing@,
            candidate: self.candidate@,
            recorded: self.recorded@,
        }
    }
}

/// `s` with `k` at its end, unless `s` holds it already.
pub open spec fn with_key(s: Seq<KeyId>, k: KeyId) -> Seq<KeyId> {
    if s.contains(k) {
        s
    } else {
        s.push(k)
    }
}

/// Every key but `k`.
pub open spec fn other_key(k: KeyId) -> spec_fn(KeyId) -> bool {
    |x: KeyId| x != k
}

/// `s` without `k`.
pub open spec fn without_key(s: Seq<KeyId>, k: KeyId) -> Seq<KeyId> {
    s.filter(other_key(k))
}

/// What the keybind field shows.
#[derive(PartialEq, Eq, Debug)]
pub enum KeybindDisplay {
    /// These keys, joined by " + ".
    Keys(Vec<KeyId>),
    /// The "Press keys..." hint, in the placeholder colour.
    Placeholder,
    /// Nothing.
    Blank,
}

fn copy_keys(v: &Vec<KeyId>) -> (r: Vec<KeyId>)
    ensures
        r@ == v@,
{
    let mut out: Vec<KeyId> = Vec::new();
    let mut i: usize = 0;
    while i < v.len()
        invariant
            i <= v.len(),
            out@ == v@.subrange(0, i as int),
        decreases v.len() - i,
    {
        out.push(v[i]);
        i = i + 1;
        assert(out@ =~= v@.subrange(0, i as int));
    }
    assert(v@.subrange(0, v@.len() as int) =~= v@);
    out
}

fn has_key(v: &Vec<KeyId>, k: KeyId) -> (r: bool)
    ensures
        r == v@.contains(k),
{
    let mut i: usize = 0;
    while i < v.len()
        invariant
            i <= v.len(),
            forall|j: int| 0 <= j < i ==> v@[j] != k,
        decreases v.len() - i,
    {
        if v[i] == k {
            return true;
        }
        i = i + 1;
    }
    false
}

fn drop_key(v: &Vec<KeyId>, k: KeyId) -> (r: Vec<KeyId>)
    ensures
        r@ == without_key(v@, k),
{
    let mut out: Vec<KeyId> = Vec::new();
    let mut i: usize = 0;
    assert(without_key(v@.subrange(0, 0), k) =~= Seq::<KeyId>::empty()) by {
        reveal(Seq::filter);
    }
    while i < v.len()
        invariant
            i <= v.len(),
            out@ == without_key(v@.subrange(0, i as int), k),
        decreases v.len() - i,
    {
        proof {
            let next = v@.subrange(0, i + 1);
            assert(next =~= v@.subrange(0, i as int).push(v@[i as int]));
            v@.subrange(0, i as int).lemma_filter_push(v@[i as int], other_key(k));
        }
        if v[i] != k {
            out.push(v[i]);
        }
        i = i + 1;
    }
    assert(v@.subrange(0, v@.len() as int) =~= v@);
    out
}

proof fn lemma_push_contains(s: Seq<KeyId>, a: KeyId, x: KeyId)
    ensures
        s.push(a).contains(x) <==> (s.contains(x) || x == a),
{
    if s.push(a).contains(x) {
        let j = choose|j: int| 0 <= j < s.push(a).len() && s.push(a)[j] == x;
        if j < s.len() {
            assert(s[j] == x);
        }
    }
    if s.contains(x) {
        let j = choose|j: int| 0 <= j < s.len() && s[j] == x;
        assert(s.push(a)[j] == x);
    }
    if x == a {
        assert(s.push(a)[s.len() as int] == a);
    }
}

proof fn lemma_push_no_duplicates(s: Seq<KeyId>, a: KeyId)
    ensures
        s.push(a).no_duplicates() <==> (s.no_duplicates() && !s.contains(a)),
{
    let t = s.push(a);
    if t.no_duplicates() {
        assert forall|i: int, j: int| 0 <= i < s.len() && 0 <= j < s.len() && i != j implies s[i]
            != s[j] by {
            assert(t[i] == s[i] && t[j] == s[j]);
        }
        if s.contains(a) {
            let j = choose|j: int| 0 <= j < s.len() && s[j] == a;
            assert(t[j] == t[s.len() as int]);
        }
    }
    if s.no_duplicates() && !s.contains(a) {
        assert forall|i: int, j: int| 0 <= i < t.len() && 0 <= j < t.len() && i != j implies t[i]
            != t[j] by {
            if i < s.len() && j < s.len() {
                assert(t[i] == s[i] && t[j] == s[j]);
            } else if i < s.len() {
                assert(t[i] == s[i]);
            } else if j < s.len() {
                assert(t[j] == s[j]);
            }
        }
    }
}

proof fn lemma_without_key_facts(s: Seq<KeyId>, k: KeyId)
    ensures
        forall|x: KeyId| #[trigger] without_key(s, k).contains(x) <==> (s.contains(x) && x != k),
        s.no_duplicates() ==> without_key(s, k).no_duplicates(),
    decreases s.len(),
{
    if s.len() == 0 {
        assert(without_key(s, k) =~= s) by {
            reveal(Seq::filter);
        }
    } else {
        let init = s.drop_last();
        let last = s.last();
        lemma_without_key_facts(init, k);
        assert(s =~= init.push(last));
        init.lemma_filter_push(last, other_key(k));
        let f = without_key(s, k);
        let g = without_key(init, k);
        assert forall|x: KeyId| #[trigger] f.contains(x) <==> (s.contains(x) && x != k) by {
            lemma_push_contains(init, last, x);
            lemma_push_contains(g, last, x);
        }
        if s.no_duplicates() {
            lemma_push_no_duplicates(init, last);
            if last != k {
                lemma_push_no_duplicates(g, last);
            }
        }
    }
}

/// No key is held or collected twice, and every key held is one collected.
pub open spec fn view_well_formed(v: RecorderView) -> bool {
    &&& v.pressing.no_duplicates()
    &&& v.candidate.no_duplicates()
    &&& forall|k: KeyId| v.pressing.contains(k) ==> v.candidate.contains(k)
}

/// An event the keybind field acts on: one that comes while it has focus,
/// and, for a key, a key it knows. Other events change nothing.
pub enum KeyEvent {
    Down(KeyId),
    Up(KeyId),
    /// A press somewhere in the window.
    Press,
}

/// The event releases the last key held while keys were collected: the
/// collection is taken.
pub open spec fn commits(v: RecorderView, e: KeyEvent) -> bool {
    match e {
        KeyEvent::Up(k) => without_key(v.pressing, k).len() == 0 && v.candidate.len() > 0,
        _ => false,
    }
}

/// The event ends the recording under way: it is taken, or dropped by a
/// press elsewhere.
pub open spec fn ends_recording(v: RecorderView, e: KeyEvent) -> bool {
    commits(v, e) || e is Press
}

/// The recorder after an event.
pub open spec fn recorder_step(v: RecorderView, e: KeyEvent) -> RecorderView {
    match e {
        KeyEvent::Down(k) => RecorderView {
            pressing: with_key(v.pressing, k),
            candidate: with_key(v.candidate, k),
            recorded: v.recorded,
        },
        KeyEvent::Up(k) => if commits(v, e) {
            RecorderView {
                pressing: without_key(v.pressing, k),
                candidate: Seq::empty(),
                recorded: v.candidate,
            }
        } else {
            RecorderView {
                pressing: without_key(v.pressing, k),
                candidate: v.candidate,
                recorded: v.recorded,
            }
        },
        KeyEvent::Press => RecorderView {
            pressing: Seq::empty(),
            candidate: Seq::empty(),
            recorded: v.recorded,
        },
    }
}

/// The combination an event hands back to be saved, if any.
pub open spec fn recorder_takes(v: RecorderView, e: KeyEvent) -> Option<Seq<KeyId>> {
    if commits(v, e) {
        Some(v.candidate)
    } else {
        None
    }
}

/// The recorder after a run of events.
pub open spec fn replay(v: RecorderView, events: Seq<KeyEvent>) -> RecorderView
    decreases events.len(),
{
    if events.len() == 0 {
        v
    } else {
        recorder_step(replay(v, events.drop_last()), events.last())
    }
}

/// The events since the last one that ended a recording.
pub open spec fn since_last_end(v: RecorderView, events: Seq<KeyEvent>) -> Seq<KeyEvent>
    decreases events.len(),
{
    if events.len() == 0 {
        Seq::empty()
    } else if ends_recording(replay(v, events.drop_last()), events.last()) {
        Seq::empty()
    } else {
        since_last_end(v, events.drop_last()).push(events.last())
    }
}

/// The keys pressed in a run of events, each once, in the order of its first
/// press.
pub open spec fn first_presses(events: Seq<KeyEvent>) -> Seq<KeyId>
    decreases events.len(),
{
    if events.len() == 0 {
        Seq::empty()
    } else {
        match events.last() {
            KeyEvent::Down(k) => with_key(first_presses(events.drop_last()), k),
            _ => first_presses(events.drop_last()),
        }
    }
}

proof fn lemma_with_key_facts(s: Seq<KeyId>, k: KeyId)
    ensures
        with_key(s, k).contains(k),
        forall|x: KeyId| s.contains(x) ==> #[trigger] with_key(s, k).contains(x),
        s.no_duplicates() ==> with_key(s, k).no_duplicates(),
{
    if !s.contains(k) {
        lemma_push_no_duplicates(s, k);
        lemma_push_contains(s, k, k);
        assert forall|x: KeyId| s.contains(x) implies #[trigger] with_key(s, k).contains(x) by {
            lemma_push_contains(s, k, x);
        }
    }
}

/// Every event keeps the recorder's invariant.
pub proof fn lemma_step_keeps_well_formed(v: RecorderView, e: KeyEvent)
    requires
        view_well_formed(v),
    ensures
        view_well_formed(recorder_step(v, e)),
{
    match e {
        KeyEvent::Down(k) => {
            lemma_with_key_facts(v.pressing, k);
            lemma_with_key_facts(v.candidate, k);
            let n = recorder_step(v, e);
            assert forall|x: KeyId| n.pressing.contains(x) implies n.candidate.contains(x) by {
                if x != k {
                    if !v.pressing.contains(k) {
                        lemma_push_contains(v.pressing, k, x);
                    }
                    assert(v.pressing.contains(x));
                }
            }
        },
        KeyEvent::Up(k) => {
            lemma_without_key_facts(v.pressing, k);
            let n = recorder_step(v, e);
            if commits(v, e) {
                assert forall|x: KeyId| n.pressing.contains(x) implies n.candidate.contains(x) by {
                    assert(n.pressing[0] == x);
                }
            }
        },
        KeyEvent::Press => {},
    }
}

/// Recording a keybind, over any run of events from a field with nothing
/// collected: no key is ever held or collected twice, every key held has
/// been collected, the collection lists the keys pressed since the last
/// event that ended a recording, each once, in the order of its first press,
/// and every combination handed back is non-empty, without repeated keys,
/// and exactly that list.
pub proof fn lemma_recording_history(v: RecorderView, events: Seq<KeyEvent>)
    requires
        view_well_formed(v),
        v.candidate.len() == 0,
    ensures
        view_well_formed(replay(v, events)),
        replay(v, events).candidate == first_presses(since_last_end(v, events)),
        forall|i: int|
            0 <= i < events.len() ==> (#[trigger] recorder_takes(
                replay(v, events.take(i)),
                events[i],
            ) matches Some(keys) ==> {
                &&& keys == first_presses(since_last_end(v, events.take(i)))
                &&& keys.len() > 0
                &&& keys.no_duplicates()
            }),
    decreases events.len(),
{
    if events.len() == 0 {
        assert(first_presses(Seq::<KeyEvent>::empty()) == Seq::<KeyId>::empty());
        assert(v.candidate =~= Seq::<KeyId>::empty());
    } else {
        let init = events.drop_last();
        let e = events.last();
        lemma_recording_history(v, init);
        let prev = replay(v, init);
        lemma_step_keeps_well_formed(prev, e);
        if !ends_recording(prev, e) {
            let since = since_last_end(v, events);
            assert(since.drop_last() =~= since_last_end(v, init));
            assert(since.last() == e);
        } else {
            assert(first_presses(Seq::<KeyEvent>::empty()) == Seq::<KeyId>::empty());
            assert(replay(v, events).candidate =~= Seq::<KeyId>::empty());
        }
        assert forall|i: int|
            0 <= i < events.len() implies (#[trigger] recorder_takes(
            replay(v, events.take(i)),
            events[i],
        ) matches Some(keys) ==> {
            &&& keys == first_presses(since_last_end(v, events.take(i)))
            &&& keys.len() > 0
            &&& keys.no_duplicates()
        }) by {
            if i < init.len() {
                assert(events.take(i) =~= init.take(i));
                assert(events[i] == init[i]);
                assert(recorder_takes(replay(v, init.take(i)), init[i]) == recorder_takes(
                    replay(v, events.take(i)),
                    events[i],
                ));
            } else {
                assert(events.take(i) =~= init);
            }
        }
    }
}

impl KeyRecorder {
    /// The recorder's invariant: no key is held or collected twice, and every
    /// key held is one collected.
    pub open spec fn well_formed(&self) -> bool {
        view_well_formed(self@)
    }

    /// A field showing `initial` (or nothing), with no key held.
    pub fn new(initial: Option<Vec<KeyId>>) -> (r: KeyRecorder)
        ensures
            r.well_formed(),
            r@.pressing == Seq::<KeyId>::empty(),
            r@.candidate == Seq::<KeyId>::empty(),
            r@.recorded == (match initial {
                Some(v) => v@,
                None => Seq::<KeyId>::empty(),
            }),
    {
        let recorded = match initial {
            Some(v) => v,
            None => Vec::new(),
        };
        KeyRecorder { pressing: Vec::new(), candidate: Vec::new(), recorded }
    }

    /// The keys held down right now.
    pub fn pressing(&self) -> (r: &Vec<KeyId>)
        ensures
            r@ == self@.pressing,
    {
        &self.pressing
    }

    /// The keys collected in the recording under way.
    pub fn candidate(&self) -> (r: &Vec<KeyId>)
        ensures
            r@ == self@.candidate,
    {
        &self.candidate
    }

    /// The combination taken last.
    pub fn recorded(&self) -> (r: &Vec<KeyId>)
        ensures
            r@ == self@.recorded,
    {
        &self.recorded
    }

    /// A key went down. While the field has focus a known key is held and
    /// collected (each once), and the event is consumed (the result); else
    /// nothing changes.
    pub fn key_down(&mut self, focused: bool, key: Option<KeyId>) -> (consumed: bool)
        requires
            old(self).well_formed(),
        ensures
            final(self).well_formed(),
            consumed == (focused && key is Some),
            consumed ==> final(self)@ == recorder_step(old(self)@, KeyEvent::Down(key->0)),
            consumed ==> final(self)@.pressing == with_key(old(self)@.pressing, key->0)
                && final(self)@.candidate == with_key(old(self)@.candidate, key->0)
                && final(self)@.recorded == old(self)@.recorded,
            !consumed ==> final(self)@ == old(self)@,
    {
        if !focused {
            return false;
        }
        let k = match key {
            Some(k) => k,
            None => {
                return false;
            },
        };
        let ghost before = self@;
        if !has_key(&self.pressing, k) {
            self.pressing.push(k);
        }
        if !has_key(&self.candidate, k) {
            self.candidate.push(k);
        }
        proof {
            assert forall|x: KeyId| self@.pressing.contains(x) implies self@.candidate.contains(
                x,
            ) by {
                if x != k {
                    let j = choose|j: int| 0 <= j < self@.pressing.len() && self@.pressing[j] == x;
                    assert(before.pressing.contains(x)) by {
                        assert(j < before.pressing.len());
                        assert(before.pressing[j] == x);
                    }
                    assert(before.candidate.contains(x));
                    let i = choose|i: int|
                        0 <= i < before.candidate.len() && before.candidate[i] == x;
                    assert(self@.candidate[i] == x);
                } else {
                    if before.candidate.contains(k) {
                    } else {
                        assert(self@.candidate[self@.candidate.len() - 1] == k);
                    }
                }
            }
        }
        true
    }

    /// A key went up. While the field has focus and the key is known it is no
    /// longer held; once no key is held, a non-empty collection becomes the
    /// recorded combination, the collection starts over, and the combination
    /// is handed back to be saved. Otherwise nothing is handed back, and
    /// without focus or a known key nothing changes.
    pub fn key_up(&mut self, focused: bool, key: Option<KeyId>) -> (taken: Option<Vec<KeyId>>)
        requires
            old(self).well_formed(),
        ensures
            final(self).well_formed(),
            taken matches Some(k) ==> k@.len() > 0 && k@.no_duplicates(),
            focused && key is Some ==> final(self)@ == recorder_step(old(self)@, KeyEvent::Up(key->0))
                && match taken {
                Some(k) => recorder_takes(old(self)@, KeyEvent::Up(key->0)) == Some(k@),
                None => recorder_takes(old(self)@, KeyEvent::Up(key->0)) is None,
            },
            !(focused && key is Some) ==> final(self)@ == old(self)@ && taken is None,
            focused && key is Some ==> {
                let held = without_key(old(self)@.pressing, key->0);
                let done = held.len() == 0 && old(self)@.candidate.len() > 0;
                &&& final(self)@.pressing == held
                &&& done ==> final(self)@.candidate == Seq::<KeyId>::empty()
                    && final(self)@.recorded == old(self)@.candidate && taken is Some
                    && taken->0@ == old(self)@.candidate
                &&& !done ==> final(self)@.candidate == old(self)@.candidate
                    && final(self)@.recorded == old(self)@.recorded && taken is None
            },
    {
        if !focused {
            return None;
        }
        let k = match key {
            Some(k) => k,
            None => {
                return None;
            },
        };
        let ghost before = self@;
        proof {
            lemma_without_key_facts(before.pressing, k);
        }
        self.pressing = drop_key(&self.pressing, k);
        if self.pressing.len() == 0 && self.candidate.len() > 0 {
            let keys = copy_keys(&self.candidate);
            self.recorded = copy_keys(&self.candidate);
            self.candidate = Vec::new();
            Some(keys)
        } else {
            None
        }
    }

    /// A press somewhere in the window. While the field has focus the
    /// recording is dropped and the field should give up its focus (the
    /// result); otherwise nothing changes.
    pub fn global_press(&mut self, focused: bool) -> (unfocus: bool)
        requires
            old(self).well_formed(),
        ensures
            final(self).well_formed(),
            unfocus == focused,
            focused ==> final(self)@ == recorder_step(old(self)@, KeyEvent::Press),
            focused ==> final(self)@.pressing == Seq::<KeyId>::empty()
                && final(self)@.candidate == Seq::<KeyId>::empty()
                && final(self)@.recorded == old(self)@.recorded,
            !focused ==> final(self)@ == old(self)@,
    {
        if focused {
            self.pressing = Vec::new();
            self.candidate = Vec::new();
        }
        focused
    }

    /// What the field shows: while focused, the keys collected so far; else
    /// (or before the first key) the recorded combination; failing that the
    /// hint while focused, and nothing otherwise.
    pub fn display(&self, focused: bool) -> (r: KeybindDisplay)
        ensures
            focused && self@.candidate.len() > 0 ==> (r matches KeybindDisplay::Keys(v)
                && v@ == self@.candidate),
            !(focused && self@.candidate.len() > 0) && self@.recorded.len() > 0 ==> (r matches KeybindDisplay::Keys(v)
                && v@ == self@.recorded),
            !(focused && self@.candidate.len() > 0) && self@.recorded.len() == 0 ==> r == (
            if focused {
                KeybindDisplay::Placeholder
            } else {
                KeybindDisplay::Blank
            }),
    {
        if focused && self.candidate.len() > 0 {
            KeybindDisplay::Keys(copy_keys(&self.candidate))
        } else if self.recorded.len() > 0 {
            KeybindDisplay::Keys(copy_keys(&self.recorded))
        } else if focused {
            KeybindDisplay::Placeholder
        } else {
            KeybindDisplay::Blank
        }
    }
}

/// The names of the keys, joined by " + ".
pub fn keys_display(names: &Vec<String>) -> (r: String)
    ensures
        r@ == joined(string_views(names@), " + "@),
{
    join(names, " + ")
}

} // verus!
