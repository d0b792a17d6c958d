use vstd::prelude::*;

use crate::keycode::{key_for, key_of, LogicalKey, Platform};
use crate::keys::Keys;
use crate::Failure;

verus! {

/// Opaque handle of the platform's synthetic-input facility.
#[verifier::external_type_specification]
#[verifier::external_body]
pub struct ExEnigo(enigo::Enigo);

/// How a key is sent.
#[derive(Clone, Copy, Debug, PartialEq, Eq, Structural)]
pub enum KeyDirection {
    Press,
    Release,
    /// A press followed by a release.
    Click,
}

/// One synthetic input event that the keyboard was asked to send.
pub enum Stroke {
    Key(LogicalKey, KeyDirection),
    Text(Seq<char>),
}

/// The modifier of the copy shortcut: Meta on macOS, Control elsewhere.
pub open spec fn copy_modifier(p: Platform) -> LogicalKey {
    if p == Platform::MacOs {
        LogicalKey::Meta
    } else {
        LogicalKey::Control
    }
}

/// The strokes of the copy shortcut: hold the modifier, click `C`, let go.
pub open spec fn copy_strokes(p: Platform) -> Seq<Stroke> {
    seq![
        Stroke::Key(copy_modifier(p), KeyDirection::Press),
        Stroke::Key(key_for(p, 'C')->0, KeyDirection::Click),
        Stroke::Key(copy_modifier(p), KeyDirection::Release),
    ]
}

/// Release strokes for each of `keys`, in order.
pub open spec fn release_strokes(keys: Seq<LogicalKey>) -> Seq<Stroke> {
    keys.map_values(|k: LogicalKey| Stroke::Key(k, KeyDirection::Release))
}

/// A click of the key for each character of `text` on platform `p`.
pub open spec fn click_strokes(p: Platform, text: Seq<char>) -> Seq<Stroke> {
    text.map_values(|c: char| Stroke::Key(key_for(p, c)->0, KeyDirection::Click))
}

/// Every character of `text` has a key on platform `p`.
pub open spec fn all_keyed(p: Platform, text: Seq<char>) -> bool {
    forall|i: int| 0 <= i < text.len() ==> (#[trigger] key_for(p, text[i])) is Some
}

/// The events added to a record between `before` and `after`, each with
/// whether it went through.
pub open spec fn added(before: Seq<(Stroke, bool)>, after: Seq<(Stroke, bool)>) -> Seq<(Stroke, bool)> {
    after.subrange(before.len() as int, after.len() as int)
}

/// `after` is `before` with events added at the end.
pub open spec fn extends(before: Seq<(Stroke, bool)>, after: Seq<(Stroke, bool)>) -> bool {
    before.len() <= after.len() && after.subrange(0, before.len() as int) == before
}

/// Every added event went through.
pub open spec fn all_ok(events: Seq<(Stroke, bool)>) -> bool {
    forall|i: int| 0 <= i < events.len() ==> (#[trigger] events[i]).1
}

/// The strokes of `events`, without their outcomes.
pub open spec fn strokes_of(events: Seq<(Stroke, bool)>) -> Seq<Stroke> {
    events.map_values(|e: (Stroke, bool)| e.0)
}

/// `events` are the planned strokes sent in order up to and including the
/// first that failed, or all of them when none failed.
pub open spec fn sent_until_failure(events: Seq<(Stroke, bool)>, planned: Seq<Stroke>) -> bool {
    &&& events.len() <= planned.len()
    &&& strokes_of(events) == planned.take(events.len() as int)
    &&& forall|i: int| 0 <= i < events.len() - 1 ==> (#[trigger] events[i]).1
    &&& events.len() < planned.len() ==> events.len() > 0 && !events.last().1
}

/// Relies on `enigo::Enigo::new` with default settings: opens the
/// synthetic-input handle, or says why it cannot.
#[verifier::external_body]
fn open_input() -> (r: Result<enigo::Enigo, enigo::NewConError>) {
    enigo::Enigo::new(&enigo::Settings::default())
}

/// Relies on `enigo::Keyboard::key`: sends one key event.
#[verifier::external_body]
fn send_key(input: &mut enigo::Enigo, key: LogicalKey, direction: KeyDirection) -> (r: Result<
    (),
    enigo::InputError,
>) {
    let key = match key {
        LogicalKey::Control => enigo::Key::Control,
        LogicalKey::Shift => enigo::Key::Shift,
        LogicalKey::Alt => enigo::Key::Alt,
        LogicalKey::Meta => enigo::Key::Meta,
        LogicalKey::Other(v) => enigo::Key::Other(v),
        LogicalKey::Unicode(c) => enigo::Key::Unicode(c),
    };
    let direction = match direction {
        KeyDirection::Press => enigo::Direction::Press,
        KeyDirection::Release => enigo::Direction::Release,
        KeyDirection::Click => enigo::Direction::Click,
    };
    enigo::Keyboard::key(input, key, direction)
}

/// Relies on `enigo::Keyboard::text`: types a text.
#[verifier::external_body]
fn send_text(input: &mut enigo::Enigo, text: &str) -> (r: Result<(), enigo::InputError>) {
    enigo::Keyboard::text(input, text)
}

/// Synthesizes key presses and text for the platform it was made for, and
/// records, as ghost state, every event it sent and whether it went through.
pub struct Keyboard {
    input: enigo::Enigo,
    platform: Platform,
    strokes: Ghost<Seq<(Stroke, bool)>>,
}

impl Keyboard {
    /// The platform whose key codes this keyboard sends.
    pub closed spec fn platform(&self) -> Platform {
        self.platform
    }

    /// Every event this keyboard sent, oldest first, with whether the
    /// synthetic-input layer accepted it.
    pub closed spec fn sent(&self) -> Seq<(Stroke, bool)> {
        self.strokes@
    }

    /// Opens the platform's synthetic-input handle; fails with `NewCon` when
    /// the system refuses it.
    pub fn new(platform: Platform) -> (r: Result<Keyboard, Failure>)
        ensures
            match r {
                Ok(k) => k.platform() == platform && k.sent() == Seq::<(Stroke, bool)>::empty(),
                Err(e) => e is NewCon,
            },
    {
        match open_input() {
            Ok(input) => Ok(Keyboard { input, platform, strokes: Ghost(Seq::empty()) }),
            Err(e) => Err(Failure::NewCon(e)),
        }
    }

    fn send(&mut self, key: LogicalKey, direction: KeyDirection) -> (r: Result<(), Failure>)
        ensures
            final(self).platform() == old(self).platform(),
            final(self).sent() == old(self).sent().push((Stroke::Key(key, direction), r is Ok)),
            r is Err ==> r->Err_0 is Input,
    {
        let sent = send_key(&mut self.input, key, direction);
        self.strokes = Ghost(self.strokes@.push((Stroke::Key(key, direction), sent is Ok)));
        match sent {
            Ok(()) => Ok(()),
            Err(e) => Err(Failure::Input(e)),
        }
    }

    /// Presses the platform's copy shortcut. A failed press ends it there;
    /// once the press went through, `C` is clicked and the modifier released
    /// whether or not the click went through.
    pub fn copy(&mut self) -> (r: Result<(), Failure>)
        ensures
            final(self).platform() == old(self).platform(),
            extends(old(self).sent(), final(self).sent()),
            ({
                let events = added(old(self).sent(), final(self).sent());
                let planned = copy_strokes(old(self).platform());
                &&& events.len() >= 1
                &&& events[0].0 == planned[0]
                &&& !events[0].1 ==> events.len() == 1
                &&& events[0].1 ==> strokes_of(events) == planned
                &&& (r is Ok <==> all_ok(events))
            }),
            r is Err ==> r->Err_0 is Input,
    {
        let ghost before = self.strokes@;
        let modifier = match self.platform {
            Platform::MacOs => LogicalKey::Meta,
            _ => LogicalKey::Control,
        };
        let c = match key_of(self.platform, 'C') {
            Ok(k) => k,
            Err(e) => {
                assert(false);
                return Err(e);
            },
        };
        let ghost planned = copy_strokes(self.platform);
        match self.send(modifier, KeyDirection::Press) {
            Ok(()) => {},
            Err(e) => {
                assert(added(before, self.strokes@) =~= seq![(planned[0], false)]);
                assert(self.strokes@.subrange(0, before.len() as int) =~= before);
                return Err(e);
            },
        }
        let clicked = self.send(c, KeyDirection::Click);
        let released = self.send(modifier, KeyDirection::Release);
        let ghost events = added(before, self.strokes@);
        assert(events =~= seq![(planned[0], true), (planned[1], clicked is Ok), (planned[2], released is Ok)]);
        assert(strokes_of(events) =~= planned);
        assert(self.strokes@.subrange(0, before.len() as int) =~= before);
        assert(all_ok(events) ==> events[1].1 && events[2].1);
        match clicked {
            Ok(()) => released,
            Err(e) => Err(e),
        }
    }

    /// Releases each of `keys` in order, stopping at the first that fails.
    pub fn release_keys(&mut self, keys: Keys) -> (r: Result<(), Failure>)
        ensures
            final(self).platform() == old(self).platform(),
            extends(old(self).sent(), final(self).sent()),
            sent_until_failure(added(old(self).sent(), final(self).sent()), release_strokes(keys.0@)),
            r is Ok <==> all_ok(added(old(self).sent(), final(self).sent())),
            r is Err ==> r->Err_0 is Input,
    {
        let ghost before = self.strokes@;
        let ghost planned = release_strokes(keys.0@);
        let mut i: usize = 0;
        assert(self.strokes@.subrange(0, before.len() as int) =~= before);
        assert(added(before, self.strokes@) =~= Seq::<(Stroke, bool)>::empty());
        while i < keys.0.len()
            invariant
                self.platform == old(self).platform,
                before == old(self).strokes@,
                planned == release_strokes(keys.0@),
                i <= keys.0.len(),
                extends(before, self.strokes@),
                added(before, self.strokes@).len() == i,
                strokes_of(added(before, self.strokes@)) == planned.take(i as int),
                all_ok(added(before, self.strokes@)),
            decreases keys.0.len() - i,
        {
            let ghost prev = self.strokes@;
            let r = self.send(keys.0[i], KeyDirection::Release);
            let ghost events = added(before, self.strokes@);
            assert(events =~= added(before, prev).push((planned[i as int], r is Ok)));
            assert(strokes_of(events) =~= planned.take(i + 1));
            assert(self.strokes@.subrange(0, before.len() as int) =~= before);
            if r.is_err() {
                assert(!events.last().1);
                return r;
            }
            i = i + 1;
        }
        assert(planned.take(i as int) =~= planned);
        Ok(())
    }

    /// Types `text` into whatever application has focus. On the Unicode
    /// platform the text goes to the input layer whole. On Windows and macOS
    /// each character is clicked through the platform's key table, since the
    /// input layer's own character path only works from the main UI thread
    /// there; a character outside the table is `UnsupportedKey` naming the
    /// first such character, and then nothing is sent.
    pub fn text(&mut self, text: &str) -> (r: Result<(), Failure>)
        ensures
            final(self).platform() == old(self).platform(),
            extends(old(self).sent(), final(self).sent()),
            old(self).platform() == Platform::Unicode ==> {
                let events = added(old(self).sent(), final(self).sent());
                &&& events.len() == 1
                &&& events[0].0 == Stroke::Text(text@)
                &&& (r is Ok <==> events[0].1)
                &&& (r is Err ==> r->Err_0 is Input)
            },
            old(self).platform() != Platform::Unicode && all_keyed(old(self).platform(), text@)
                ==> {
                let events = added(old(self).sent(), final(self).sent());
                &&& sent_until_failure(events, click_strokes(old(self).platform(), text@))
                &&& (r is Ok <==> all_ok(events))
                &&& (r is Err ==> r->Err_0 is Input)
            },
            old(self).platform() != Platform::Unicode && !all_keyed(old(self).platform(), text@)
                ==> {
                &&& final(self).sent() == old(self).sent()
                &&& r is Err && r->Err_0 is UnsupportedKey
                &&& exists|j: int|
                    0 <= j < text@.len() && key_for(old(self).platform(), text@[j]) is None
                        && all_keyed(old(self).platform(), text@.take(j))
                        && r->Err_0->UnsupportedKey_0@ == seq![text@[j]]
            },
    {
        let ghost before = self.strokes@;
        if self.platform == Platform::Unicode {
            let sent = send_text(&mut self.input, text);
            self.strokes = Ghost(self.strokes@.push((Stroke::Text(text@), sent is Ok)));
            assert(added(before, self.strokes@) =~= seq![(Stroke::Text(text@), sent is Ok)]);
            assert(self.strokes@.subrange(0, before.len() as int) =~= before);
            return match sent {
                Ok(()) => Ok(()),
                Err(e) => Err(Failure::Input(e)),
            };
        }
        let p = self.platform;
        let n = text.unicode_len();
        let mut keys: Vec<LogicalKey> = Vec::new();
        let mut i: usize = 0;
        while i < n
            invariant
                self.platform == p,
                self.strokes@ == before,
                before == old(self).strokes@,
                p == old(self).platform,
                p != Platform::Unicode,
                n == text@.len(),
                i <= n,
                keys@.len() == i,
                forall|k: int| 0 <= k < i ==> key_for(p, text@[k]) == Some(#[trigger] keys@[k]),
            decreases n - i,
        {
            let c = text.get_char(i);
            match key_of(p, c) {
                Ok(k) => keys.push(k),
                Err(e) => {
                    assert forall|k: int| 0 <= k < i implies (#[trigger] key_for(p, text@.take(i as int)[k])) is Some by {
                        assert(text@.take(i as int)[k] == text@[k]);
                        assert(key_for(p, text@[k]) == Some(keys@[k]));
                    }
                    assert(all_keyed(p, text@.take(i as int)));
                    assert(!all_keyed(p, text@));
                    assert(self.strokes@.subrange(0, before.len() as int) =~= before);
                    return Err(e);
                },
            }
            i = i + 1;
        }
        assert forall|k: int| 0 <= k < n implies (#[trigger] key_for(p, text@[k])) is Some by {
            assert(key_for(p, text@[k]) == Some(keys@[k]));
        }
        assert(all_keyed(p, text@));
        let ghost planned = click_strokes(p, text@);
        assert(self.strokes@.subrange(0, before.len() as int) =~= before);
        assert(added(before, self.strokes@) =~= Seq::<(Stroke, bool)>::empty());
        let mut j: usize = 0;
        while j < n
            invariant
                self.platform == p,
                before == old(self).strokes@,
                p == old(self).platform,
                p != Platform::Unicode,
                all_keyed(p, text@),
                n == text@.len(),
                keys@.len() == n,
                forall|k: int| 0 <= k < n ==> key_for(p, text@[k]) == Some(#[trigger] keys@[k]),
                planned == click_strokes(p, text@),
                j <= n,
                extends(before, self.strokes@),
                added(before, self.strokes@).len() == j,
                strokes_of(added(before, self.strokes@)) == planned.take(j as int),
                all_ok(added(before, self.strokes@)),
            decreases n - j,
        {
            let ghost prev = self.strokes@;
            let r = self.send(keys[j], KeyDirection::Click);
            let ghost events = added(before, self.strokes@);
            assert(keys@[j as int] == key_for(p, text@[j as int])->0);
            assert(events =~= added(before, prev).push((planned[j as int], r is Ok)));
            assert(strokes_of(events) =~= planned.take(j + 1));
            assert(self.strokes@.subrange(0, before.len() as int) =~= before);
            if r.is_err() {
                assert(!events.last().1);
                return r;
            }
            j = j + 1;
        }
        assert(planned.take(j as int) =~= planned);
        Ok(())
    }
}

} // verus!
