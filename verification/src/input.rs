use vstd::prelude::*;

verus! {

/// Number of tracked keys.
pub const KEY_COUNT: usize = 83;

/// Number of 64-bit words a key set needs.
pub const KEY_WORDS: usize = 2;

/// A key tracked by the keyboard state, named after its physical position on
/// a US layout.
#[derive(Clone, Copy, PartialEq, Eq, Structural, Hash, Debug)]
pub enum Key {
    // Letters
    KeyA,
    KeyB,
    KeyC,
    KeyD,
    KeyE,
    KeyF,
    KeyG,
    KeyH,
    KeyI,
    KeyJ,
    KeyK,
    KeyL,
    KeyM,
    KeyN,
    KeyO,
    KeyP,
    KeyQ,
    KeyR,
    KeyS,
    KeyT,
    KeyU,
    KeyV,
    KeyW,
    KeyX,
    KeyY,
    KeyZ,
    // Top-row digits
    Digit0,
    Digit1,
    Digit2,
    Digit3,
    Digit4,
    Digit5,
    Digit6,
    Digit7,
    Digit8,
    Digit9,
    // Function row
    F1,
    F2,
    F3,
    F4,
    F5,
    F6,
    F7,
    F8,
    F9,
    F10,
    F11,
    F12,
    // Arrows
    ArrowUp,
    ArrowDown,
    ArrowLeft,
    ArrowRight,
    // Whitespace & control
    Space,
    Enter,
    Tab,
    Backspace,
    Escape,
    // Modifiers
    ShiftLeft,
    ShiftRight,
    ControlLeft,
    ControlRight,
    AltLeft,
    AltRight,
    SuperLeft,
    SuperRight,
    CapsLock,
    // Punctuation (US-physical positions)
    Minus,
    Equal,
    BracketLeft,
    BracketRight,
    Backslash,
    Semicolon,
    Quote,
    Backquote,
    Comma,
    Period,
    Slash,
    // Navigation cluster
    Insert,
    Delete,
    Home,
    End,
    PageUp,
    PageDown,
}

/// The key's position in declaration order.
pub open spec fn key_index(k: Key) -> nat {
    match k {
        Key::KeyA => 0,
        Key::KeyB => 1,
        Key::KeyC => 2,
        Key::KeyD => 3,
        Key::KeyE => 4,
        Key::KeyF => 5,
        Key::KeyG => 6,
        Key::KeyH => 7,
        Key::KeyI => 8,
        Key::KeyJ => 9,
        Key::KeyK => 10,
        Key::KeyL => 11,
        Key::KeyM => 12,
        Key::KeyN => 13,
        Key::KeyO => 14,
        Key::KeyP => 15,
        Key::KeyQ => 16,
        Key::KeyR => 17,
        Key::KeyS => 18,
        Key::KeyT => 19,
        Key::KeyU => 20,
        Key::KeyV => 21,
        Key::KeyW => 22,
        Key::KeyX => 23,
        Key::KeyY => 24,
        Key::KeyZ => 25,
        Key::Digit0 => 26,
        Key::Digit1 => 27,
        Key::Digit2 => 28,
        Key::Digit3 => 29,
        Key::Digit4 => 30,
        Key::Digit5 => 31,
        Key::Digit6 => 32,
        Key::Digit7 => 33,
        Key::Digit8 => 34,
        Key::Digit9 => 35,
        Key::F1 => 36,
        Key::F2 => 37,
        Key::F3 => 38,
        Key::F4 => 39,
        Key::F5 => 40,
        Key::F6 => 41,
        Key::F7 => 42,
        Key::F8 => 43,
        Key::F9 => 44,
        Key::F10 => 45,
        Key::F11 => 46,
        Key::F12 => 47,
        Key::ArrowUp => 48,
        Key::ArrowDown => 49,
        Key::ArrowLeft => 50,
        Key::ArrowRight => 51,
        Key::Space => 52,
        Key::Enter => 53,
        Key::Tab => 54,
        Key::Backspace => 55,
        Key::Escape => 56,
        Key::ShiftLeft => 57,
        Key::ShiftRight => 58,
        Key::ControlLeft => 59,
        Key::ControlRight => 60,
        Key::AltLeft => 61,
        Key::AltRight => 62,
        Key::SuperLeft => 63,
        Key::SuperRight => 64,
        Key::CapsLock => 65,
        Key::Minus => 66,
        Key::Equal => 67,
        Key::BracketLeft => 68,
        Key::BracketRight => 69,
        Key::Backslash => 70,
        Key::Semicolon => 71,
        Key::Quote => 72,
        Key::Backquote => 73,
        Key::Comma => 74,
        Key::Period => 75,
        Key::Slash => 76,
        Key::Insert => 77,
        Key::Delete => 78,
        Key::Home => 79,
        Key::End => 80,
        Key::PageUp => 81,
        Key::PageDown => 82,
    }
}

/// Different keys have different declaration positions, all below
/// [`KEY_COUNT`].
pub proof fn lemma_key_index_injective(a: Key, b: Key)
    ensures
        key_index(a) < KEY_COUNT,
        key_index(a) == key_index(b) ==> a == b,
{
}

impl Key {
    /// Number of tracked keys.
    pub const COUNT: usize = 83;

    /// The key's position in declaration order.
    pub fn index(self) -> (r: usize)
        ensures
            r == key_index(self),
    {
        match self {
            Key::KeyA => 0,
            Key::KeyB => 1,
            Key::KeyC => 2,
            Key::KeyD => 3,
            Key::KeyE => 4,
            Key::KeyF => 5,
            Key::KeyG => 6,
            Key::KeyH => 7,
            Key::KeyI => 8,
            Key::KeyJ => 9,
            Key::KeyK => 10,
            Key::KeyL => 11,
            Key::KeyM => 12,
            Key::KeyN => 13,
            Key::KeyO => 14,
            Key::KeyP => 15,
            Key::KeyQ => 16,
            Key::KeyR => 17,
            Key::KeyS => 18,
            Key::KeyT => 19,
            Key::KeyU => 20,
            Key::KeyV => 21,
            Key::KeyW => 22,
            Key::KeyX => 23,
            Key::KeyY => 24,
            Key::KeyZ => 25,
            Key::Digit0 => 26,
            Key::Digit1 => 27,
            Key::Digit2 => 28,
            Key::Digit3 => 29,
            Key::Digit4 => 30,
            Key::Digit5 => 31,
            Key::Digit6 => 32,
            Key::Digit7 => 33,
            Key::Digit8 => 34,
            Key::Digit9 => 35,
            Key::F1 => 36,
            Key::F2 => 37,
            Key::F3 => 38,
            Key::F4 => 39,
            Key::F5 => 40,
            Key::F6 => 41,
            Key::F7 => 42,
            Key::F8 => 43,
            Key::F9 => 44,
            Key::F10 => 45,
            Key::F11 => 46,
            Key::F12 => 47,
            Key::ArrowUp => 48,
            Key::ArrowDown => 49,
            Key::ArrowLeft => 50,
            Key::ArrowRight => 51,
            Key::Space => 52,
            Key::Enter => 53,
            Key::Tab => 54,
            Key::Backspace => 55,
            Key::Escape => 56,
            Key::ShiftLeft => 57,
            Key::ShiftRight => 58,
            Key::ControlLeft => 59,
            Key::ControlRight => 60,
            Key::AltLeft => 61,
            Key::AltRight => 62,
            Key::SuperLeft => 63,
            Key::SuperRight => 64,
            Key::CapsLock => 65,
            Key::Minus => 66,
            Key::Equal => 67,
            Key::BracketLeft => 68,
            Key::BracketRight => 69,
            Key::Backslash => 70,
            Key::Semicolon => 71,
            Key::Quote => 72,
            Key::Backquote => 73,
            Key::Comma => 74,
            Key::Period => 75,
            Key::Slash => 76,
            Key::Insert => 77,
            Key::Delete => 78,
            Key::Home => 79,
            Key::End => 80,
            Key::PageUp => 81,
            Key::PageDown => 82,
        }
    }
}


/// Whether bit `j` of `x` is set.
pub open spec fn bit_set(x: u64, j: u64) -> bool {
    (x >> j) & 1u64 == 1u64
}

proof fn lemma_mask_test(x: u64, b: u64)
    requires
        b < 64,
    ensures
        (x & (1u64 << b) != 0u64) == bit_set(x, b),
{
    assert((x & (1u64 << b) != 0u64) == ((x >> b) & 1u64 == 1u64)) by (bit_vector)
        requires
            b < 64,
    ;
}

proof fn lemma_or_bit(x: u64, b: u64, j: u64)
    requires
        b < 64,
        j < 64,
    ensures
        bit_set(x | (1u64 << b), j) == (bit_set(x, j) || j == b),
{
    assert((((x | (1u64 << b)) >> j) & 1u64 == 1u64) == (((x >> j) & 1u64 == 1u64) || j == b)) by (bit_vector)
        requires
            b < 64,
            j < 64,
    ;
}

proof fn lemma_clear_bit(x: u64, b: u64, j: u64)
    requires
        b < 64,
        j < 64,
    ensures
        bit_set(x & !(1u64 << b), j) == (bit_set(x, j) && j != b),
{
    assert((((x & !(1u64 << b)) >> j) & 1u64 == 1u64) == (((x >> j) & 1u64 == 1u64) && j != b)) by (bit_vector)
        requires
            b < 64,
            j < 64,
    ;
}

proof fn lemma_or_words(x: u64, y: u64, j: u64)
    requires
        j < 64,
    ensures
        bit_set(x | y, j) == (bit_set(x, j) || bit_set(y, j)),
{
    assert((((x | y) >> j) & 1u64 == 1u64) == (((x >> j) & 1u64 == 1u64) || ((y >> j) & 1u64 == 1u64))) by (bit_vector)
        requires
            j < 64,
    ;
}

proof fn lemma_zero_word(j: u64)
    requires
        j < 64,
    ensures
        !bit_set(0u64, j),
{
    assert(((0u64 >> j) & 1u64) == 0u64) by (bit_vector);
}

proof fn lemma_single_bit(b: u64)
    requires
        b < 64,
    ensures
        (1u64 << b) != 0,
        (1u64 << b) & (((1u64 << b) - 1) as u64) == 0,
{
    assert((1u64 << b) != 0 && (1u64 << b) & (((1u64 << b) - 1) as u64) == 0) by (bit_vector)
        requires
            b < 64,
    ;
}

/// Every key position fits in the words of a key set.
pub proof fn lemma_keys_fit_words()
    ensures
        KEY_COUNT <= 64 * KEY_WORDS,
{
}

/// The positions whose bit is set in a pair of words.
pub open spec fn words_view(words: [u64; KEY_WORDS]) -> Set<nat> {
    Set::new(|i: nat| i < 128 && bit_set(words[(i / 64) as int], (i % 64) as u64))
}

/// A set of keys, one bit per key position.
#[derive(Clone, Copy, Default, Debug)]
pub struct KeySet {
    words: [u64; KEY_WORDS],
}

impl View for KeySet {
    type V = Set<nat>;

    /// The positions of the keys in the set.
    closed spec fn view(&self) -> Set<nat> {
        words_view(self.words)
    }
}

impl KeySet {
    /// The empty set.
    pub fn new() -> (r: KeySet)
        ensures
            r@ == Set::<nat>::empty(),
    {
        let r = KeySet { words: [0u64, 0u64] };
        proof {
            assert forall|i: nat| !r@.contains(i) by {
                if i < 128 {
                    lemma_zero_word((i % 64) as u64);
                }
            }
            assert(r@ =~= Set::<nat>::empty());
        }
        r
    }

    /// The word holding `key`'s bit and the mask selecting it.
    pub fn split(key: Key) -> (r: (usize, u64))
        ensures
            r.0 == key_index(key) / 64,
            r.0 < KEY_WORDS,
            r.1 == 1u64 << (key_index(key) % 64) as u64,
            r.1 != 0,
            r.1 & ((r.1 - 1) as u64) == 0,
    {
        proof {
            lemma_key_index_injective(key, key);
            let b = (key_index(key) % 64) as u64;
            lemma_single_bit(b);
        }
        let i = key.index();
        (i / 64, 1u64 << ((i % 64) as u64))
    }

    /// Add `key`; answers whether it was absent.
    pub fn insert(&mut self, key: Key) -> (r: bool)
        ensures
            final(self)@ == old(self)@.insert(key_index(key)),
            r == !old(self)@.contains(key_index(key)),
    {
        let (w, bit) = Self::split(key);
        let ghost k = key_index(key);
        let ghost b = (k % 64) as u64;
        let was_set = self.words[w] & bit != 0;
        proof {
            lemma_mask_test(old(self).words[w as int], b);
            lemma_key_index_injective(key, key);
        }
        self.words[w] = self.words[w] | bit;
        proof {
            assert forall|i: nat| #[trigger] self@.contains(i) == old(self)@.insert(k).contains(i) by {
                if i < 128 {
                    let j = (i % 64) as u64;
                    if i / 64 == w {
                        lemma_or_bit(old(self).words[w as int], b, j);
                    }
                }
            }
            assert(self@ =~= old(self)@.insert(k));
        }
        !was_set
    }

    /// Remove `key`.
    pub fn remove(&mut self, key: Key)
        ensures
            final(self)@ == old(self)@.remove(key_index(key)),
    {
        let (w, bit) = Self::split(key);
        let ghost k = key_index(key);
        let ghost b = (k % 64) as u64;
        proof {
            lemma_key_index_injective(key, key);
        }
        self.words[w] = self.words[w] & !bit;
        proof {
            assert forall|i: nat| #[trigger] self@.contains(i) == old(self)@.remove(k).contains(i) by {
                if i < 128 {
                    let j = (i % 64) as u64;
                    if i / 64 == w {
                        lemma_clear_bit(old(self).words[w as int], b, j);
                    }
                }
            }
            assert(self@ =~= old(self)@.remove(k));
        }
    }

    /// Whether `key` is in the set.
    pub fn contains(self, key: Key) -> (r: bool)
        ensures
            r == self@.contains(key_index(key)),
    {
        let (w, bit) = Self::split(key);
        proof {
            lemma_key_index_injective(key, key);
            lemma_mask_test(self.words[w as int], (key_index(key) % 64) as u64);
        }
        self.words[w] & bit != 0
    }

    /// Remove every key.
    pub fn clear(&mut self)
        ensures
            final(self)@ == Set::<nat>::empty(),
    {
        *self = KeySet::new();
    }

    /// Add every key of `other`.
    pub fn union(&mut self, other: &KeySet)
        ensures
            final(self)@ == old(self)@.union(other@),
    {
        let a0 = self.words[0] | other.words[0];
        let a1 = self.words[1] | other.words[1];
        self.words = [a0, a1];
        proof {
            assert forall|i: nat| #[trigger] self@.contains(i) == old(self)@.union(other@).contains(i) by {
                if i < 128 {
                    let j = (i % 64) as u64;
                    lemma_or_words(old(self).words[(i / 64) as int], other.words[(i / 64) as int], j);
                }
            }
            assert(self@ =~= old(self)@.union(other@));
        }
    }
}

/// Whether a key went down or came up.
#[derive(Clone, Copy, PartialEq, Eq, Structural, Hash, Debug)]
pub enum KeyState {
    Pressed,
    Released,
}

/// Keyboard state as `(held, pressed)` sets of key positions.
pub type InputModel = (Set<nat>, Set<nat>);

/// A key event: a press that is not an OS auto-repeat, of a key not already
/// held, adds the key to both sets; a release removes it from the held set;
/// anything else changes nothing.
pub open spec fn model_on_key(m: InputModel, k: nat, state: KeyState, repeat: bool) -> InputModel {
    match state {
        KeyState::Pressed => {
            if !repeat && !m.0.contains(k) {
                (m.0.insert(k), m.1.insert(k))
            } else {
                m
            }
        },
        KeyState::Released => (m.0.remove(k), m.1),
    }
}

/// Starting a frame drops the press edges and keeps the held keys.
pub open spec fn model_begin_frame(m: InputModel) -> InputModel {
    (m.0, Set::empty())
}

/// Merging another frame's state takes its held keys and accumulates its
/// press edges.
pub open spec fn model_merge(m: InputModel, other: InputModel) -> InputModel {
    (other.0, m.1.union(other.1))
}

/// A fresh press is seen as pressed for exactly one frame while the key
/// stays held; a release then ends the hold.
pub proof fn law_press_hold_release(m: InputModel, k: nat)
    requires
        !m.0.contains(k),
    ensures
        ({
            let pressed = model_on_key(m, k, KeyState::Pressed, false);
            let next = model_begin_frame(pressed);
            let released = model_on_key(next, k, KeyState::Released, false);
            &&& pressed.0.contains(k) && pressed.1.contains(k)
            &&& next.0.contains(k) && !next.1.contains(k)
            &&& !released.0.contains(k)
        }),
{
}

/// An OS auto-repeat of a held key never counts as a new press.
pub proof fn law_repeat_does_not_retrigger(m: InputModel, k: nat, repeat: bool)
    requires
        m.0.contains(k) || repeat,
    ensures
        model_on_key(m, k, KeyState::Pressed, repeat) == m,
{
}

/// A key event only touches the key it is about.
pub proof fn law_key_event_is_local(m: InputModel, k: nat, other: nat, state: KeyState, repeat: bool)
    requires
        other != k,
    ensures
        model_on_key(m, k, state, repeat).0.contains(other) == m.0.contains(other),
        model_on_key(m, k, state, repeat).1.contains(other) == m.1.contains(other),
{
}

/// Key events never take back a press edge: a key pressed since the frame
/// began stays pressed whatever key events follow, a release included,
/// until the next frame begins.
pub proof fn law_key_events_never_drop_presses(m: InputModel, k: nat, key: nat, state: KeyState, repeat: bool)
    requires
        m.1.contains(k),
    ensures
        model_on_key(m, key, state, repeat).1.contains(k),
{
}

/// A release only ends the hold: the press edges are exactly as before,
/// and the released key is no longer held.
pub proof fn law_release_only_ends_the_hold(m: InputModel, k: nat, repeat: bool)
    ensures
        model_on_key(m, k, KeyState::Released, repeat).1 == m.1,
        !model_on_key(m, k, KeyState::Released, repeat).0.contains(k),
        model_on_key(m, k, KeyState::Released, repeat).0 == m.0.remove(k),
{
}

/// After any press the key is held; a fresh press (not a repeat, of a key
/// not held) is also a press edge; a key that was not pressed and not
/// freshly pressed does not become pressed.
pub proof fn law_press_holds_and_marks_fresh(m: InputModel, k: nat, repeat: bool)
    ensures
        model_on_key(m, k, KeyState::Pressed, repeat).0.contains(k) || (repeat && !m.0.contains(k)),
        !repeat ==> model_on_key(m, k, KeyState::Pressed, repeat).0.contains(k),
        (!repeat && !m.0.contains(k)) ==> model_on_key(m, k, KeyState::Pressed, repeat).1 == m.1.insert(k),
        (repeat || m.0.contains(k)) ==> model_on_key(m, k, KeyState::Pressed, repeat).1 == m.1,
{
}

/// Beginning a frame keeps exactly the held keys and forgets every press
/// edge.
pub proof fn law_begin_frame_clears_presses_only(m: InputModel, k: nat)
    ensures
        model_begin_frame(m).0 == m.0,
        !model_begin_frame(m).1.contains(k),
{
}

/// Merging never drops a press edge: every key pressed on either side is
/// still pressed afterwards.
pub proof fn law_merge_keeps_presses(m: InputModel, other: InputModel)
    ensures
        m.1.subset_of(model_merge(m, other).1),
        other.1.subset_of(model_merge(m, other).1),
        model_merge(m, other).0 == other.0,
{
}

/// The state of the keyboard.
#[derive(Clone, Copy, Default, Debug)]
pub struct KeyboardInput {
    /// The keys being held down now.
    held: KeySet,
    /// The keys that went down since the last frame began.
    pressed: KeySet,
}

impl KeyboardInput {
    /// Positions of the keys held down.
    pub closed spec fn held_set(&self) -> Set<nat> {
        self.held@
    }

    /// Positions of the keys that went down since the last frame began.
    pub closed spec fn pressed_set(&self) -> Set<nat> {
        self.pressed@
    }

    /// No key held or pressed.
    pub fn new() -> (r: KeyboardInput)
        ensures
            r.held_set() == Set::<nat>::empty(),
            r.pressed_set() == Set::<nat>::empty(),
    {
        KeyboardInput { held: KeySet::new(), pressed: KeySet::new() }
    }

    /// Whether `key` is held down.
    pub fn held(&self, key: Key) -> (r: bool)
        ensures
            r == self.held_set().contains(key_index(key)),
    {
        self.held.contains(key)
    }

    /// True only on the first frame after the key went down.
    pub fn pressed(&self, key: Key) -> (r: bool)
        ensures
            r == self.pressed_set().contains(key_index(key)),
    {
        self.pressed.contains(key)
    }

    /// Start a frame: press edges are dropped, held keys stay.
    pub fn begin_frame(&mut self)
        ensures
            (final(self).held_set(), final(self).pressed_set()) == model_begin_frame(
                (old(self).held_set(), old(self).pressed_set()),
            ),
    {
        self.pressed.clear();
    }

    /// Record a key event. A press that is not an OS auto-repeat, of a key not
    /// already held, marks the key held and pressed; a release unmarks held.
    pub fn on_key(&mut self, key: Key, state: KeyState, repeat: bool)
        ensures
            (final(self).held_set(), final(self).pressed_set()) == model_on_key(
                (old(self).held_set(), old(self).pressed_set()),
                key_index(key),
                state,
                repeat,
            ),
    {
        match state {
            KeyState::Pressed => {
                if !repeat {
                    let newly = self.held.insert(key);
                    if newly {
                        self.pressed.insert(key);
                    } else {
                        proof {
                            assert(self.held@ =~= old(self).held@);
                        }
                    }
                }
            },
            KeyState::Released => {
                self.held.remove(key);
            },
        }
    }

    /// OR another frame's key state into this one: held keys are taken from
    /// `other`, press edges are accumulated, so an edge-triggered input is
    /// never silently dropped.
    pub fn merge(&mut self, other: &KeyboardInput)
        ensures
            (final(self).held_set(), final(self).pressed_set()) == model_merge(
                (old(self).held_set(), old(self).pressed_set()),
                (other.held_set(), other.pressed_set()),
            ),
    {
        self.held = other.held;
        self.pressed.union(&other.pressed);
    }

    /// Drop accumulated press edges, keeping the held state.
    pub fn clear_presses(&mut self)
        ensures
            final(self).pressed_set() == Set::<nat>::empty(),
            final(self).held_set() == old(self).held_set(),
    {
        self.pressed.clear();
    }
}

} // verus!
