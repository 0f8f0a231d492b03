use crate::monos_gfx::types::{Position, Rect};
use crate::monos_kernel::utils::{get_bit_u8, spec_get_bit_u8};
use vstd::prelude::*;

verus! {

/// The first byte of a PS/2 mouse packet: buttons (bits 0..3), the always-set bit 3,
/// the signs of the movement (bits 4 and 5) and its overflow (bits 6 and 7).
#[derive(Debug, Clone, Copy, PartialEq, Eq, Structural)]
pub struct MouseFlags(pub u8);

impl MouseFlags {
    pub fn new(flags: u8) -> (r: MouseFlags)
        ensures
            r.0 == flags,
    {
        MouseFlags(flags)
    }

    pub fn as_u8(&self) -> (r: u8)
        ensures
            r == self.0,
    {
        self.0
    }

    pub fn left_button(&self) -> (r: bool)
        ensures
            r == spec_get_bit_u8(self.0, 0),
    {
        get_bit_u8(self.0, 0)
    }

    pub fn right_button(&self) -> (r: bool)
        ensures
            r == spec_get_bit_u8(self.0, 1),
    {
        get_bit_u8(self.0, 1)
    }

    pub fn middle_button(&self) -> (r: bool)
        ensures
            r == spec_get_bit_u8(self.0, 2),
    {
        get_bit_u8(self.0, 2)
    }

    /// A packet starts with bit 3 set.
    pub fn is_valid(&self) -> (r: bool)
        ensures
            r == spec_get_bit_u8(self.0, 3),
    {
        get_bit_u8(self.0, 3)
    }

    pub fn x_sign(&self) -> (r: bool)
        ensures
            r == spec_get_bit_u8(self.0, 4),
    {
        get_bit_u8(self.0, 4)
    }

    pub fn y_sign(&self) -> (r: bool)
        ensures
            r == spec_get_bit_u8(self.0, 5),
    {
        get_bit_u8(self.0, 5)
    }

    pub fn x_overflow(&self) -> (r: bool)
        ensures
            r == spec_get_bit_u8(self.0, 6),
    {
        get_bit_u8(self.0, 6)
    }

    pub fn y_overflow(&self) -> (r: bool)
        ensures
            r == spec_get_bit_u8(self.0, 7),
    {
        get_bit_u8(self.0, 7)
    }
}

/// One movement report of the mouse.
#[derive(Debug, Clone, Copy, PartialEq, Eq, Structural)]
pub struct MouseState {
    pub x: i16,
    pub y: i16,
    pub scroll: i8,
    pub flags: MouseFlags,
}

/// A mouse button: pressed now, and clicked (pressed now but not before).
#[derive(Debug, Clone, Copy, PartialEq, Eq, Structural)]
pub struct MouseButtonState {
    pub clicked: bool,
    pub pressed: bool,
}

impl Default for MouseButtonState {
    fn default() -> (r: MouseButtonState)
        ensures
            !r.clicked && !r.pressed,
    {
        MouseButtonState { clicked: false, pressed: false }
    }
}

impl MouseButtonState {
    pub fn update(&mut self, state: bool)
        ensures
            final(self).clicked == (!old(self).pressed && state),
            final(self).pressed == state,
    {
        self.clicked = !self.pressed && state;
        self.pressed = state;
    }
}

/// `v` raised to `lo`, then lowered to `hi`.
pub open spec fn clamp_to(v: int, lo: int, hi: int) -> int {
    let m = if v > lo {
        v
    } else {
        lo
    };
    if m < hi {
        m
    } else {
        hi
    }
}

/// The mouse as the interface sees it.
#[derive(Debug, Clone, Copy)]
pub struct MouseInput {
    pub position: Position,
    pub delta: Position,
    pub scroll: i64,
    pub left_button: MouseButtonState,
    pub right_button: MouseButtonState,
    pub middle_button: MouseButtonState,
}

impl Default for MouseInput {
    fn default() -> (r: MouseInput)
        ensures
            r.position.x == 0 && r.position.y == 0,
            r.delta.x == 0 && r.delta.y == 0,
            r.scroll == 0,
            !r.left_button.clicked && !r.left_button.pressed,
            !r.right_button.clicked && !r.right_button.pressed,
            !r.middle_button.clicked && !r.middle_button.pressed,
    {
        MouseInput {
            position: Position { x: 0, y: 0 },
            delta: Position { x: 0, y: 0 },
            scroll: 0,
            left_button: MouseButtonState::default(),
            right_button: MouseButtonState::default(),
            middle_button: MouseButtonState::default(),
        }
    }
}

impl MouseInput {
    /// Applies a movement report: the position moves (up for a positive `y`) and is kept
    /// inside `bounds`, the movement and scrolling add up, and the buttons update.
    pub fn update_new(&mut self, state: MouseState, bounds: Rect)
        requires
            i64::MIN <= old(self).position.x + state.x <= i64::MAX,
            i64::MIN <= old(self).position.y - state.y <= i64::MAX,
            i64::MIN <= old(self).delta.x + state.x <= i64::MAX,
            i64::MIN <= old(self).delta.y - state.y <= i64::MAX,
            i64::MIN <= old(self).scroll + state.scroll <= i64::MAX,
        ensures
            final(self).position.x == clamp_to(
                old(self).position.x + state.x,
                bounds.min.x as int,
                bounds.max.x as int,
            ),
            final(self).position.y == clamp_to(
                old(self).position.y - state.y,
                bounds.min.y as int,
                bounds.max.y as int,
            ),
            final(self).delta.x == old(self).delta.x + state.x,
            final(self).delta.y == old(self).delta.y - state.y,
            final(self).scroll == old(self).scroll + state.scroll,
            final(self).left_button.pressed == spec_get_bit_u8(state.flags.0, 0),
            final(self).left_button.clicked == (!old(self).left_button.pressed && spec_get_bit_u8(
                state.flags.0,
                0,
            )),
            final(self).right_button.pressed == spec_get_bit_u8(state.flags.0, 1),
            final(self).right_button.clicked == (!old(self).right_button.pressed
                && spec_get_bit_u8(state.flags.0, 1)),
            final(self).middle_button.pressed == spec_get_bit_u8(state.flags.0, 2),
            final(self).middle_button.clicked == (!old(self).middle_button.pressed
                && spec_get_bit_u8(state.flags.0, 2)),
    {
        let x = self.position.x + state.x as i64;
        let x = if x > bounds.min.x {
            x
        } else {
            bounds.min.x
        };
        self.position.x = if x < bounds.max.x {
            x
        } else {
            bounds.max.x
        };
        let y = self.position.y - state.y as i64;
        let y = if y > bounds.min.y {
            y
        } else {
            bounds.min.y
        };
        self.position.y = if y < bounds.max.y {
            y
        } else {
            bounds.max.y
        };
        self.delta.x = self.delta.x + state.x as i64;
        self.delta.y = self.delta.y - state.y as i64;
        self.scroll = self.scroll + state.scroll as i64;
        self.left_button.update(state.flags.left_button());
        self.right_button.update(state.flags.right_button());
        self.middle_button.update(state.flags.middle_button());
    }

    /// Forgets the clicks, the scrolling and the movement of the last frame.
    pub fn clear(&mut self)
        ensures
            final(self).position == old(self).position,
            !final(self).left_button.clicked,
            !final(self).right_button.clicked,
            !final(self).middle_button.clicked,
            final(self).left_button.pressed == old(self).left_button.pressed,
            final(self).right_button.pressed == old(self).right_button.pressed,
            final(self).middle_button.pressed == old(self).middle_button.pressed,
            final(self).scroll == 0,
            final(self).delta.x == 0 && final(self).delta.y == 0,
    {
        self.left_button.clicked = false;
        self.right_button.clicked = false;
        self.middle_button.clicked = false;
        self.scroll = 0;
        self.delta = Position::zero();
    }

    pub fn moved(&self) -> (r: bool)
        ensures
            r == (self.delta.x != 0 || self.delta.y != 0),
    {
        self.delta.x != 0 || self.delta.y != 0
    }
}

/// The keys that are not characters and that the interface acts on; `Other` holds the
/// scancode of any other.
#[derive(Debug, Clone, Copy, PartialEq, Eq, Structural)]
pub enum RawKey {
    ArrowLeft,
    ArrowRight,
    ArrowUp,
    ArrowDown,
    Return,
    Backspace,
    Delete,
    Other(u8),
}

/// A decoded key: a character, or a key without one.
#[derive(Debug, Clone, Copy, PartialEq, Eq, Structural)]
pub enum Key {
    Unicode(char),
    RawKey(RawKey),
}

#[derive(Debug, Clone, Copy, PartialEq, Eq, Structural)]
pub enum KeyState {
    Up,
    Down,
    SingleShot,
}

#[derive(Debug, Clone, Copy, PartialEq, Eq, Structural)]
pub struct KeyEvent {
    pub key: Key,
    pub state: KeyState,
}

/// The key events of a frame, oldest first.
#[derive(Debug, Clone)]
pub struct KeyboardInput {
    pub keys: Vec<KeyEvent>,
}

impl Default for KeyboardInput {
    fn default() -> (r: KeyboardInput)
        ensures
            r.keys@.len() == 0,
    {
        KeyboardInput { keys: Vec::new() }
    }
}

/// The index of the first event of `key`, if there is one.
pub open spec fn first_event_of(keys: Seq<KeyEvent>, key: Key) -> Option<int>
    decreases keys.len(),
{
    if keys.len() == 0 {
        None
    } else if keys[0].key == key {
        Some(0)
    } else {
        match first_event_of(keys.drop_first(), key) {
            Some(i) => Some(i + 1),
            None => None,
        }
    }
}

proof fn lemma_first_event_of(keys: Seq<KeyEvent>, key: Key)
    ensures
        match first_event_of(keys, key) {
            Some(i) => 0 <= i < keys.len() && keys[i].key == key && forall|j: int|
                0 <= j < i ==> keys[j].key != key,
            None => forall|j: int| 0 <= j < keys.len() ==> keys[j].key != key,
        },
    decreases keys.len(),
{
    if keys.len() > 0 {
        lemma_first_event_of(keys.drop_first(), key);
        if keys[0].key != key {
            assert forall|j: int| 1 <= j < keys.len() implies keys[j] == keys.drop_first()[j - 1] by {}
        }
    }
}

impl KeyboardInput {
    pub fn clear(&mut self)
        ensures
            final(self).keys@.len() == 0,
    {
        self.keys.clear();
    }

    /// Whether some event of the frame presses `key`.
    pub fn pressed(&self, key: Key) -> (r: bool)
        ensures
            r == exists|i: int|
                0 <= i < self.keys@.len() && #[trigger] self.keys@[i].key == key
                    && self.keys@[i].state == KeyState::Down,
    {
        let mut i: usize = 0;
        while i < self.keys.len()
            invariant
                i <= self.keys@.len(),
                forall|j: int|
                    0 <= j < i ==> !(#[trigger] self.keys@[j].key == key && self.keys@[j].state
                        == KeyState::Down),
            decreases self.keys@.len() - i,
        {
            let e = self.keys[i];
            if e.key == key && e.state == KeyState::Down {
                return true;
            }
            i = i + 1;
        }
        false
    }

    /// Takes the newest event.
    pub fn consume(&mut self) -> (r: Option<KeyEvent>)
        ensures
            old(self).keys@.len() == 0 ==> r is None && final(self).keys@ == old(self).keys@,
            old(self).keys@.len() > 0 ==> r == Some(old(self).keys@.last())
                && final(self).keys@ == old(self).keys@.drop_last(),
    {
        self.keys.pop()
    }

    /// Takes the first event of `key` and gives its state.
    pub fn consume_key(&mut self, key: Key) -> (r: Option<KeyState>)
        ensures
            match first_event_of(old(self).keys@, key) {
                Some(i) => r == Some(old(self).keys@[i].state) && final(self).keys@ == old(
                    self,
                ).keys@.remove(i),
                None => r is None && final(self).keys@ == old(self).keys@,
            },
    {
        proof {
            lemma_first_event_of(self.keys@, key);
        }
        let mut i: usize = 0;
        while i < self.keys.len()
            invariant
                i <= self.keys@.len(),
                self.keys@ == old(self).keys@,
                forall|j: int| 0 <= j < i ==> #[trigger] self.keys@[j].key != key,
                match first_event_of(old(self).keys@, key) {
                    Some(f) => 0 <= f < old(self).keys@.len() && old(self).keys@[f].key == key
                        && forall|j: int| 0 <= j < f ==> old(self).keys@[j].key != key,
                    None => forall|j: int|
                        0 <= j < old(self).keys@.len() ==> old(self).keys@[j].key != key,
                },
            decreases self.keys@.len() - i,
        {
            if self.keys[i].key == key {
                let e = self.keys.remove(i);
                return Some(e.state);
            }
            i = i + 1;
        }
        None
    }
}

/// The input of a frame.
#[derive(Debug, Clone)]
pub struct Input {
    pub mouse: MouseInput,
    pub keyboard: KeyboardInput,
}

impl Default for Input {
    fn default() -> (r: Input)
        ensures
            r.mouse.scroll == 0,
            r.keyboard.keys@.len() == 0,
    {
        Input { mouse: MouseInput::default(), keyboard: KeyboardInput::default() }
    }
}

impl Input {
    pub fn clear(&mut self)
        ensures
            final(self).mouse.position == old(self).mouse.position,
            !final(self).mouse.left_button.clicked,
            !final(self).mouse.right_button.clicked,
            !final(self).mouse.middle_button.clicked,
            final(self).mouse.left_button.pressed == old(self).mouse.left_button.pressed,
            final(self).mouse.right_button.pressed == old(self).mouse.right_button.pressed,
            final(self).mouse.middle_button.pressed == old(self).mouse.middle_button.pressed,
            final(self).mouse.scroll == 0,
            final(self).mouse.delta.x == 0 && final(self).mouse.delta.y == 0,
            final(self).keyboard.keys@.len() == 0,
    {
        self.mouse.clear();
        self.keyboard.clear();
    }

    /// Whether anything happened: a click, scrolling or a key event.
    pub fn any(&self) -> (r: bool)
        ensures
            r == (self.mouse.left_button.clicked || self.mouse.right_button.clicked
                || self.mouse.middle_button.clicked || self.mouse.scroll != 0
                || self.keyboard.keys@.len() != 0),
    {
        self.mouse.left_button.clicked || self.mouse.right_button.clicked
            || self.mouse.middle_button.clicked || self.mouse.scroll != 0
            || self.keyboard.keys.len() != 0
    }
}

} // verus!
