//! Input events pushed once per polled frame into the world's input
//! dispatch.  Mouse coordinates are carried as whole pixel counts.

use vstd::prelude::*;

verus! {

/// A keyboard key.
#[derive(Copy, Clone, Eq, PartialEq, Ord, PartialOrd, Hash, Debug, Structural)]
pub enum Key {
    Space,
    Apostrophe,
    Comma,
    Minus,
    Period,
    Slash,
    Num0,
    Num1,
    Num2,
    Num3,
    Num4,
    Num5,
    Num6,
    Num7,
    Num8,
    Num9,
    Semicolon,
    Equal,
    A,
    B,
    C,
    D,
    E,
    F,
    G,
    H,
    I,
    J,
    K,
    L,
    M,
    N,
    O,
    P,
    Q,
    R,
    S,
    T,
    U,
    V,
    W,
    X,
    Y,
    Z,
    LeftBracket,
    Backslash,
    RightBracket,
    GraveAccent,
    World1,
    World2,
    Escape,
    Enter,
    Tab,
    Backspace,
    Insert,
    Delete,
    Right,
    Left,
    Down,
    Up,
    PageUp,
    PageDown,
    Home,
    End,
    CapsLock,
    ScrollLock,
    NumLock,
    PrintScreen,
    Pause,
    F1,
    F2,
    F3,
    F4,
    F5,
    F6,
    F7,
    F8,
    F9,
    F10,
    F11,
    F12,
    F13,
    F14,
    F15,
    F16,
    F17,
    F18,
    F19,
    F20,
    F21,
    F22,
    F23,
    F24,
    F25,
    Kp0,
    Kp1,
    Kp2,
    Kp3,
    Kp4,
    Kp5,
    Kp6,
    Kp7,
    Kp8,
    Kp9,
    KpDecimal,
    KpDivide,
    KpMultiply,
    KpSubtract,
    KpAdd,
    KpEnter,
    KpEqual,
    LeftShift,
    LeftControl,
    LeftAlt,
    LeftSuper,
    RightShift,
    RightControl,
    RightAlt,
    RightSuper,
    Menu,
    Unknown,
}

/// A platform scancode.
pub type Scancode = i32;

/// What happened to a key or button.
#[derive(Copy, Clone, Eq, PartialEq, Ord, PartialOrd, Hash, Debug, Structural)]
pub enum Action {
    Release,
    Press,
    Repeat,
}

/// The modifier keys held while an event fired.
#[derive(Copy, Clone, Eq, PartialEq, Hash, Debug, Structural)]
pub struct Modifier {
    pub shift: bool,
    pub control: bool,
    pub alt: bool,
    pub super_key: bool,
    pub capslock: bool,
    pub numlock: bool,
}

impl Modifier {
    /// No modifier held.
    pub fn none() -> (m: Modifier)
        ensures
            !m.shift && !m.control && !m.alt && !m.super_key && !m.capslock && !m.numlock,
    {
        Modifier {
            shift: false,
            control: false,
            alt: false,
            super_key: false,
            capslock: false,
            numlock: false,
        }
    }
}

/// A mouse button.
#[derive(Copy, Clone, Eq, PartialEq, Ord, PartialOrd, Hash, Debug, Structural)]
pub enum MouseButton {
    ButtonLeft,
    ButtonRight,
    ButtonMiddle,
    Button4,
    Button5,
    Button6,
    Button7,
    Button8,
}

/// One polled input event.  Every entity with the input capability sees
/// every event of the frame; there is no consumption or short-circuiting.
#[derive(Copy, Clone, Eq, PartialEq, Hash, Debug, Structural)]
pub enum Input {
    Key(Key, Scancode, Action, Modifier),
    Char(char),
    MouseMotion { rel_x: i64, rel_y: i64, abs_x: i64, abs_y: i64 },
    MouseButton(MouseButton, Action, Modifier),
}

} // verus!
