//! Keystroke model: the subset of keyboard keys the lock screen reads,
//! and the character each one contributes to the password buffer.
//!
//! The host converts raw window-system key events into [`KeySym`] values;
//! everything from there on is verified.  `Enter` and `Other` contribute
//! nothing; `Backspace` is handled by the caller and contributes nothing
//! here either.

use vstd::prelude::*;

verus! {

/// A keyboard key as the lock screen sees it.
#[derive(Clone, Copy, PartialEq, Eq, Structural, Debug)]
pub enum KeySym {
    A,
    B,
    C,
    D,
    E,
    F,
    G,
    H,
    I,
    J,
    K,
    L,
    M,
    N,
    O,
    P,
    Q,
    R,
    S,
    T,
    U,
    V,
    W,
    X,
    Y,
    Z,
    Num0,
    Num1,
    Num2,
    Num3,
    Num4,
    Num5,
    Num6,
    Num7,
    Num8,
    Num9,
    Space,
    Minus,
    Equals,
    OpenBracket,
    CloseBracket,
    Backslash,
    Semicolon,
    Quote,
    Comma,
    Period,
    Slash,
    Backtick,
    Enter,
    Backspace,
    Other,
}

/// The characters a key contributes to the password, with and without
/// shift: letters give their two cases, digits their shifted symbols,
/// punctuation likewise; keys with no printable meaning give nothing.
pub open spec fn format_key_spec(key: KeySym, shift_pressed: bool) -> Seq<char> {
    match key {
        KeySym::A => if shift_pressed { seq!['A'] } else { seq!['a'] },
        KeySym::B => if shift_pressed { seq!['B'] } else { seq!['b'] },
        KeySym::C => if shift_pressed { seq!['C'] } else { seq!['c'] },
        KeySym::D => if shift_pressed { seq!['D'] } else { seq!['d'] },
        KeySym::E => if shift_pressed { seq!['E'] } else { seq!['e'] },
        KeySym::F => if shift_pressed { seq!['F'] } else { seq!['f'] },
        KeySym::G => if shift_pressed { seq!['G'] } else { seq!['g'] },
        KeySym::H => if shift_pressed { seq!['H'] } else { seq!['h'] },
        KeySym::I => if shift_pressed { seq!['I'] } else { seq!['i'] },
        KeySym::J => if shift_pressed { seq!['J'] } else { seq!['j'] },
        KeySym::K => if shift_pressed { seq!['K'] } else { seq!['k'] },
        KeySym::L => if shift_pressed { seq!['L'] } else { seq!['l'] },
        KeySym::M => if shift_pressed { seq!['M'] } else { seq!['m'] },
        KeySym::N => if shift_pressed { seq!['N'] } else { seq!['n'] },
        KeySym::O => if shift_pressed { seq!['O'] } else { seq!['o'] },
        KeySym::P => if shift_pressed { seq!['P'] } else { seq!['p'] },
        KeySym::Q => if shift_pressed { seq!['Q'] } else { seq!['q'] },
        KeySym::R => if shift_pressed { seq!['R'] } else { seq!['r'] },
        KeySym::S => if shift_pressed { seq!['S'] } else { seq!['s'] },
        KeySym::T => if shift_pressed { seq!['T'] } else { seq!['t'] },
        KeySym::U => if shift_pressed { seq!['U'] } else { seq!['u'] },
        KeySym::V => if shift_pressed { seq!['V'] } else { seq!['v'] },
        KeySym::W => if shift_pressed { seq!['W'] } else { seq!['w'] },
        KeySym::X => if shift_pressed { seq!['X'] } else { seq!['x'] },
        KeySym::Y => if shift_pressed { seq!['Y'] } else { seq!['y'] },
        KeySym::Z => if shift_pressed { seq!['Z'] } else { seq!['z'] },
        KeySym::Num0 => if shift_pressed { seq![')'] } else { seq!['0'] },
        KeySym::Num1 => if shift_pressed { seq!['!'] } else { seq!['1'] },
        KeySym::Num2 => if shift_pressed { seq!['@'] } else { seq!['2'] },
        KeySym::Num3 => if shift_pressed { seq!['#'] } else { seq!['3'] },
        KeySym::Num4 => if shift_pressed { seq!['$'] } else { seq!['4'] },
        KeySym::Num5 => if shift_pressed { seq!['%'] } else { seq!['5'] },
        KeySym::Num6 => if shift_pressed { seq!['^'] } else { seq!['6'] },
        KeySym::Num7 => if shift_pressed { seq!['&'] } else { seq!['7'] },
        KeySym::Num8 => if shift_pressed { seq!['*'] } else { seq!['8'] },
        KeySym::Num9 => if shift_pressed { seq!['('] } else { seq!['9'] },
        KeySym::Space => seq![' '],
        KeySym::Minus => if shift_pressed { seq!['_'] } else { seq!['-'] },
        KeySym::Equals => if shift_pressed { seq!['+'] } else { seq!['='] },
        KeySym::OpenBracket => if shift_pressed { seq!['{'] } else { seq!['['] },
        KeySym::CloseBracket => if shift_pressed { seq!['}'] } else { seq![']'] },
        KeySym::Backslash => if shift_pressed { seq!['|'] } else { seq!['\\'] },
        KeySym::Semicolon => if shift_pressed { seq![':'] } else { seq![';'] },
        KeySym::Quote => if shift_pressed { seq!['"'] } else { seq!['\''] },
        KeySym::Comma => if shift_pressed { seq!['<'] } else { seq![','] },
        KeySym::Period => if shift_pressed { seq!['>'] } else { seq!['.'] },
        KeySym::Slash => if shift_pressed { seq!['?'] } else { seq!['/'] },
        KeySym::Backtick => if shift_pressed { seq!['~'] } else { seq!['`'] },
        _ => Seq::<char>::empty(),
    }
}

/// Renders a key press as the text it appends to the password.
#[verifier::rlimit(100)]
pub fn format_key(key: KeySym, shift_pressed: bool) -> (r: String)
    ensures
        r@ == format_key_spec(key, shift_pressed),
{
    match key {
        KeySym::A => {
            let r = if shift_pressed {
                String::from_str("A")
            } else {
                String::from_str("a")
            };
            proof {
                reveal_strlit("A");
                reveal_strlit("a");
                assert(r@ =~= format_key_spec(key, shift_pressed));
            }
            r
        },
        KeySym::B => {
            let r = if shift_pressed {
                String::from_str("B")
            } else {
                String::from_str("b")
            };
            proof {
                reveal_strlit("B");
                reveal_strlit("b");
                assert(r@ =~= format_key_spec(key, shift_pressed));
            }
            r
        },
        KeySym::C => {
            let r = if shift_pressed {
                String::from_str("C")
            } else {
                String::from_str("c")
            };
            proof {
                reveal_strlit("C");
                reveal_strlit("c");
                assert(r@ =~= format_key_spec(key, shift_pressed));
            }
            r
        },
        KeySym::D => {
            let r = if shift_pressed {
                String::from_str("D")
            } else {
                String::from_str("d")
            };
            proof {
                reveal_strlit("D");
                reveal_strlit("d");
                assert(r@ =~= format_key_spec(key, shift_pressed));
            }
            r
        },
        KeySym::E => {
            let r = if shift_pressed {
                String::from_str("E")
            } else {
                String::from_str("e")
            };
            proof {
                reveal_strlit("E");
                reveal_strlit("e");
                assert(r@ =~= format_key_spec(key, shift_pressed));
            }
            r
        },
        KeySym::F => {
            let r = if shift_pressed {
                String::from_str("F")
            } else {
                String::from_str("f")
            };
            proof {
                reveal_strlit("F");
                reveal_strlit("f");
                assert(r@ =~= format_key_spec(key, shift_pressed));
            }
            r
        },
        KeySym::G => {
            let r = if shift_pressed {
                String::from_str("G")
            } else {
                String::from_str("g")
            };
            proof {
                reveal_strlit("G");
                reveal_strlit("g");
                assert(r@ =~= format_key_spec(key, shift_pressed));
            }
            r
        },
        KeySym::H => {
            let r = if shift_pressed {
                String::from_str("H")
            } else {
                String::from_str("h")
            };
            proof {
                reveal_strlit("H");
                reveal_strlit("h");
                assert(r@ =~= format_key_spec(key, shift_pressed));
            }
            r
        },
        KeySym::I => {
            let r = if shift_pressed {
                String::from_str("I")
            } else {
                String::from_str("i")
            };
            proof {
                reveal_strlit("I");
                reveal_strlit("i");
                assert(r@ =~= format_key_spec(key, shift_pressed));
            }
            r
        },
        KeySym::J => {
            let r = if shift_pressed {
                String::from_str("J")
            } else {
                String::from_str("j")
            };
            proof {
                reveal_strlit("J");
                reveal_strlit("j");
                assert(r@ =~= format_key_spec(key, shift_pressed));
            }
            r
        },
        KeySym::K => {
            let r = if shift_pressed {
                String::from_str("K")
            } else {
                String::from_str("k")
            };
            proof {
                reveal_strlit("K");
                reveal_strlit("k");
                assert(r@ =~= format_key_spec(key, shift_pressed));
            }
            r
        },
        KeySym::L => {
            let r = if shift_pressed {
                String::from_str("L")
            } else {
                String::from_str("l")
            };
            proof {
                reveal_strlit("L");
                reveal_strlit("l");
                assert(r@ =~= format_key_spec(key, shift_pressed));
            }
            r
        },
        KeySym::M => {
            let r = if shift_pressed {
                String::from_str("M")
            } else {
                String::from_str("m")
            };
            proof {
                reveal_strlit("M");
                reveal_strlit("m");
                assert(r@ =~= format_key_spec(key, shift_pressed));
            }
            r
        },
        KeySym::N => {
            let r = if shift_pressed {
                String::from_str("N")
            } else {
                String::from_str("n")
            };
            proof {
                reveal_strlit("N");
                reveal_strlit("n");
                assert(r@ =~= format_key_spec(key, shift_pressed));
            }
            r
        },
        KeySym::O => {
            let r = if shift_pressed {
                String::from_str("O")
            } else {
                String::from_str("o")
            };
            proof {
                reveal_strlit("O");
                reveal_strlit("o");
                assert(r@ =~= format_key_spec(key, shift_pressed));
            }
            r
        },
        KeySym::P => {
            let r = if shift_pressed {
                String::from_str("P")
            } else {
                String::from_str("p")
            };
            proof {
                reveal_strlit("P");
                reveal_strlit("p");
                assert(r@ =~= format_key_spec(key, shift_pressed));
            }
            r
        },
        KeySym::Q => {
            let r = if shift_pressed {
                String::from_str("Q")
            } else {
                String::from_str("q")
            };
            proof {
                reveal_strlit("Q");
                reveal_strlit("q");
                assert(r@ =~= format_key_spec(key, shift_pressed));
            }
            r
        },
        KeySym::R => {
            let r = if shift_pressed {
                String::from_str("R")
            } else {
                String::from_str("r")
            };
            proof {
                reveal_strlit("R");
                reveal_strlit("r");
                assert(r@ =~= format_key_spec(key, shift_pressed));
            }
            r
        },
        KeySym::S => {
            let r = if shift_pressed {
                String::from_str("S")
            } else {
                String::from_str("s")
            };
            proof {
                reveal_strlit("S");
                reveal_strlit("s");
                assert(r@ =~= format_key_spec(key, shift_pressed));
            }
            r
        },
        KeySym::T => {
            let r = if shift_pressed {
                String::from_str("T")
            } else {
                String::from_str("t")
            };
            proof {
                reveal_strlit("T");
                reveal_strlit("t");
                assert(r@ =~= format_key_spec(key, shift_pressed));
            }
            r
        },
        KeySym::U => {
            let r = if shift_pressed {
                String::from_str("U")
            } else {
                String::from_str("u")
            };
            proof {
                reveal_strlit("U");
                reveal_strlit("u");
                assert(r@ =~= format_key_spec(key, shift_pressed));
            }
            r
        },
        KeySym::V => {
            let r = if shift_pressed {
                String::from_str("V")
            } else {
                String::from_str("v")
            };
            proof {
                reveal_strlit("V");
                reveal_strlit("v");
                assert(r@ =~= format_key_spec(key, shift_pressed));
            }
            r
        },
        KeySym::W => {
            let r = if shift_pressed {
                String::from_str("W")
            } else {
                String::from_str("w")
            };
            proof {
                reveal_strlit("W");
                reveal_strlit("w");
                assert(r@ =~= format_key_spec(key, shift_pressed));
            }
            r
        },
        KeySym::X => {
            let r = if shift_pressed {
                String::from_str("X")
            } else {
                String::from_str("x")
            };
            proof {
                reveal_strlit("X");
                reveal_strlit("x");
                assert(r@ =~= format_key_spec(key, shift_pressed));
            }
            r
        },
        KeySym::Y => {
            let r = if shift_pressed {
                String::from_str("Y")
            } else {
                String::from_str("y")
            };
            proof {
                reveal_strlit("Y");
                reveal_strlit("y");
                assert(r@ =~= format_key_spec(key, shift_pressed));
            }
            r
        },
        KeySym::Z => {
            let r = if shift_pressed {
                String::from_str("Z")
            } else {
                String::from_str("z")
            };
            proof {
                reveal_strlit("Z");
                reveal_strlit("z");
                assert(r@ =~= format_key_spec(key, shift_pressed));
            }
            r
        },
        KeySym::Num0 => {
            let r = if shift_pressed {
                String::from_str(")")
            } else {
                String::from_str("0")
            };
            proof {
                reveal_strlit(")");
                reveal_strlit("0");
                assert(r@ =~= format_key_spec(key, shift_pressed));
            }
            r
        },
        KeySym::Num1 => {
            let r = if shift_pressed {
                String::from_str("!")
            } else {
                String::from_str("1")
            };
            proof {
                reveal_strlit("!");
                reveal_strlit("1");
                assert(r@ =~= format_key_spec(key, shift_pressed));
            }
            r
        },
        KeySym::Num2 => {
            let r = if shift_pressed {
                String::from_str("@")
            } else {
                String::from_str("2")
            };
            proof {
                reveal_strlit("@");
                reveal_strlit("2");
                assert(r@ =~= format_key_spec(key, shift_pressed));
            }
            r
        },
        KeySym::Num3 => {
            let r = if shift_pressed {
                String::from_str("#")
            } else {
                String::from_str("3")
            };
            proof {
                reveal_strlit("#");
                reveal_strlit("3");
                assert(r@ =~= format_key_spec(key, shift_pressed));
            }
            r
        },
        KeySym::Num4 => {
            let r = if shift_pressed {
                String::from_str("$")
            } else {
                String::from_str("4")
            };
            proof {
                reveal_strlit("$");
                reveal_strlit("4");
                assert(r@ =~= format_key_spec(key, shift_pressed));
            }
            r
        },
        KeySym::Num5 => {
            let r = if shift_pressed {
                String::from_str("%")
            } else {
                String::from_str("5")
            };
            proof {
                reveal_strlit("%");
                reveal_strlit("5");
                assert(r@ =~= format_key_spec(key, shift_pressed));
            }
            r
        },
        KeySym::Num6 => {
            let r = if shift_pressed {
                String::from_str("^")
            } else {
                String::from_str("6")
            };
            proof {
                reveal_strlit("^");
                reveal_strlit("6");
                assert(r@ =~= format_key_spec(key, shift_pressed));
            }
            r
        },
        KeySym::Num7 => {
            let r = if shift_pressed {
                String::from_str("&")
            } else {
                String::from_str("7")
            };
            proof {
                reveal_strlit("&");
                reveal_strlit("7");
                assert(r@ =~= format_key_spec(key, shift_pressed));
            }
            r
        },
        KeySym::Num8 => {
            let r = if shift_pressed {
                String::from_str("*")
            } else {
                String::from_str("8")
            };
            proof {
                reveal_strlit("*");
                reveal_strlit("8");
                assert(r@ =~= format_key_spec(key, shift_pressed));
            }
            r
        },
        KeySym::Num9 => {
            let r = if shift_pressed {
                String::from_str("(")
            } else {
                String::from_str("9")
            };
            proof {
                reveal_strlit("(");
                reveal_strlit("9");
                assert(r@ =~= format_key_spec(key, shift_pressed));
            }
            r
        },
        KeySym::Space => {
            let r = String::from_str(" ");
            proof {
                reveal_strlit(" ");
                assert(r@ =~= format_key_spec(key, shift_pressed));
            }
            r
        },
        KeySym::Minus => {
            let r = if shift_pressed {
                String::from_str("_")
            } else {
                String::from_str("-")
            };
            proof {
                reveal_strlit("_");
                reveal_strlit("-");
                assert(r@ =~= format_key_spec(key, shift_pressed));
            }
            r
        },
        KeySym::Equals => {
            let r = if shift_pressed {
                String::from_str("+")
            } else {
                String::from_str("=")
            };
            proof {
                reveal_strlit("+");
                reveal_strlit("=");
                assert(r@ =~= format_key_spec(key, shift_pressed));
            }
            r
        },
        KeySym::OpenBracket => {
            let r = if shift_pressed {
                String::from_str("{")
            } else {
                String::from_str("[")
            };
            proof {
                reveal_strlit("{");
                reveal_strlit("[");
                assert(r@ =~= format_key_spec(key, shift_pressed));
            }
            r
        },
        KeySym::CloseBracket => {
            let r = if shift_pressed {
                String::from_str("}")
            } else {
                String::from_str("]")
            };
            proof {
                reveal_strlit("}");
                reveal_strlit("]");
                assert(r@ =~= format_key_spec(key, shift_pressed));
            }
            r
        },
        KeySym::Backslash => {
            let r = if shift_pressed {
                String::from_str("|")
            } else {
                String::from_str("\\")
            };
            proof {
                reveal_strlit("|");
                reveal_strlit("\\");
                assert(r@ =~= format_key_spec(key, shift_pressed));
            }
            r
        },
        KeySym::Semicolon => {
            let r = if shift_pressed {
                String::from_str(":")
            } else {
                String::from_str(";")
            };
            proof {
                reveal_strlit(":");
                reveal_strlit(";");
                assert(r@ =~= format_key_spec(key, shift_pressed));
            }
            r
        },
        KeySym::Quote => {
            let r = if shift_pressed {
                String::from_str("\"")
            } else {
                String::from_str("'")
            };
            proof {
                reveal_strlit("\"");
                reveal_strlit("'");
                assert(r@ =~= format_key_spec(key, shift_pressed));
            }
            r
        },
        KeySym::Comma => {
            let r = if shift_pressed {
                String::from_str("<")
            } else {
                String::from_str(",")
            };
            proof {
                reveal_strlit("<");
                reveal_strlit(",");
                assert(r@ =~= format_key_spec(key, shift_pressed));
            }
            r
        },
        KeySym::Period => {
            let r = if shift_pressed {
                String::from_str(">")
            } else {
                String::from_str(".")
            };
            proof {
                reveal_strlit(">");
                reveal_strlit(".");
                assert(r@ =~= format_key_spec(key, shift_pressed));
            }
            r
        },
        KeySym::Slash => {
            let r = if shift_pressed {
                String::from_str("?")
            } else {
                String::from_str("/")
            };
            proof {
                reveal_strlit("?");
                reveal_strlit("/");
                assert(r@ =~= format_key_spec(key, shift_pressed));
            }
            r
        },
        KeySym::Backtick => {
            let r = if shift_pressed {
                String::from_str("~")
            } else {
                String::from_str("`")
            };
            proof {
                reveal_strlit("~");
                reveal_strlit("`");
                assert(r@ =~= format_key_spec(key, shift_pressed));
            }
            r
        },
        _ => {
            let r = String::new();
            proof {
                assert(r@ =~= format_key_spec(key, shift_pressed));
            }
            r
        },
    }
}

} // verus!
