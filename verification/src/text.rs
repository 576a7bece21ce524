//! Names shown to the user: decimal numbers and MIDI note names.

use vstd::prelude::*;
use vstd::string::StringExecFns;

verus! {

/// The character of a decimal digit.
pub open spec fn digit_char(d: int) -> char {
    if d == 0 {
        '0'
    } else if d == 1 {
        '1'
    } else if d == 2 {
        '2'
    } else if d == 3 {
        '3'
    } else if d == 4 {
        '4'
    } else if d == 5 {
        '5'
    } else if d == 6 {
        '6'
    } else if d == 7 {
        '7'
    } else if d == 8 {
        '8'
    } else {
        '9'
    }
}

/// The decimal notation of `n`, without leading zeros.
pub open spec fn decimal(n: nat) -> Seq<char>
    decreases n,
{
    if n < 10 {
        seq![digit_char(n as int)]
    } else {
        decimal(n / 10) + seq![digit_char((n % 10) as int)]
    }
}

/// A one-character string holding digit `d`.
pub fn digit_str(d: u64) -> (s: &'static str)
    requires
        d < 10,
    ensures
        s@ == seq![digit_char(d as int)],
{
    proof {
        reveal_strlit("0");
        reveal_strlit("1");
        reveal_strlit("2");
        reveal_strlit("3");
        reveal_strlit("4");
        reveal_strlit("5");
        reveal_strlit("6");
        reveal_strlit("7");
        reveal_strlit("8");
        reveal_strlit("9");
    }
    if d == 0 {
        "0"
    } else if d == 1 {
        "1"
    } else if d == 2 {
        "2"
    } else if d == 3 {
        "3"
    } else if d == 4 {
        "4"
    } else if d == 5 {
        "5"
    } else if d == 6 {
        "6"
    } else if d == 7 {
        "7"
    } else if d == 8 {
        "8"
    } else {
        "9"
    }
}

/// Appends the decimal notation of `n`.
pub fn push_decimal(s: &mut String, n: u64)
    ensures
        final(s)@ == old(s)@ + decimal(n as nat),
    decreases n,
{
    if n >= 10 {
        push_decimal(s, n / 10);
    }
    s.append(digit_str(n % 10));
    proof {
        if n >= 10 {
            assert(old(s)@ + decimal((n / 10) as nat) + seq![digit_char((n % 10) as int)] =~= old(s)@ + decimal(
                n as nat,
            ));
        } else {
            assert(decimal(n as nat) == seq![digit_char((n % 10) as int)]);
        }
    }
}

/// The twelve pitch-class names, from C.
pub open spec fn pitch_class_name(pc: int) -> Seq<char> {
    if pc == 0 {
        "C"@
    } else if pc == 1 {
        "C#"@
    } else if pc == 2 {
        "D"@
    } else if pc == 3 {
        "D#"@
    } else if pc == 4 {
        "E"@
    } else if pc == 5 {
        "F"@
    } else if pc == 6 {
        "F#"@
    } else if pc == 7 {
        "G"@
    } else if pc == 8 {
        "G#"@
    } else if pc == 9 {
        "A"@
    } else if pc == 10 {
        "A#"@
    } else {
        "B"@
    }
}

/// The pitch-class name of a MIDI pitch ("C", "C#", ... "B").
pub fn pitch_to_note_name(pitch: u8) -> (s: &'static str)
    ensures
        s@ == pitch_class_name(pitch as int % 12),
{
    let pc = pitch % 12;
    if pc == 0 {
        "C"
    } else if pc == 1 {
        "C#"
    } else if pc == 2 {
        "D"
    } else if pc == 3 {
        "D#"
    } else if pc == 4 {
        "E"
    } else if pc == 5 {
        "F"
    } else if pc == 6 {
        "F#"
    } else if pc == 7 {
        "G"
    } else if pc == 8 {
        "G#"
    } else if pc == 9 {
        "A"
    } else if pc == 10 {
        "A#"
    } else {
        "B"
    }
}

/// The octave number of a MIDI pitch, written in decimal ("-1" for the
/// lowest octave): middle C, pitch 60, is in octave 4.
pub open spec fn octave_text(pitch: int) -> Seq<char> {
    if pitch < 12 {
        "-1"@
    } else {
        decimal((pitch / 12 - 1) as nat)
    }
}

/// The full name of a MIDI note: pitch class then octave, e.g. "C4" for 60.
pub open spec fn note_name(pitch: int) -> Seq<char> {
    pitch_class_name(pitch % 12) + octave_text(pitch)
}

/// Names a MIDI note ("C4" for pitch 60, "C-1" for pitch 0).
pub fn midi_note_name(note: u8) -> (s: String)
    ensures
        s@ == note_name(note as int),
{
    let mut s = String::from_str(pitch_to_note_name(note));
    if note < 12 {
        s.append("-1");
    } else {
        push_decimal(&mut s, (note / 12 - 1) as u64);
    }
    s
}

} // verus!
