//! Keyboard input: browser key events to bytes for the PTY.
//!
//! Ctrl with a letter gives a control code, the arrows and the editing keys
//! give CSI sequences, the function keys `CSI n ~`, and Alt with a character
//! that character behind an escape byte.

use crate::text::{
    decimal, decimal_value, lemma_decimal_is_read_back, push_decimal, same_text, utf8_text,
};
use vstd::prelude::*;
use vstd::string::*;
use vstd::utf8::*;

verus! {

/// The xterm modifier parameter: 1 and the sum of 1 for Shift, 2 for Alt and
/// 4 for Ctrl; none without a modifier.
pub open spec fn modifier_param(ctrl: bool, alt: bool, shift: bool) -> Option<u8> {
    if ctrl || alt || shift {
        Some(
            (1 + (if shift { 1int } else { 0 }) + (if alt { 2int } else { 0 }) + (if ctrl {
                4int
            } else {
                0
            })) as u8,
        )
    } else {
        None
    }
}

/// Encodes the modifier keys as xterm does.
pub fn xterm_modifier_param(ctrl: bool, alt: bool, shift: bool) -> (param: Option<u8>)
    ensures
        param == modifier_param(ctrl, alt, shift),
{
    let mut param: u8 = 1;
    let mut any: bool = false;
    if shift {
        param += 1;
        any = true;
    }
    if alt {
        param += 2;
        any = true;
    }
    if ctrl {
        param += 4;
        any = true;
    }
    if any {
        Some(param)
    } else {
        None
    }
}

/// Whether `c` is a printable ASCII character or a space.
pub open spec fn printable(c: char) -> bool {
    ' ' <= c <= '~'
}

/// Whether a character can be typed into a PTY as it is.
pub fn is_printable_ascii(c: char) -> (typeable: bool)
    ensures
        typeable == printable(c),
{
    ' ' <= c && c <= '~'
}

/// Whether `c` is an ASCII letter.
pub open spec fn is_letter(c: char) -> bool {
    'a' <= c <= 'z' || 'A' <= c <= 'Z'
}

/// The number of the ASCII letter `c` in the alphabet, counted from 1.
pub open spec fn letter_number(c: char) -> u8 {
    (if 'a' <= c {
        c as int - 'a' as int + 1
    } else {
        c as int - 'A' as int + 1
    }) as u8
}

/// The control code of a key that is not a letter.
pub open spec fn control_code(key: Seq<char>) -> Option<u8> {
    if key == "Space"@ {
        Some(0x00u8)
    } else if key == "["@ {
        Some(0x1bu8)
    } else if key == "\\"@ {
        Some(0x1cu8)
    } else if key == "]"@ {
        Some(0x1du8)
    } else if key == "^"@ {
        Some(0x1eu8)
    } else if key == "_"@ {
        Some(0x1fu8)
    } else if key == "Backspace"@ {
        Some(0x08u8)
    } else {
        None
    }
}

/// The bytes of a key whose modifiers do not matter.
pub open spec fn editing_key(key: Seq<char>) -> Option<Seq<u8>> {
    if key == "Escape"@ {
        Some(seq![0x1bu8])
    } else if key == "Backspace"@ {
        Some(seq![0x7fu8])
    } else if key == "Delete"@ {
        Some(seq![0x1bu8, 0x5b, 0x33, 0x7e])
    } else if key == "Insert"@ {
        Some(seq![0x1bu8, 0x5b, 0x32, 0x7e])
    } else if key == "Home"@ {
        Some(seq![0x1bu8, 0x5b, 0x48])
    } else if key == "End"@ {
        Some(seq![0x1bu8, 0x5b, 0x46])
    } else if key == "PageUp"@ {
        Some(seq![0x1bu8, 0x5b, 0x35, 0x7e])
    } else if key == "PageDown"@ {
        Some(seq![0x1bu8, 0x5b, 0x36, 0x7e])
    } else if key == "ArrowUp"@ {
        Some(seq![0x1bu8, 0x5b, 0x41])
    } else if key == "ArrowDown"@ {
        Some(seq![0x1bu8, 0x5b, 0x42])
    } else if key == "ArrowRight"@ {
        Some(seq![0x1bu8, 0x5b, 0x43])
    } else if key == "ArrowLeft"@ {
        Some(seq![0x1bu8, 0x5b, 0x44])
    } else {
        None
    }
}

/// The number in the sequence of a function key.
pub open spec fn function_key(key: Seq<char>) -> Option<nat> {
    if key == "F1"@ {
        Some(11nat)
    } else if key == "F2"@ {
        Some(12nat)
    } else if key == "F3"@ {
        Some(13nat)
    } else if key == "F4"@ {
        Some(14nat)
    } else if key == "F5"@ {
        Some(15nat)
    } else if key == "F6"@ {
        Some(17nat)
    } else if key == "F7"@ {
        Some(18nat)
    } else if key == "F8"@ {
        Some(19nat)
    } else if key == "F9"@ {
        Some(20nat)
    } else if key == "F10"@ {
        Some(21nat)
    } else if key == "F11"@ {
        Some(23nat)
    } else if key == "F12"@ {
        Some(24nat)
    } else {
        None
    }
}

/// The bytes of Enter: `ESC CR` with Shift, `CSI 13 ; modifier u` with
/// another modifier, and else `CR`.
pub open spec fn enter_key(ctrl: bool, alt: bool, shift: bool) -> Seq<u8> {
    if shift {
        seq![0x1bu8, 0x0d]
    } else {
        match modifier_param(ctrl, alt, shift) {
            Some(m) => seq![0x1bu8, 0x5b, 0x31, 0x33, 0x3b] + decimal(m as nat) + seq![0x75u8],
            None => seq![0x0du8],
        }
    }
}

/// The bytes of Tab: `CSI Z` with Shift, else a tab character.
pub open spec fn tab_key(shift: bool) -> Seq<u8> {
    if shift {
        seq![0x1bu8, 0x5b, 0x5a]
    } else {
        seq![0x09u8]
    }
}

/// The bytes of a key that stands for a character: itself when it is
/// printable, behind an escape byte with Alt; no bytes for any other key.
pub open spec fn character_key(key: Seq<char>, alt: bool) -> Seq<u8> {
    if key.len() == 1 && printable(key[0]) {
        if alt {
            seq![0x1bu8, key[0] as u8]
        } else {
            seq![key[0] as u8]
        }
    } else {
        Seq::empty()
    }
}

/// The bytes that a key event writes to the PTY.
pub open spec fn key_bytes(key: Seq<char>, ctrl: bool, alt: bool, shift: bool) -> Seq<u8> {
    if ctrl && key.len() == 1 && is_letter(key[0]) {
        seq![letter_number(key[0])]
    } else if ctrl && control_code(key) is Some {
        seq![control_code(key)->0]
    } else if key == "Enter"@ {
        enter_key(ctrl, alt, shift)
    } else if key == "Tab"@ {
        tab_key(shift)
    } else if editing_key(key) is Some {
        editing_key(key)->0
    } else if function_key(key) is Some {
        seq![0x1bu8, 0x5b] + decimal(function_key(key)->0) + seq![0x7eu8]
    } else {
        character_key(key, alt)
    }
}

/// The control code of a key that is not a letter.
fn control_code_of(key: &str) -> (code: Option<u8>)
    ensures
        code == control_code(key@),
{
    if same_text(key, "Space") {
        Some(0x00)
    } else if same_text(key, "[") {
        Some(0x1b)
    } else if same_text(key, "\\") {
        Some(0x1c)
    } else if same_text(key, "]") {
        Some(0x1d)
    } else if same_text(key, "^") {
        Some(0x1e)
    } else if same_text(key, "_") {
        Some(0x1f)
    } else if same_text(key, "Backspace") {
        Some(0x08)
    } else {
        None
    }
}

/// The bytes of a key whose modifiers do not matter.
fn editing_key_of(key: &str) -> (bytes: Option<Vec<u8>>)
    ensures
        bytes is Some <==> editing_key(key@) is Some,
        bytes matches Some(b) ==> b@ =~= editing_key(key@)->0,
{
    if same_text(key, "Escape") {
        Some(vec![0x1b])
    } else if same_text(key, "Backspace") {
        Some(vec![0x7f])
    } else if same_text(key, "Delete") {
        Some(vec![0x1b, 0x5b, 0x33, 0x7e])
    } else if same_text(key, "Insert") {
        Some(vec![0x1b, 0x5b, 0x32, 0x7e])
    } else if same_text(key, "Home") {
        Some(vec![0x1b, 0x5b, 0x48])
    } else if same_text(key, "End") {
        Some(vec![0x1b, 0x5b, 0x46])
    } else if same_text(key, "PageUp") {
        Some(vec![0x1b, 0x5b, 0x35, 0x7e])
    } else if same_text(key, "PageDown") {
        Some(vec![0x1b, 0x5b, 0x36, 0x7e])
    } else if same_text(key, "ArrowUp") {
        Some(vec![0x1b, 0x5b, 0x41])
    } else if same_text(key, "ArrowDown") {
        Some(vec![0x1b, 0x5b, 0x42])
    } else if same_text(key, "ArrowRight") {
        Some(vec![0x1b, 0x5b, 0x43])
    } else if same_text(key, "ArrowLeft") {
        Some(vec![0x1b, 0x5b, 0x44])
    } else {
        None
    }
}

/// The number in the sequence of a function key.
fn function_key_of(key: &str) -> (number: Option<usize>)
    ensures
        number is Some <==> function_key(key@) is Some,
        number matches Some(n) ==> n == function_key(key@)->0,
{
    if same_text(key, "F1") {
        Some(11)
    } else if same_text(key, "F2") {
        Some(12)
    } else if same_text(key, "F3") {
        Some(13)
    } else if same_text(key, "F4") {
        Some(14)
    } else if same_text(key, "F5") {
        Some(15)
    } else if same_text(key, "F6") {
        Some(17)
    } else if same_text(key, "F7") {
        Some(18)
    } else if same_text(key, "F8") {
        Some(19)
    } else if same_text(key, "F9") {
        Some(20)
    } else if same_text(key, "F10") {
        Some(21)
    } else if same_text(key, "F11") {
        Some(23)
    } else if same_text(key, "F12") {
        Some(24)
    } else {
        None
    }
}

/// The bytes of Enter.
fn enter_key_of(ctrl: bool, alt: bool, shift: bool) -> (bytes: Vec<u8>)
    ensures
        bytes@ == enter_key(ctrl, alt, shift),
{
    if shift {
        let out: Vec<u8> = vec![0x1b, 0x0d];
        assert(out@ =~= enter_key(ctrl, alt, shift));
        return out;
    }
    if let Some(m) = xterm_modifier_param(ctrl, alt, shift) {
        let mut out: Vec<u8> = vec![0x1b, 0x5b, 0x31, 0x33, 0x3b];
        push_decimal(&mut out, m as usize);
        out.push(0x75);
        assert(out@ =~= enter_key(ctrl, alt, shift));
        return out;
    }
    let out: Vec<u8> = vec![0x0d];
    assert(out@ =~= enter_key(ctrl, alt, shift));
    out
}

/// Maps a browser key event to the bytes to write to the PTY; the Meta key
/// does not matter.
pub fn map_key(key: &str, ctrl: bool, alt: bool, shift: bool, _meta: bool) -> (bytes: Vec<u8>)
    ensures
        bytes@ == key_bytes(key@, ctrl, alt, shift),
{
    let single_char: Option<char> = if key.unicode_len() == 1 {
        Some(key.get_char(0))
    } else {
        None
    };
    if let Some(c) = single_char {
        if ctrl && (('a' <= c && c <= 'z') || ('A' <= c && c <= 'Z')) {
            let number: u8 = if 'a' <= c {
                c as u8 - 0x60
            } else {
                c as u8 - 0x40
            };
            let out: Vec<u8> = vec![number];
            assert(out@ =~= seq![letter_number(c)]);
            return out;
        }
    }
    if ctrl {
        if let Some(code) = control_code_of(key) {
            let out: Vec<u8> = vec![code];
            assert(out@ =~= seq![code]);
            return out;
        }
    }
    if same_text(key, "Enter") {
        return enter_key_of(ctrl, alt, shift);
    }
    if same_text(key, "Tab") {
        let out: Vec<u8> = if shift {
            vec![0x1b, 0x5b, 0x5a]
        } else {
            vec![0x09]
        };
        assert(out@ =~= tab_key(shift));
        return out;
    }
    if let Some(out) = editing_key_of(key) {
        return out;
    }
    if let Some(n) = function_key_of(key) {
        let mut out: Vec<u8> = vec![0x1b, 0x5b];
        push_decimal(&mut out, n);
        out.push(0x7e);
        assert(out@ =~= seq![0x1bu8, 0x5b] + decimal(n as nat) + seq![0x7eu8]);
        return out;
    }
    let mut out: Vec<u8> = Vec::new();
    if let Some(c) = single_char {
        if is_printable_ascii(c) {
            if alt {
                out.push(0x1b);
            }
            out.push(c as u8);
        }
    }
    assert(out@ =~= character_key(key@, alt));
    out
}

/// Maps a browser key event to bytes for the PTY, with the key's name given
/// in UTF-8; a name that is not valid UTF-8 counts as an empty one.
pub fn key_to_bytes(key: &[u8], ctrl: bool, alt: bool, shift: bool, meta: bool) -> (bytes: Vec<u8>)
    ensures
        valid_utf8(key@) ==> bytes@ == key_bytes(decode_utf8(key@), ctrl, alt, shift),
        !valid_utf8(key@) ==> bytes@ == Seq::<u8>::empty(),
{
    match utf8_text(key) {
        Some(text) => map_key(text.as_str(), ctrl, alt, shift, meta),
        None => {
            let out: Vec<u8> = Vec::new();
            out
        },
    }
}

proof fn lemma_single_characters_have_no_name(c: char)
    ensures
        seq![c] != "Enter"@,
        seq![c] != "Tab"@,
        editing_key(seq![c]) is None,
        function_key(seq![c]) is None,
{
    assert(seq![c].len() == 1);
    reveal_strlit("Enter");
    reveal_strlit("Tab");
    reveal_strlit("Escape");
    reveal_strlit("Backspace");
    reveal_strlit("Delete");
    reveal_strlit("Insert");
    reveal_strlit("Home");
    reveal_strlit("End");
    reveal_strlit("PageUp");
    reveal_strlit("PageDown");
    reveal_strlit("ArrowUp");
    reveal_strlit("ArrowDown");
    reveal_strlit("ArrowRight");
    reveal_strlit("ArrowLeft");
    reveal_strlit("F1");
    reveal_strlit("F2");
    reveal_strlit("F3");
    reveal_strlit("F4");
    reveal_strlit("F5");
    reveal_strlit("F6");
    reveal_strlit("F7");
    reveal_strlit("F8");
    reveal_strlit("F9");
    reveal_strlit("F10");
    reveal_strlit("F11");
    reveal_strlit("F12");
}

/// Without Ctrl, every printable character is typed as itself, and with Alt
/// as itself behind an escape byte.
pub proof fn lemma_printable_characters_pass_through(c: char, shift: bool)
    requires
        printable(c),
    ensures
        key_bytes(seq![c], false, false, shift) == seq![c as u8],
        key_bytes(seq![c], false, true, shift) == seq![0x1bu8, c as u8],
{
    lemma_single_characters_have_no_name(c);
}

/// Ctrl with a letter gives the control codes 1 to 26, whatever the case of
/// the letter and the other modifiers are.
pub proof fn lemma_control_letters(c: char, alt: bool, shift: bool)
    requires
        'a' <= c <= 'z',
    ensures
        key_bytes(seq![c], true, alt, shift) == seq![(c as int - 96) as u8],
        key_bytes(seq![(c as int - 32) as char], true, alt, shift) == seq![(c as int - 96) as u8],
        1 <= (c as int - 96) as u8 <= 26,
{
}

/// The modifier parameter tells all combinations of modifiers apart.
pub proof fn lemma_modifiers_are_told_apart(
    ctrl: bool,
    alt: bool,
    shift: bool,
    ctrl2: bool,
    alt2: bool,
    shift2: bool,
)
    requires
        modifier_param(ctrl, alt, shift) == modifier_param(ctrl2, alt2, shift2),
    ensures
        ctrl == ctrl2 && alt == alt2 && shift == shift2,
{
}

/// The names of the keys, letter by letter.
proof fn lemma_key_names()
    ensures
        "Space"@ == seq!['S', 'p', 'a', 'c', 'e'],
        "["@ == seq!['['],
        "\\"@ == seq!['\\'],
        "]"@ == seq![']'],
        "^"@ == seq!['^'],
        "_"@ == seq!['_'],
        "Enter"@.len() == 5 && "Enter"@[0] == 'E',
        "Tab"@.len() == 3 && "Tab"@[0] == 'T',
        "Escape"@.len() == 6 && "Escape"@[0] == 'E',
        "Backspace"@.len() == 9 && "Backspace"@[0] == 'B',
        "Delete"@.len() == 6 && "Delete"@[0] == 'D',
        "Insert"@.len() == 6 && "Insert"@[0] == 'I',
        "Home"@.len() == 4 && "Home"@[0] == 'H',
        "End"@.len() == 3 && "End"@[0] == 'E',
        "PageUp"@.len() == 6 && "PageUp"@[0] == 'P',
        "PageDown"@.len() == 8 && "PageDown"@[0] == 'P',
        "ArrowUp"@.len() == 7 && "ArrowUp"@[0] == 'A',
        "ArrowDown"@.len() == 9 && "ArrowDown"@[0] == 'A',
        "ArrowRight"@.len() == 10 && "ArrowRight"@[0] == 'A',
        "ArrowLeft"@.len() == 9 && "ArrowLeft"@[0] == 'A' && "ArrowLeft"@ != "ArrowDown"@,
{
    reveal_strlit("Space");
    reveal_strlit("[");
    reveal_strlit("\\");
    reveal_strlit("]");
    reveal_strlit("^");
    reveal_strlit("_");
    reveal_strlit("Enter");
    reveal_strlit("Tab");
    reveal_strlit("Escape");
    reveal_strlit("Backspace");
    reveal_strlit("Delete");
    reveal_strlit("Insert");
    reveal_strlit("Home");
    reveal_strlit("End");
    reveal_strlit("PageUp");
    reveal_strlit("PageDown");
    reveal_strlit("ArrowUp");
    reveal_strlit("ArrowDown");
    reveal_strlit("ArrowRight");
    reveal_strlit("ArrowLeft");
    assert("Space"@ =~= seq!['S', 'p', 'a', 'c', 'e']);
    assert("["@ =~= seq!['[']);
    assert("\\"@ =~= seq!['\\']);
    assert("]"@ =~= seq![']']);
    assert("^"@ =~= seq!['^']);
    assert("_"@ =~= seq!['_']);
    assert("ArrowLeft"@[5] == 'L');
    assert("ArrowDown"@[5] == 'D');
}

/// The name of the `i`th function key: `F` and its number.
pub open spec fn function_key_name(i: nat) -> Seq<char> {
    seq!['F'] + decimal(i).map_values(|d: u8| d as char)
}

/// The names of the function keys, as they are spelled.
proof fn lemma_function_key_names()
    ensures
        function_key_name(1) == "F1"@,
        function_key_name(2) == "F2"@,
        function_key_name(3) == "F3"@,
        function_key_name(4) == "F4"@,
        function_key_name(5) == "F5"@,
        function_key_name(6) == "F6"@,
        function_key_name(7) == "F7"@,
        function_key_name(8) == "F8"@,
        function_key_name(9) == "F9"@,
        function_key_name(10) == "F10"@,
        function_key_name(11) == "F11"@,
        function_key_name(12) == "F12"@,
{
    reveal_with_fuel(decimal, 3);
    reveal_strlit("F1");
    reveal_strlit("F2");
    reveal_strlit("F3");
    reveal_strlit("F4");
    reveal_strlit("F5");
    reveal_strlit("F6");
    reveal_strlit("F7");
    reveal_strlit("F8");
    reveal_strlit("F9");
    reveal_strlit("F10");
    reveal_strlit("F11");
    reveal_strlit("F12");
    assert(function_key_name(1) =~= "F1"@);
    assert(function_key_name(2) =~= "F2"@);
    assert(function_key_name(3) =~= "F3"@);
    assert(function_key_name(4) =~= "F4"@);
    assert(function_key_name(5) =~= "F5"@);
    assert(function_key_name(6) =~= "F6"@);
    assert(function_key_name(7) =~= "F7"@);
    assert(function_key_name(8) =~= "F8"@);
    assert(function_key_name(9) =~= "F9"@);
    assert(function_key_name(10) =~= "F10"@);
    assert(function_key_name(11) =~= "F11"@);
    assert(function_key_name(12) =~= "F12"@);
}

/// Function keys have different names.
proof fn lemma_function_key_names_differ(i: nat, j: nat)
    requires
        i != j,
    ensures
        function_key_name(i) != function_key_name(j),
{
    let a = decimal(i);
    let b = decimal(j);
    lemma_decimal_is_read_back(i);
    lemma_decimal_is_read_back(j);
    if function_key_name(i) == function_key_name(j) {
        assert(function_key_name(i).len() == 1 + a.len());
        assert(function_key_name(j).len() == 1 + b.len());
        assert forall|k: int| 0 <= k < a.len() implies a[k] == b[k] by {
            assert(function_key_name(i)[k + 1] == a[k] as char);
            assert(function_key_name(j)[k + 1] == b[k] as char);
        }
        assert(a =~= b);
    }
}

/// What the function keys send: the keys F1 to F12 send the numbers from 11 to
/// 24 in their order, with 16 and 22 left out, whatever the modifiers are.
pub proof fn lemma_function_keys_are_numbered_in_order(i: nat, ctrl: bool, alt: bool, shift: bool)
    requires
        1 <= i <= 12,
    ensures
        ({
            let number = if i <= 5 {
                10 + i
            } else if i <= 10 {
                11 + i
            } else {
                12 + i
            };
            let key = function_key_name(i);
            &&& function_key(key) == Some(number)
            &&& key_bytes(key, ctrl, alt, shift) == seq![0x1bu8, 0x5b] + decimal(number)
                + seq![0x7eu8]
        }),
{
    lemma_function_key_names();
    lemma_key_names();
    lemma_decimal_is_read_back(i);
    let key = function_key_name(i);
    assert(key[0] == 'F' && key.len() >= 2);
    assert forall|j: nat| j != i implies #[trigger] function_key_name(j) != key by {
        lemma_function_key_names_differ(i, j);
    }
}

/// Different function keys send different bytes.
pub proof fn lemma_function_keys_are_told_apart(a: Seq<char>, b: Seq<char>)
    requires
        function_key(a) is Some,
        function_key(a) == function_key(b),
    ensures
        a == b,
{
}

/// The key that a program takes bytes to come from: control characters and
/// printable ones stand for themselves, `CSI` with a letter is a cursor key,
/// `CSI n ~` an editing key or a function key.
pub open spec fn key_of_bytes(bytes: Seq<u8>) -> Option<Seq<char>> {
    if bytes.len() == 1 {
        let b = bytes[0];
        if b == 0x09 {
            Some("Tab"@)
        } else if b == 0x0d {
            Some("Enter"@)
        } else if b == 0x1b {
            Some("Escape"@)
        } else if b == 0x7f {
            Some("Backspace"@)
        } else {
            Some(seq![b as char])
        }
    } else if bytes.len() < 3 || bytes[0] != 0x1b || bytes[1] != 0x5b {
        None
    } else if bytes.len() == 3 {
        let b = bytes[2] as char;
        if b == 'A' {
            Some("ArrowUp"@)
        } else if b == 'B' {
            Some("ArrowDown"@)
        } else if b == 'C' {
            Some("ArrowRight"@)
        } else if b == 'D' {
            Some("ArrowLeft"@)
        } else if b == 'F' {
            Some("End"@)
        } else if b == 'H' {
            Some("Home"@)
        } else {
            None
        }
    } else if bytes.last() != 0x7e {
        None
    } else {
        let n = decimal_value(bytes.subrange(2, bytes.len() - 1));
        if n == 2 {
            Some("Insert"@)
        } else if n == 3 {
            Some("Delete"@)
        } else if n == 5 {
            Some("PageUp"@)
        } else if n == 6 {
            Some("PageDown"@)
        } else if 11 <= n <= 15 {
            Some(function_key_name((n - 10) as nat))
        } else if 17 <= n <= 21 {
            Some(function_key_name((n - 11) as nat))
        } else if 23 <= n <= 24 {
            Some(function_key_name((n - 12) as nat))
        } else {
            None
        }
    }
}

/// The bytes of a key that is pressed without a modifier tell which key it
/// was: the program at the other end reads the key that was pressed.
pub proof fn lemma_keys_are_read_back(key: Seq<char>)
    requires
        key_bytes(key, false, false, false).len() > 0,
    ensures
        key_of_bytes(key_bytes(key, false, false, false)) == Some(key),
{
    lemma_key_names();
    lemma_function_key_names();
    reveal_with_fuel(decimal_value, 2);
    let bytes = key_bytes(key, false, false, false);
    if key == "Enter"@ || key == "Tab"@ {
    } else if editing_key(key) is Some {
        if bytes.len() == 4 {
            let digits = bytes.subrange(2, 3);
            assert(digits =~= seq![bytes[2]]);
            assert(digits.drop_last() =~= Seq::<u8>::empty());
        }
    } else if function_key(key) is Some {
        let n = function_key(key)->0;
        lemma_decimal_is_read_back(n);
        assert(decimal(n).len() == 2) by {
            reveal_with_fuel(decimal, 3);
        }
        assert(bytes.subrange(2, bytes.len() - 1) =~= decimal(n));
        assert(bytes.last() == 0x7e && bytes[0] == 0x1b && bytes[1] == 0x5b);
    } else {
        assert(key =~= seq![key[0]]);
        assert(bytes =~= seq![key[0] as u8]);
    }
}

/// Different keys that are pressed without a modifier send different bytes.
pub proof fn lemma_keys_are_told_apart(a: Seq<char>, b: Seq<char>)
    requires
        key_bytes(a, false, false, false).len() > 0,
        key_bytes(a, false, false, false) == key_bytes(b, false, false, false),
    ensures
        a == b,
{
    lemma_keys_are_read_back(a);
    lemma_keys_are_read_back(b);
}

/// Ctrl with one of the characters from `A` to `_` gives the control code 64
/// below it, whatever the other modifiers are.
pub proof fn lemma_control_codes_are_64_below(c: char, alt: bool, shift: bool)
    requires
        'A' <= c <= '_',
    ensures
        key_bytes(seq![c], true, alt, shift) == seq![(c as int - 64) as u8],
{
    lemma_key_names();
    assert(seq![c][0] == c);
}

/// Ctrl changes only the keys that have a control code and Enter.
pub proof fn lemma_ctrl_leaves_other_keys_alone(key: Seq<char>, alt: bool, shift: bool)
    requires
        key.len() == 1 ==> !('A' <= key[0] <= '_') && !('a' <= key[0] <= 'z'),
        key != "Space"@,
        key != "Backspace"@,
        key != "Enter"@,
    ensures
        key_bytes(key, true, alt, shift) == key_bytes(key, false, alt, shift),
{
    lemma_key_names();
}

/// Shift changes only Enter and Tab: a shifted character comes as a key of its
/// own. Alt changes only Enter and single characters.
pub proof fn lemma_shift_and_alt_leave_other_keys_alone(key: Seq<char>, ctrl: bool, alt: bool, shift: bool)
    ensures
        key != "Enter"@ && key != "Tab"@ ==> key_bytes(key, ctrl, alt, shift) == key_bytes(
            key,
            ctrl,
            alt,
            false,
        ),
        key != "Enter"@ && key.len() != 1 ==> key_bytes(key, ctrl, alt, shift) == key_bytes(
            key,
            ctrl,
            false,
            shift,
        ),
{
}

/// Shift with Enter sends `ESC CR`; Ctrl and Alt without Shift are told in the
/// modifier parameter.
pub proof fn lemma_enter_tells_its_modifiers(ctrl: bool, alt: bool)
    ensures
        key_bytes("Enter"@, ctrl, alt, true) == seq![0x1bu8, 0x0d],
        ctrl || alt ==> key_bytes("Enter"@, ctrl, alt, false) == seq![
            0x1bu8,
            0x5b,
            0x31,
            0x33,
            0x3b,
            (0x31 + (if alt { 2int } else { 0 }) + (if ctrl { 4int } else { 0 })) as u8,
            0x75,
        ],
        key_bytes("Tab"@, ctrl, alt, true) == seq![0x1bu8, 0x5b, 0x5a],
        key_bytes("Tab"@, ctrl, alt, false) == seq![0x09u8],
{
    lemma_key_names();
    if ctrl || alt {
        assert(key_bytes("Enter"@, ctrl, alt, false) =~= seq![
            0x1bu8,
            0x5b,
            0x31,
            0x33,
            0x3b,
            (0x31 + (if alt { 2int } else { 0 }) + (if ctrl { 4int } else { 0 })) as u8,
            0x75,
        ]);
    }
}

/// The modifier parameter is one more than a number whose binary digits are
/// the modifiers: Shift, Alt and Ctrl from the lowest on.
pub proof fn lemma_modifiers_are_binary_digits(ctrl: bool, alt: bool, shift: bool)
    ensures
        modifier_param(ctrl, alt, shift) is None <==> !ctrl && !alt && !shift,
        modifier_param(ctrl, alt, shift) matches Some(m) ==> {
            &&& 1 < m <= 8
            &&& (m - 1) % 2 == 1 <==> shift
            &&& (m - 1) / 2 % 2 == 1 <==> alt
            &&& (m - 1) / 4 == 1 <==> ctrl
        },
{
}

/// Every control code is a control character: Ctrl with the space bar gives the
/// first one, and with Backspace the one that goes back by a character. Both
/// hold whatever the other modifiers are.
pub proof fn lemma_control_codes_are_control_characters(key: Seq<char>, alt: bool, shift: bool)
    ensures
        control_code(key) matches Some(code) ==> code < 0x20,
        key_bytes("Space"@, true, alt, shift) == seq![0u8],
        key_bytes("Backspace"@, true, alt, shift) == seq![8u8],
        key_bytes("Space"@, false, alt, shift).len() == 0,
        key_bytes("Backspace"@, false, alt, shift) == seq![0x7fu8],
{
    lemma_key_names();
    lemma_function_key_names();
    assert forall|i: nat| #[trigger] function_key_name(i) != "Space"@ by {
        assert(function_key_name(i)[0] == 'F');
    }
}

} // verus!
