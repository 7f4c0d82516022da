//! Keyboard bindings for the emulator configs: a keyboard player's browser
//! `KeyboardEvent.code` values translated into the key names PCSX2 and RPCS3
//! understand, and the control names translated into each emulator's pad fields.
use vstd::prelude::*;
use crate::proto::text::{
    lemma_contains_self, lemma_contains_within, lemma_crlf_roundtrip, lemma_crlf_to_lf_keeps,
    no_line_ends,
    chars_of, chars_to_string, contains_lit, contains_sub, crlf_to_lf, decimal, drop_trailing_empty,
    eq_lit, has_prefix, has_suffix, join_lines, join_lines_of, lf_to_crlf, lit_at, parse_unsigned,
    pop_trailing_empty, push_decimal, push_lit, push_range, spec_crlf_to_lf, spec_lf_to_crlf,
    spec_parse_unsigned, split_lines, split_lines_of, str_lines_from, str_lines_of, views,
};

verus! {

/// A key named in both emulator dialects.
#[derive(Debug, Clone)]
pub struct KeyNames {
    /// PCSX2 `Keyboard/Key_*` suffix, such as `Key_Space`.
    pub pcsx2: String,
    /// RPCS3 / SDL-style name, such as `Space`.
    pub sdl: String,
}

/// The fixed table of named keys: (PCSX2 name, SDL name).
pub open spec fn key_table(code: Seq<char>) -> Option<(Seq<char>, Seq<char>)> {
    if code == "Space"@ {
        Some(("Key_Space"@, "Space"@))
    } else if code == "ArrowUp"@ {
        Some(("Key_Up"@, "Up"@))
    } else if code == "ArrowDown"@ {
        Some(("Key_Down"@, "Down"@))
    } else if code == "ArrowLeft"@ {
        Some(("Key_Left"@, "Left"@))
    } else if code == "ArrowRight"@ {
        Some(("Key_Right"@, "Right"@))
    } else if code == "ShiftLeft"@ {
        Some(("Key_Shift"@, "LShift"@))
    } else if code == "ShiftRight"@ {
        Some(("Key_Shift"@, "RShift"@))
    } else if code == "ControlLeft"@ {
        Some(("Key_Control"@, "LControl"@))
    } else if code == "ControlRight"@ {
        Some(("Key_Control"@, "RControl"@))
    } else if code == "AltLeft"@ {
        Some(("Key_Alt"@, "LAlt"@))
    } else if code == "AltRight"@ {
        Some(("Key_Alt"@, "RAlt"@))
    } else if code == "Tab"@ {
        Some(("Key_Tab"@, "Tab"@))
    } else if code == "Enter"@ {
        Some(("Key_Return"@, "Return"@))
    } else if code == "Escape"@ {
        Some(("Key_Escape"@, "Escape"@))
    } else if code == "Backspace"@ {
        Some(("Key_Backspace"@, "Backspace"@))
    } else if code == "Delete"@ {
        Some(("Key_Delete"@, "Delete"@))
    } else if code == "Insert"@ {
        Some(("Key_Insert"@, "Insert"@))
    } else if code == "Home"@ {
        Some(("Key_Home"@, "Home"@))
    } else if code == "End"@ {
        Some(("Key_End"@, "End"@))
    } else if code == "PageUp"@ {
        Some(("Key_PageUp"@, "PageUp"@))
    } else if code == "PageDown"@ {
        Some(("Key_PageDown"@, "PageDown"@))
    } else if code == "CapsLock"@ {
        Some(("Key_CapsLock"@, "CapsLock"@))
    } else if code == "Semicolon"@ {
        Some(("Key_Semicolon"@, "Semicolon"@))
    } else if code == "Comma"@ {
        Some(("Key_Comma"@, "Comma"@))
    } else if code == "Period"@ {
        Some(("Key_Period"@, "Period"@))
    } else if code == "Slash"@ {
        Some(("Key_Slash"@, "Slash"@))
    } else if code == "Minus"@ {
        Some(("Key_Minus"@, "-"@))
    } else if code == "Equal"@ {
        Some(("Key_Equal"@, "="@))
    } else if code == "Quote"@ {
        Some(("Key_Quote"@, "'"@))
    } else if code == "Backquote"@ {
        Some(("Key_Backquote"@, "Grave"@))
    } else if code == "BracketLeft"@ {
        Some(("Key_BracketLeft"@, "["@))
    } else if code == "BracketRight"@ {
        Some(("Key_BracketRight"@, "]"@))
    } else if code == "Backslash"@ {
        Some(("Key_Backslash"@, "\\"@))
    } else {
        None
    }
}

/// ASCII upper case of a character (others unchanged).
pub open spec fn ascii_upper(c: char) -> char {
    if 'a' <= c <= 'z' { ((c as u32) - 32) as char } else { c }
}

/// The emulator key names of a browser key code: `KeyX` letters (one ASCII
/// character, upper-cased), `DigitN`, `NumpadN`, `F1`..`F12` (the number as written),
/// then the named keys; anything else (mouse buttons, media keys, ...) has none.
pub open spec fn spec_key_names(code: Seq<char>) -> Option<(Seq<char>, Seq<char>)> {
    if code.len() == 4 && has_prefix(code, "Key"@) && (code[3] as u32) < 128 {
        Some(("Key_"@.push(ascii_upper(code[3])), seq![ascii_upper(code[3])]))
    } else if has_prefix(code, "Digit"@) {
        Some(("Key_"@ + code.subrange(5, code.len() as int), code.subrange(5, code.len() as int)))
    } else if has_prefix(code, "Numpad"@) {
        Some(
            (
                "Key_NumPad"@ + code.subrange(6, code.len() as int),
                "Numpad"@ + code.subrange(6, code.len() as int),
            ),
        )
    } else if code.len() >= 1 && code[0] == 'F' {
        match spec_parse_unsigned(code.drop_first(), 255) {
            Some(n) => if 1 <= n <= 12 {
                Some(("Key_F"@ + code.drop_first(), "F"@ + code.drop_first()))
            } else {
                None
            },
            None => None,
        }
    } else {
        key_table(code)
    }
}

fn key_table_exec(c: &Vec<char>) -> (r: Option<(&'static str, &'static str)>)
    ensures
        match r {
            Some(p) => key_table(c@) == Some((p.0@, p.1@)),
            None => key_table(c@) is None,
        },
{
    if eq_lit(c, "Space") {
        Some(("Key_Space", "Space"))
    } else if eq_lit(c, "ArrowUp") {
        Some(("Key_Up", "Up"))
    } else if eq_lit(c, "ArrowDown") {
        Some(("Key_Down", "Down"))
    } else if eq_lit(c, "ArrowLeft") {
        Some(("Key_Left", "Left"))
    } else if eq_lit(c, "ArrowRight") {
        Some(("Key_Right", "Right"))
    } else if eq_lit(c, "ShiftLeft") {
        Some(("Key_Shift", "LShift"))
    } else if eq_lit(c, "ShiftRight") {
        Some(("Key_Shift", "RShift"))
    } else if eq_lit(c, "ControlLeft") {
        Some(("Key_Control", "LControl"))
    } else if eq_lit(c, "ControlRight") {
        Some(("Key_Control", "RControl"))
    } else if eq_lit(c, "AltLeft") {
        Some(("Key_Alt", "LAlt"))
    } else if eq_lit(c, "AltRight") {
        Some(("Key_Alt", "RAlt"))
    } else if eq_lit(c, "Tab") {
        Some(("Key_Tab", "Tab"))
    } else if eq_lit(c, "Enter") {
        Some(("Key_Return", "Return"))
    } else if eq_lit(c, "Escape") {
        Some(("Key_Escape", "Escape"))
    } else if eq_lit(c, "Backspace") {
        Some(("Key_Backspace", "Backspace"))
    } else if eq_lit(c, "Delete") {
        Some(("Key_Delete", "Delete"))
    } else if eq_lit(c, "Insert") {
        Some(("Key_Insert", "Insert"))
    } else if eq_lit(c, "Home") {
        Some(("Key_Home", "Home"))
    } else if eq_lit(c, "End") {
        Some(("Key_End", "End"))
    } else if eq_lit(c, "PageUp") {
        Some(("Key_PageUp", "PageUp"))
    } else if eq_lit(c, "PageDown") {
        Some(("Key_PageDown", "PageDown"))
    } else if eq_lit(c, "CapsLock") {
        Some(("Key_CapsLock", "CapsLock"))
    } else if eq_lit(c, "Semicolon") {
        Some(("Key_Semicolon", "Semicolon"))
    } else if eq_lit(c, "Comma") {
        Some(("Key_Comma", "Comma"))
    } else if eq_lit(c, "Period") {
        Some(("Key_Period", "Period"))
    } else if eq_lit(c, "Slash") {
        Some(("Key_Slash", "Slash"))
    } else if eq_lit(c, "Minus") {
        Some(("Key_Minus", "-"))
    } else if eq_lit(c, "Equal") {
        Some(("Key_Equal", "="))
    } else if eq_lit(c, "Quote") {
        Some(("Key_Quote", "'"))
    } else if eq_lit(c, "Backquote") {
        Some(("Key_Backquote", "Grave"))
    } else if eq_lit(c, "BracketLeft") {
        Some(("Key_BracketLeft", "["))
    } else if eq_lit(c, "BracketRight") {
        Some(("Key_BracketRight", "]"))
    } else if eq_lit(c, "Backslash") {
        Some(("Key_Backslash", "\\"))
    } else {
        None
    }
}

fn names_of(pcsx2: &Vec<char>, sdl: &Vec<char>) -> (r: KeyNames)
    ensures
        r.pcsx2@ == pcsx2@,
        r.sdl@ == sdl@,
{
    KeyNames { pcsx2: chars_to_string(pcsx2), sdl: chars_to_string(sdl) }
}

/// Translate a browser `KeyboardEvent.code` into the key names both emulators use.
pub fn key_names(code: &str) -> (r: Option<KeyNames>)
    ensures
        match r {
            Some(k) => spec_key_names(code@) == Some((k.pcsx2@, k.sdl@)),
            None => spec_key_names(code@) is None,
        },
{
    let c = chars_of(code);
    proof {
        reveal_strlit("Key");
        reveal_strlit("Digit");
        reveal_strlit("Numpad");
    }
    if c.len() == 4 && lit_at(&c, 0, "Key") && (c[3] as u32) < 128 {
        let ch = c[3];
        let up: char = if 'a' <= ch && ch <= 'z' { (((ch as u32) - 32) as u8) as char } else { ch };
        let mut p: Vec<char> = Vec::new();
        push_lit(&mut p, "Key_");
        p.push(up);
        let mut s: Vec<char> = Vec::new();
        s.push(up);
        assert(s@ =~= seq![up]);
        return Some(names_of(&p, &s));
    }
    if lit_at(&c, 0, "Digit") {
        let mut p: Vec<char> = Vec::new();
        push_lit(&mut p, "Key_");
        push_range(&mut p, &c, 5, c.len());
        let mut s: Vec<char> = Vec::new();
        push_range(&mut s, &c, 5, c.len());
        assert(s@ =~= c@.subrange(5, c@.len() as int));
        return Some(names_of(&p, &s));
    }
    if lit_at(&c, 0, "Numpad") {
        let mut p: Vec<char> = Vec::new();
        push_lit(&mut p, "Key_NumPad");
        push_range(&mut p, &c, 6, c.len());
        let mut s: Vec<char> = Vec::new();
        push_lit(&mut s, "Numpad");
        push_range(&mut s, &c, 6, c.len());
        return Some(names_of(&p, &s));
    }
    if c.len() >= 1 && c[0] == 'F' {
        assert(c@.subrange(1, c@.len() as int) =~= c@.drop_first());
        let n = parse_unsigned(&c, 1, c.len(), 255);
        match n {
            Some(v) => {
                if 1 <= v && v <= 12 {
                    let mut p: Vec<char> = Vec::new();
                    push_lit(&mut p, "Key_F");
                    push_range(&mut p, &c, 1, c.len());
                    let mut s: Vec<char> = Vec::new();
                    push_lit(&mut s, "F");
                    push_range(&mut s, &c, 1, c.len());
                    return Some(names_of(&p, &s));
                }
                return None;
            },
            None => {
                return None;
            },
        }
    }
    match key_table_exec(&c) {
        Some((p, s)) => {
            let pv = chars_of(p);
            let sv = chars_of(s);
            Some(names_of(&pv, &sv))
        },
        None => None,
    }
}

/// Control name to the PCSX2 pad field bound to it.
pub open spec fn spec_pcsx2_field(control: Seq<char>) -> Option<Seq<char>> {
    if control == "cross"@ {
        Some("Cross"@)
    } else if control == "circle"@ {
        Some("Circle"@)
    } else if control == "square"@ {
        Some("Square"@)
    } else if control == "triangle"@ {
        Some("Triangle"@)
    } else if control == "l1"@ {
        Some("L1"@)
    } else if control == "r1"@ {
        Some("R1"@)
    } else if control == "l2"@ {
        Some("L2"@)
    } else if control == "r2"@ {
        Some("R2"@)
    } else if control == "options"@ {
        Some("Start"@)
    } else if control == "create"@ {
        Some("Select"@)
    } else if control == "dpad_up"@ {
        Some("Up"@)
    } else if control == "dpad_down"@ {
        Some("Down"@)
    } else if control == "dpad_left"@ {
        Some("Left"@)
    } else if control == "dpad_right"@ {
        Some("Right"@)
    } else if control == "lstick_up"@ {
        Some("LUp"@)
    } else if control == "lstick_down"@ {
        Some("LDown"@)
    } else if control == "lstick_left"@ {
        Some("LLeft"@)
    } else if control == "lstick_right"@ {
        Some("LRight"@)
    } else if control == "rstick_up"@ {
        Some("RUp"@)
    } else if control == "rstick_down"@ {
        Some("RDown"@)
    } else if control == "rstick_left"@ {
        Some("RLeft"@)
    } else if control == "rstick_right"@ {
        Some("RRight"@)
    } else {
        None
    }
}

/// Control name to the RPCS3 pad-config key bound to it.
pub open spec fn spec_rpcs3_key(control: Seq<char>) -> Option<Seq<char>> {
    if control == "cross"@ {
        Some("Cross"@)
    } else if control == "circle"@ {
        Some("Circle"@)
    } else if control == "square"@ {
        Some("Square"@)
    } else if control == "triangle"@ {
        Some("Triangle"@)
    } else if control == "l1"@ {
        Some("L1"@)
    } else if control == "r1"@ {
        Some("R1"@)
    } else if control == "l2"@ {
        Some("L2"@)
    } else if control == "r2"@ {
        Some("R2"@)
    } else if control == "options"@ {
        Some("Start"@)
    } else if control == "create"@ {
        Some("Select"@)
    } else if control == "dpad_up"@ {
        Some("Up"@)
    } else if control == "dpad_down"@ {
        Some("Down"@)
    } else if control == "dpad_left"@ {
        Some("Left"@)
    } else if control == "dpad_right"@ {
        Some("Right"@)
    } else if control == "lstick_up"@ {
        Some("Left Stick Up"@)
    } else if control == "lstick_down"@ {
        Some("Left Stick Down"@)
    } else if control == "lstick_left"@ {
        Some("Left Stick Left"@)
    } else if control == "lstick_right"@ {
        Some("Left Stick Right"@)
    } else if control == "rstick_up"@ {
        Some("Right Stick Up"@)
    } else if control == "rstick_down"@ {
        Some("Right Stick Down"@)
    } else if control == "rstick_left"@ {
        Some("Right Stick Left"@)
    } else if control == "rstick_right"@ {
        Some("Right Stick Right"@)
    } else {
        None
    }
}

fn pcsx2_field_chars(c: &Vec<char>) -> (r: Option<&'static str>)
    ensures
        match r {
            Some(f) => spec_pcsx2_field(c@) == Some(f@),
            None => spec_pcsx2_field(c@) is None,
        },
{
    if eq_lit(c, "cross") {
        Some("Cross")
    } else if eq_lit(c, "circle") {
        Some("Circle")
    } else if eq_lit(c, "square") {
        Some("Square")
    } else if eq_lit(c, "triangle") {
        Some("Triangle")
    } else if eq_lit(c, "l1") {
        Some("L1")
    } else if eq_lit(c, "r1") {
        Some("R1")
    } else if eq_lit(c, "l2") {
        Some("L2")
    } else if eq_lit(c, "r2") {
        Some("R2")
    } else if eq_lit(c, "options") {
        Some("Start")
    } else if eq_lit(c, "create") {
        Some("Select")
    } else if eq_lit(c, "dpad_up") {
        Some("Up")
    } else if eq_lit(c, "dpad_down") {
        Some("Down")
    } else if eq_lit(c, "dpad_left") {
        Some("Left")
    } else if eq_lit(c, "dpad_right") {
        Some("Right")
    } else if eq_lit(c, "lstick_up") {
        Some("LUp")
    } else if eq_lit(c, "lstick_down") {
        Some("LDown")
    } else if eq_lit(c, "lstick_left") {
        Some("LLeft")
    } else if eq_lit(c, "lstick_right") {
        Some("LRight")
    } else if eq_lit(c, "rstick_up") {
        Some("RUp")
    } else if eq_lit(c, "rstick_down") {
        Some("RDown")
    } else if eq_lit(c, "rstick_left") {
        Some("RLeft")
    } else if eq_lit(c, "rstick_right") {
        Some("RRight")
    } else {
        None
    }
}

fn rpcs3_key_chars(c: &Vec<char>) -> (r: Option<&'static str>)
    ensures
        match r {
            Some(f) => spec_rpcs3_key(c@) == Some(f@),
            None => spec_rpcs3_key(c@) is None,
        },
{
    if eq_lit(c, "cross") {
        Some("Cross")
    } else if eq_lit(c, "circle") {
        Some("Circle")
    } else if eq_lit(c, "square") {
        Some("Square")
    } else if eq_lit(c, "triangle") {
        Some("Triangle")
    } else if eq_lit(c, "l1") {
        Some("L1")
    } else if eq_lit(c, "r1") {
        Some("R1")
    } else if eq_lit(c, "l2") {
        Some("L2")
    } else if eq_lit(c, "r2") {
        Some("R2")
    } else if eq_lit(c, "options") {
        Some("Start")
    } else if eq_lit(c, "create") {
        Some("Select")
    } else if eq_lit(c, "dpad_up") {
        Some("Up")
    } else if eq_lit(c, "dpad_down") {
        Some("Down")
    } else if eq_lit(c, "dpad_left") {
        Some("Left")
    } else if eq_lit(c, "dpad_right") {
        Some("Right")
    } else if eq_lit(c, "lstick_up") {
        Some("Left Stick Up")
    } else if eq_lit(c, "lstick_down") {
        Some("Left Stick Down")
    } else if eq_lit(c, "lstick_left") {
        Some("Left Stick Left")
    } else if eq_lit(c, "lstick_right") {
        Some("Left Stick Right")
    } else if eq_lit(c, "rstick_up") {
        Some("Right Stick Up")
    } else if eq_lit(c, "rstick_down") {
        Some("Right Stick Down")
    } else if eq_lit(c, "rstick_left") {
        Some("Right Stick Left")
    } else if eq_lit(c, "rstick_right") {
        Some("Right Stick Right")
    } else {
        None
    }
}

/// The PCSX2 pad field a control binds to.
pub fn pcsx2_field(control: &str) -> (r: Option<&'static str>)
    ensures
        match r {
            Some(f) => spec_pcsx2_field(control@) == Some(f@),
            None => spec_pcsx2_field(control@) is None,
        },
{
    let c = chars_of(control);
    pcsx2_field_chars(&c)
}

/// The RPCS3 pad-config key a control binds to.
pub fn rpcs3_key(control: &str) -> (r: Option<&'static str>)
    ensures
        match r {
            Some(f) => spec_rpcs3_key(control@) == Some(f@),
            None => spec_rpcs3_key(control@) is None,
        },
{
    let c = chars_of(control);
    rpcs3_key_chars(&c)
}

// ---- keymap JSON ------------------------------------------------------------

/// The entries of a JSON object, key and string value (`None` for a value that is
/// not a string), as `serde_json` parses `json`; `None` when `json` is not a JSON
/// object.
pub uninterp spec fn json_object_of(json: Seq<char>) -> Option<Seq<(Seq<char>, Option<Seq<char>>)>>;

pub open spec fn entry_views(e: Seq<(String, Option<String>)>) -> Seq<(Seq<char>, Option<Seq<char>>)> {
    e.map_values(|p: (String, Option<String>)| (p.0@, match p.1 { Some(v) => Some(v@), None => None }))
}

/// `serde_json::from_str` into a `Value`, then the object's entries with each value
/// read by `Value::as_str`. Only the parse is trusted: the entries are named by
/// [`json_object_of`], a function of the text alone.
#[verifier::external_body]
fn json_object_entries(json: &str) -> (r: Option<Vec<(String, Option<String>)>>)
    ensures
        match r {
            Some(e) => json_object_of(json@) == Some(entry_views(e@)),
            None => json_object_of(json@) is None,
        },
{
    let v: serde_json::Value = serde_json::from_str(json).ok()?;
    let obj = v.as_object()?;
    Some(obj.iter().map(|(k, val)| (k.clone(), val.as_str().map(|s| s.to_string()))).collect())
}

/// The entries whose value is a string, as (control, key code) pairs, in order.
pub open spec fn string_entries(e: Seq<(Seq<char>, Option<Seq<char>>)>) -> Seq<(Seq<char>, Seq<char>)>
    decreases e.len(),
{
    if e.len() == 0 {
        seq![]
    } else {
        string_entries(e.drop_last()) + match e.last().1 {
            Some(v) => seq![(e.last().0, v)],
            None => seq![],
        }
    }
}

/// The keymap of a JSON object: control name to browser key code, in the object's
/// order, skipping values that are not strings; `None` when the text is not an
/// object or no value is a string.
pub open spec fn spec_keymap_of(entries: Option<Seq<(Seq<char>, Option<Seq<char>>)>>) -> Option<Seq<(Seq<char>, Seq<char>)>> {
    match entries {
        None => None,
        Some(e) => if string_entries(e).len() == 0 {
            None
        } else {
            Some(string_entries(e))
        },
    }
}

pub open spec fn pair_views(m: Seq<(String, String)>) -> Seq<(Seq<char>, Seq<char>)> {
    m.map_values(|p: (String, String)| (p.0@, p.1@))
}

/// Read the controls the browser bound (see [`spec_keymap_of`]).
pub fn keymap_from_entries(entries: &Vec<(String, Option<String>)>) -> (r: Option<Vec<(String, String)>>)
    ensures
        match r {
            Some(m) => spec_keymap_of(Some(entry_views(entries@))) == Some(pair_views(m@)),
            None => spec_keymap_of(Some(entry_views(entries@))) is None,
        },
{
    let ghost ev = entry_views(entries@);
    let mut out: Vec<(String, String)> = Vec::new();
    let mut i: usize = 0;
    assert(ev.take(0) =~= Seq::<(Seq<char>, Option<Seq<char>>)>::empty());
    assert(pair_views(out@) =~= string_entries(ev.take(0)));
    while i < entries.len()
        invariant
            i <= entries@.len(),
            ev == entry_views(entries@),
            ev.len() == entries@.len(),
            pair_views(out@) == string_entries(ev.take(i as int)),
        decreases entries.len() - i,
    {
        let (k, v) = &entries[i];
        let ghost before = out@;
        assert(ev.take(i + 1).drop_last() =~= ev.take(i as int));
        assert(ev.take(i + 1).last() == ev[i as int]);
        match v {
            Some(code) => {
                let kc = k.clone();
                let cc = code.clone();
                assert(kc@ == ev[i as int].0 && cc@ == ev[i as int].1->0);
                out.push((kc, cc));
                assert(pair_views(out@) =~= pair_views(before).push((ev[i as int].0, ev[i as int].1->0)));
                assert(pair_views(out@) =~= string_entries(ev.take(i + 1)));
            },
            None => {
                assert(ev[i as int].1 is None);
                assert(pair_views(out@) =~= string_entries(ev.take(i + 1)));
            },
        }
        i += 1;
    }
    assert(ev.take(ev.len() as int) =~= ev);
    if out.len() == 0 {
        None
    } else {
        Some(out)
    }
}

/// Parse the JSON keymap the browser sends: control name to `KeyboardEvent.code`.
pub fn parse_keymap(json: &str) -> (r: Option<Vec<(String, String)>>)
    ensures
        match r {
            Some(m) => spec_keymap_of(json_object_of(json@)) == Some(pair_views(m@)),
            None => spec_keymap_of(json_object_of(json@)) is None,
        },
{
    match json_object_entries(json) {
        Some(e) => keymap_from_entries(&e),
        None => None,
    }
}

// ---- config edits -----------------------------------------------------------

/// What to do with an emulator config for a keymap.
#[derive(Debug, Clone)]
pub enum ConfigEdit {
    /// No control in the keymap has a binding in this emulator: leave the file.
    NothingToBind,
    /// The player's block is missing (RPCS3 only edits an existing block): leave the file.
    NoPlayerBlock,
    /// The player is already bound to the keyboard: leave the file.
    AlreadyBound,
    /// Write these new contents.
    Write(String),
}

/// A config edit as (kind, contents): 0 nothing to bind, 1 no player block,
/// 2 already bound, 3 write the contents.
pub open spec fn edit_view(e: ConfigEdit) -> (int, Seq<char>) {
    match e {
        ConfigEdit::NothingToBind => (0, seq![]),
        ConfigEdit::NoPlayerBlock => (1, seq![]),
        ConfigEdit::AlreadyBound => (2, seq![]),
        ConfigEdit::Write(s) => (3, s@),
    }
}

/// `[PadN]` for emulator player `player`.
pub open spec fn pcsx2_section(player: u8) -> Seq<char> {
    "[Pad"@ + decimal(player as nat) + "]"@
}

/// The PCSX2 binding lines of a keymap, one `Field = Keyboard/Key_*` line per
/// control that has both a PCSX2 field and a key name, in keymap order.
pub open spec fn pcsx2_bindings(km: Seq<(Seq<char>, Seq<char>)>) -> Seq<char>
    decreases km.len(),
{
    if km.len() == 0 {
        seq![]
    } else {
        pcsx2_bindings(km.drop_last()) + match (spec_pcsx2_field(km.last().0), spec_key_names(km.last().1)) {
            (Some(f), Some(n)) => f + " = Keyboard/"@ + n.0 + "\n"@,
            _ => seq![],
        }
    }
}

/// The fresh PCSX2 block: the `[PadN]` header line, the pad settings, the bindings.
pub open spec fn pcsx2_block(section: Seq<char>, bindings: Seq<char>) -> Seq<char> {
    section + "\nType = DualShock2\nInvertL = 0\nInvertR = 0\nDeadzone = 0.00\nAxisScale = 1.33\n"@ + bindings
}

/// Lines kept when the block headed `section` is dropped: from that header up to
/// the next line starting with `[`.
pub open spec fn without_section(l: Seq<Seq<char>>, section: Seq<char>, skip: bool) -> Seq<Seq<char>>
    decreases l.len(),
{
    if l.len() == 0 {
        seq![]
    } else if l[0] == section {
        without_section(l.drop_first(), section, true)
    } else if skip && !(l[0].len() > 0 && l[0][0] == '[') {
        without_section(l.drop_first(), section, true)
    } else {
        seq![l[0]] + without_section(l.drop_first(), section, false)
    }
}

/// The PCSX2 edit: drop the player's old `[PadN]` block and trailing blank lines,
/// append the fresh block, keep CRLF line ends if the file had any; unless the
/// keymap binds nothing or the file already holds the section with keyboard bindings.
pub open spec fn spec_pcsx2_edit(text: Seq<char>, km: Seq<(Seq<char>, Seq<char>)>, player: u8) -> (int, Seq<char>) {
    let section = pcsx2_section(player);
    let b = pcsx2_bindings(km);
    let norm = spec_crlf_to_lf(text);
    let kept = join_lines(drop_trailing_empty(without_section(split_lines(norm), section, false)));
    let joined = (if kept.len() > 0 { kept.push('\n') } else { kept }) + pcsx2_block(section, b);
    if b.len() == 0 {
        (0, seq![])
    } else if contains_sub(norm, section) && contains_sub(norm, " = Keyboard/"@) {
        (2, seq![])
    } else {
        (3, if contains_sub(text, "\r\n"@) { spec_lf_to_crlf(joined) } else { joined })
    }
}

fn pcsx2_bindings_of(keymap: &Vec<(String, String)>) -> (r: Vec<char>)
    ensures
        r@ == pcsx2_bindings(pair_views(keymap@)),
{
    let ghost km = pair_views(keymap@);
    let mut out: Vec<char> = Vec::new();
    let mut i: usize = 0;
    while i < keymap.len()
        invariant
            i <= keymap@.len(),
            km == pair_views(keymap@),
            out@ == pcsx2_bindings(km.take(i as int)),
        decreases keymap.len() - i,
    {
        let (control, code) = &keymap[i];
        assert(km.take(i + 1).drop_last() =~= km.take(i as int));
        let field = pcsx2_field(control.as_str());
        let names = key_names(code.as_str());
        match (field, names) {
            (Some(f), Some(n)) => {
                push_lit(&mut out, f);
                push_lit(&mut out, " = Keyboard/");
                let nv = chars_of(n.pcsx2.as_str());
                push_range(&mut out, &nv, 0, nv.len());
                assert(nv@.subrange(0, nv@.len() as int) =~= nv@);
                push_lit(&mut out, "\n");
            },
            _ => {},
        }
        i += 1;
        assert(out@ =~= pcsx2_bindings(km.take(i as int)));
    }
    assert(km.take(keymap@.len() as int) =~= km);
    out
}

fn drop_section(lines: &Vec<Vec<char>>, section: &Vec<char>) -> (r: Vec<Vec<char>>)
    ensures
        views(r@) == without_section(views(lines@), section@, false),
{
    let ghost l = views(lines@);
    let mut out: Vec<Vec<char>> = Vec::new();
    let mut skip = false;
    let mut i: usize = 0;
    assert(l.subrange(0, l.len() as int) =~= l);
    assert(views(out@) + without_section(l, section@, false) =~= without_section(l, section@, false));
    while i < lines.len()
        invariant
            i <= lines@.len(),
            l == views(lines@),
            views(out@) + without_section(l.subrange(i as int, l.len() as int), section@, skip) == without_section(
                l,
                section@,
                false,
            ),
        decreases lines.len() - i,
    {
        let line = &lines[i];
        let ghost rest = l.subrange(i as int, l.len() as int);
        assert(rest.drop_first() =~= l.subrange(i + 1, l.len() as int));
        assert(rest[0] == line@);
        if same_chars(line, section) {
            skip = true;
        } else if skip && !(line.len() > 0 && line[0] == '[') {
        } else {
            let ghost before = out@;
            out.push(line.clone());
            assert(views(out@) =~= views(before) + seq![line@]);
            skip = false;
        }
        i += 1;
    }
    assert(l.subrange(l.len() as int, l.len() as int) =~= Seq::<Seq<char>>::empty());
    assert(views(out@) + Seq::<Seq<char>>::empty() =~= views(out@));
    out
}

/// True when `a` and `b` hold the same characters.
fn same_chars(a: &Vec<char>, b: &Vec<char>) -> (r: bool)
    ensures
        r == (a@ == b@),
{
    if a.len() != b.len() {
        return false;
    }
    let mut i: usize = 0;
    while i < a.len()
        invariant
            i <= a@.len(),
            a@.len() == b@.len(),
            forall|k: int| 0 <= k < i ==> a@[k] == b@[k],
        decreases a.len() - i,
    {
        if a[i] != b[i] {
            return false;
        }
        i += 1;
    }
    assert(a@ =~= b@);
    true
}

/// Rewrite a PCSX2 config (its text) for a keymap and emulator player.
pub fn pcsx2_edit(text: &str, keymap: &Vec<(String, String)>, player: u8) -> (r: ConfigEdit)
    ensures
        edit_view(r) == spec_pcsx2_edit(text@, pair_views(keymap@), player),
{
    let mut section: Vec<char> = Vec::new();
    push_lit(&mut section, "[Pad");
    push_decimal(&mut section, player as u64);
    push_lit(&mut section, "]");
    let bindings = pcsx2_bindings_of(keymap);
    if bindings.len() == 0 {
        return ConfigEdit::NothingToBind;
    }
    let t = chars_of(text);
    let crlf = contains_lit(&t, "\r\n");
    let norm = crlf_to_lf(&t);
    let lines = split_lines_of(&norm);
    let mut kept = drop_section(&lines, &section);
    pop_trailing_empty(&mut kept);
    let mut joined = join_lines_of(&kept);
    let ghost section_v = section@;
    assert(section_v == pcsx2_section(player));
    let ghost kept_v = joined@;
    assert(kept_v == join_lines(drop_trailing_empty(without_section(split_lines(spec_crlf_to_lf(text@)), section_v, false))));
    if joined.len() > 0 {
        joined.push('\n');
    }
    let ghost head = joined@;
    assert(head == (if kept_v.len() > 0 { kept_v.push('\n') } else { kept_v }));
    push_range(&mut joined, &section, 0, section.len());
    push_lit(&mut joined, "\nType = DualShock2\nInvertL = 0\nInvertR = 0\nDeadzone = 0.00\nAxisScale = 1.33\n");
    push_range(&mut joined, &bindings, 0, bindings.len());
    proof {
        assert(section@.subrange(0, section@.len() as int) =~= section@);
        assert(bindings@.subrange(0, bindings@.len() as int) =~= bindings@);
        assert(joined@ =~= head + pcsx2_block(section_v, bindings@));
    }
    if contains_chars(&norm, &section) && contains_lit(&norm, " = Keyboard/") {
        return ConfigEdit::AlreadyBound;
    }
    let out = if crlf { lf_to_crlf(&joined) } else { joined };
    ConfigEdit::Write(chars_to_string(&out))
}

/// True when `p` occurs in `v`.
fn contains_chars(v: &Vec<char>, p: &Vec<char>) -> (r: bool)
    ensures
        r == contains_sub(v@, p@),
{
    let mut i: usize = 0;
    while i <= v.len()
        invariant
            i <= v@.len() + 1,
            forall|k: int| 0 <= k < i ==> !(k + p@.len() <= v@.len() && #[trigger] v@.subrange(k, k + p@.len()) == p@),
        decreases v.len() + 1 - i,
    {
        if p.len() <= v.len() - i {
            let mut j: usize = 0;
            let mut ok = true;
            while j < p.len()
                invariant
                    j <= p@.len(),
                    i + p@.len() <= v@.len(),
                    i + p.len() <= v.len(),
                    ok == (forall|m: int| 0 <= m < j ==> v@[i + m] == p@[m]),
                decreases p.len() - j,
            {
                ok = ok && v[i + j] == p[j];
                j += 1;
            }
            if ok {
                assert(v@.subrange(i as int, i + p@.len()) =~= p@);
                return true;
            }
            assert(v@.subrange(i as int, i + p@.len()) != p@) by {
                let m = choose|m: int| 0 <= m < p@.len() && v@[i + m] != p@[m];
                assert(v@.subrange(i as int, i + p@.len())[m] != p@[m]);
            }
        }
        if i == v.len() {
            return false;
        }
        i += 1;
    }
    false
}

/// A non-empty PCSX2 binding list holds a keyboard binding.
proof fn lemma_pcsx2_bindings_keyboard(km: Seq<(Seq<char>, Seq<char>)>)
    requires
        pcsx2_bindings(km).len() > 0,
    ensures
        contains_sub(pcsx2_bindings(km), " = Keyboard/"@),
    decreases km.len(),
{
    let prev = pcsx2_bindings(km.drop_last());
    let chunk = match (spec_pcsx2_field(km.last().0), spec_key_names(km.last().1)) {
        (Some(f), Some(n)) => f + " = Keyboard/"@ + n.0 + "\n"@,
        _ => seq![],
    };
    assert(pcsx2_bindings(km) == prev + chunk);
    if prev.len() > 0 {
        lemma_pcsx2_bindings_keyboard(km.drop_last());
        lemma_contains_within(seq![], prev, chunk, " = Keyboard/"@);
        assert(seq![] + prev + chunk =~= prev + chunk);
    } else {
        match (spec_pcsx2_field(km.last().0), spec_key_names(km.last().1)) {
            (Some(f), Some(n)) => {
                lemma_contains_self(" = Keyboard/"@);
                lemma_contains_within(f, " = Keyboard/"@, n.0 + "\n"@, " = Keyboard/"@);
                assert(f + " = Keyboard/"@ + (n.0 + "\n"@) =~= chunk);
                assert(prev + chunk =~= chunk);
            },
            _ => {},
        }
    }
}

/// A config the PCSX2 edit wrote is left alone by the same edit afterwards: the
/// file then holds the player's section with keyboard bindings.
pub proof fn lemma_pcsx2_edit_settles(text: Seq<char>, km: Seq<(Seq<char>, Seq<char>)>, player: u8)
    requires
        spec_pcsx2_edit(text, km, player).0 == 3,
    ensures
        spec_pcsx2_edit(spec_pcsx2_edit(text, km, player).1, km, player).0 == 2,
{
    let section = pcsx2_section(player);
    let b = pcsx2_bindings(km);
    let norm = spec_crlf_to_lf(text);
    let kept = join_lines(drop_trailing_empty(without_section(split_lines(norm), section, false)));
    let head = if kept.len() > 0 { kept.push('\n') } else { kept };
    let joined = head + pcsx2_block(section, b);
    let out = spec_pcsx2_edit(text, km, player).1;
    let tail = "\nType = DualShock2\nInvertL = 0\nInvertR = 0\nDeadzone = 0.00\nAxisScale = 1.33\n"@;
    lemma_contains_self(section);
    lemma_contains_within(head, section, tail + b, section);
    assert(head + section + (tail + b) =~= joined);
    lemma_pcsx2_bindings_keyboard(km);
    lemma_contains_within(head + section + tail, b, seq![], " = Keyboard/"@);
    assert(head + section + tail + b + seq![] =~= joined);
    lemma_section_plain(player);
    reveal_strlit(" = Keyboard/");
    assert(no_line_ends(" = Keyboard/"@));
    if contains_sub(text, "\r\n"@) {
        lemma_crlf_roundtrip(joined);
    } else {
        lemma_crlf_to_lf_keeps(joined, section);
        lemma_crlf_to_lf_keeps(joined, " = Keyboard/"@);
    }
}

/// The section header has no line ends.
proof fn lemma_section_plain(player: u8)
    ensures
        no_line_ends(pcsx2_section(player)),
{
    reveal_strlit("[Pad");
    reveal_strlit("]");
    lemma_decimal_plain(player as nat);
    let s = pcsx2_section(player);
    assert forall|k: int| 0 <= k < s.len() implies #[trigger] s[k] != '\r' && s[k] != '\n' by {
        if 4 <= k < 4 + decimal(player as nat).len() {
            assert(s[k] == decimal(player as nat)[k - 4]);
        }
    }
}

/// Decimal digits are digits.
proof fn lemma_decimal_plain(n: nat)
    ensures
        forall|k: int| 0 <= k < decimal(n).len() ==> #[trigger] decimal(n)[k] != '\r' && decimal(n)[k] != '\n',
    decreases n,
{
    if n >= 10 {
        lemma_decimal_plain(n / 10);
        let d = decimal(n / 10);
        assert forall|k: int| 0 <= k < decimal(n).len() implies #[trigger] decimal(n)[k] != '\r' && decimal(n)[k]
            != '\n' by {
            if k < d.len() {
                assert(decimal(n)[k] == d[k]);
            }
        }
    }
}

/// `Player N Input:` for emulator player `player`.
pub open spec fn rpcs3_header(player: u8) -> Seq<char> {
    "Player "@ + decimal(player as nat) + " Input:"@
}

/// The RPCS3 binding lines of a keymap, one `  Key: Name` line per control that has
/// both an RPCS3 key and a key name, in keymap order.
pub open spec fn rpcs3_bindings(km: Seq<(Seq<char>, Seq<char>)>) -> Seq<char>
    decreases km.len(),
{
    if km.len() == 0 {
        seq![]
    } else {
        rpcs3_bindings(km.drop_last()) + match (spec_rpcs3_key(km.last().0), spec_key_names(km.last().1)) {
            (Some(k), Some(n)) => "  "@ + k + ": "@ + n.1 + "\n"@,
            _ => seq![],
        }
    }
}

/// The lines replacing the player's block: keyboard handler, empty device, bindings.
pub open spec fn rpcs3_block_lines(bindings: Seq<char>) -> Seq<Seq<char>> {
    str_lines_from("  Handler: Keyboard\n  Device: \"\"\n"@ + bindings, 0)
}

/// Lines after replacing the block headed `header`: the header line is kept and the
/// block lines `bl` follow it, and the indented lines under it are dropped up to the
/// next unindented line or `Player .. Input:` header.
pub open spec fn rpcs3_walk(l: Seq<Seq<char>>, header: Seq<char>, bl: Seq<Seq<char>>, in_block: bool) -> Seq<
    Seq<char>,
>
    decreases l.len(),
{
    if l.len() == 0 {
        seq![]
    } else if l[0] == header {
        seq![header] + bl + rpcs3_walk(l.drop_first(), header, bl, true)
    } else {
        let ib = in_block && !(has_prefix(l[0], "Player "@) && has_suffix(l[0], " Input:"@));
        if ib && l[0].len() > 0 && l[0][0] == ' ' {
            rpcs3_walk(l.drop_first(), header, bl, true)
        } else {
            seq![l[0]] + rpcs3_walk(l.drop_first(), header, bl, false)
        }
    }
}

/// The RPCS3 edit: the player's `Player N Input:` block switched to the keyboard
/// handler with the keymap's bindings, trailing blank lines dropped, a final line
/// end, CRLF kept if the file had any; unless the keymap binds nothing, the block is
/// missing, or the file already names the keyboard handler for that player.
pub open spec fn spec_rpcs3_edit(text: Seq<char>, km: Seq<(Seq<char>, Seq<char>)>, player: u8) -> (int, Seq<char>) {
    let header = rpcs3_header(player);
    let b = rpcs3_bindings(km);
    let norm = spec_crlf_to_lf(text);
    let lines = split_lines(norm);
    let joined = join_lines(drop_trailing_empty(rpcs3_walk(lines, header, rpcs3_block_lines(b), false))).push('\n');
    if b.len() == 0 {
        (0, seq![])
    } else if !lines.contains(header) {
        (1, seq![])
    } else if contains_sub(norm, header) && contains_sub(norm, "  Handler: Keyboard"@) {
        (2, seq![])
    } else {
        (3, if contains_sub(text, "\r\n"@) { spec_lf_to_crlf(joined) } else { joined })
    }
}

fn rpcs3_bindings_of(keymap: &Vec<(String, String)>) -> (r: Vec<char>)
    ensures
        r@ == rpcs3_bindings(pair_views(keymap@)),
{
    let ghost km = pair_views(keymap@);
    let mut out: Vec<char> = Vec::new();
    let mut i: usize = 0;
    while i < keymap.len()
        invariant
            i <= keymap@.len(),
            km == pair_views(keymap@),
            out@ == rpcs3_bindings(km.take(i as int)),
        decreases keymap.len() - i,
    {
        let (control, code) = &keymap[i];
        assert(km.take(i + 1).drop_last() =~= km.take(i as int));
        let key = rpcs3_key(control.as_str());
        let names = key_names(code.as_str());
        match (key, names) {
            (Some(k), Some(n)) => {
                push_lit(&mut out, "  ");
                push_lit(&mut out, k);
                push_lit(&mut out, ": ");
                let nv = chars_of(n.sdl.as_str());
                push_range(&mut out, &nv, 0, nv.len());
                assert(nv@.subrange(0, nv@.len() as int) =~= nv@);
                push_lit(&mut out, "\n");
            },
            _ => {},
        }
        i += 1;
        assert(out@ =~= rpcs3_bindings(km.take(i as int)));
    }
    assert(km.take(keymap@.len() as int) =~= km);
    out
}

/// True when `v` ends with `lit`.
fn ends_with_lit(v: &Vec<char>, lit: &str) -> (r: bool)
    ensures
        r == has_suffix(v@, lit@),
{
    let l = chars_of(lit);
    if l.len() > v.len() {
        return false;
    }
    lit_at(v, v.len() - l.len(), lit)
}

fn rpcs3_replace(lines: &Vec<Vec<char>>, header: &Vec<char>, bl: &Vec<Vec<char>>) -> (r: (Vec<Vec<char>>, bool))
    ensures
        views(r.0@) == rpcs3_walk(views(lines@), header@, views(bl@), false),
        r.1 == views(lines@).contains(header@),
{
    let ghost l = views(lines@);
    let ghost b = views(bl@);
    let mut out: Vec<Vec<char>> = Vec::new();
    let mut in_block = false;
    let mut replaced = false;
    let mut i: usize = 0;
    assert(l.subrange(0, l.len() as int) =~= l);
    assert(views(out@) + rpcs3_walk(l, header@, b, false) =~= rpcs3_walk(l, header@, b, false));
    while i < lines.len()
        invariant
            i <= lines@.len(),
            l == views(lines@),
            b == views(bl@),
            views(out@) + rpcs3_walk(l.subrange(i as int, l.len() as int), header@, b, in_block) == rpcs3_walk(
                l,
                header@,
                b,
                false,
            ),
            replaced == (exists|k: int| 0 <= k < i && l[k] == header@),
        decreases lines.len() - i,
    {
        let t = &lines[i];
        let ghost rest = l.subrange(i as int, l.len() as int);
        assert(rest.drop_first() =~= l.subrange(i + 1, l.len() as int));
        assert(rest[0] == t@);
        if same_chars(t, header) {
            in_block = true;
            replaced = true;
            let mut k: usize = 0;
            let ghost start = out@;
            out.push(t.clone());
            assert(views(out@) =~= views(start) + seq![header@]);
            let ghost before = out@;
            while k < bl.len()
                invariant
                    k <= bl@.len(),
                    b == views(bl@),
                    views(out@) == views(before) + b.take(k as int),
                decreases bl.len() - k,
            {
                let ghost o = out@;
                out.push(bl[k].clone());
                assert(b.take(k + 1) =~= b.take(k as int).push(b[k as int]));
                assert(views(out@) =~= views(o).push(bl@[k as int]@));
                k += 1;
            }
            assert(b.take(b.len() as int) =~= b);
        } else {
            let ib = in_block && !(lit_at(t, 0, "Player ") && ends_with_lit(t, " Input:"));
            if ib && t.len() > 0 && t[0] == ' ' {
                in_block = true;
            } else {
                let ghost before = out@;
                out.push(t.clone());
                assert(views(out@) =~= views(before) + seq![t@]);
                in_block = false;
            }
        }
        i += 1;
    }
    assert(l.subrange(l.len() as int, l.len() as int) =~= Seq::<Seq<char>>::empty());
    assert(views(out@) + Seq::<Seq<char>>::empty() =~= views(out@));
    proof {
        if l.contains(header@) {
            let k = choose|k: int| 0 <= k < l.len() && l[k] == header@;
        }
    }
    (out, replaced)
}

/// Rewrite an RPCS3 pad config (its text) for a keymap and emulator player.
pub fn rpcs3_edit(text: &str, keymap: &Vec<(String, String)>, player: u8) -> (r: ConfigEdit)
    ensures
        edit_view(r) == spec_rpcs3_edit(text@, pair_views(keymap@), player),
{
    let mut header: Vec<char> = Vec::new();
    push_lit(&mut header, "Player ");
    push_decimal(&mut header, player as u64);
    push_lit(&mut header, " Input:");
    let bindings = rpcs3_bindings_of(keymap);
    if bindings.len() == 0 {
        return ConfigEdit::NothingToBind;
    }
    let mut binds: Vec<char> = Vec::new();
    push_lit(&mut binds, "  Handler: Keyboard\n  Device: \"\"\n");
    push_range(&mut binds, &bindings, 0, bindings.len());
    assert(bindings@.subrange(0, bindings@.len() as int) =~= bindings@);
    let bl = str_lines_of(&binds);
    let t = chars_of(text);
    let crlf = contains_lit(&t, "\r\n");
    let norm = crlf_to_lf(&t);
    let lines = split_lines_of(&norm);
    let (mut out, replaced) = rpcs3_replace(&lines, &header, &bl);
    if !replaced {
        return ConfigEdit::NoPlayerBlock;
    }
    pop_trailing_empty(&mut out);
    let mut joined = join_lines_of(&out);
    joined.push('\n');
    if contains_chars(&norm, &header) && contains_lit(&norm, "  Handler: Keyboard") {
        return ConfigEdit::AlreadyBound;
    }
    let res = if crlf { lf_to_crlf(&joined) } else { joined };
    ConfigEdit::Write(chars_to_string(&res))
}

} // verus!
