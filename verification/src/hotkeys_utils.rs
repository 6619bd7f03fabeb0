//! Hotkey bindings: chords of one modifier and one letter, the actions they
//! trigger, the staged and committed configuration, and dispatch of fired
//! handles to actions.

use vstd::prelude::*;
use global_hotkey::hotkey::{Code, HotKey, Modifiers};
use std::collections::HashSet;

verus! {

broadcast use vstd::std_specs::hash::group_hash_axioms;

/// The modifier half of a chord.
#[derive(Clone, Copy, PartialEq, Eq, Structural, Debug)]
pub enum Modifier {
    Alt,
    Ctrl,
    Shift,
}

/// The key half of a chord: one letter key.
#[derive(Clone, Copy, PartialEq, Eq, Structural, Debug)]
pub enum Key {
    KeyA,
    KeyB,
    KeyC,
    KeyD,
    KeyE,
    KeyF,
    KeyG,
    KeyH,
    KeyI,
    KeyJ,
    KeyK,
    KeyL,
    KeyM,
    KeyN,
    KeyO,
    KeyP,
    KeyQ,
    KeyR,
    KeyS,
    KeyT,
    KeyU,
    KeyV,
    KeyW,
    KeyX,
    KeyY,
    KeyZ,
}

/// What a fired hotkey asks the application to do.
#[derive(Clone, Copy, PartialEq, Eq, Structural, Debug)]
pub enum Action {
    CopyImage,
    SaveImage,
    TakeSnapshot,
    SelectNoTool,
    SelectPen,
    SelectCrop,
    Undo,
    Redo,
}

/// The capital letter printed on a key.
pub open spec fn letter_of(key: Key) -> char {
    match key {
        Key::KeyA => 'A',
        Key::KeyB => 'B',
        Key::KeyC => 'C',
        Key::KeyD => 'D',
        Key::KeyE => 'E',
        Key::KeyF => 'F',
        Key::KeyG => 'G',
        Key::KeyH => 'H',
        Key::KeyI => 'I',
        Key::KeyJ => 'J',
        Key::KeyK => 'K',
        Key::KeyL => 'L',
        Key::KeyM => 'M',
        Key::KeyN => 'N',
        Key::KeyO => 'O',
        Key::KeyP => 'P',
        Key::KeyQ => 'Q',
        Key::KeyR => 'R',
        Key::KeyS => 'S',
        Key::KeyT => 'T',
        Key::KeyU => 'U',
        Key::KeyV => 'V',
        Key::KeyW => 'W',
        Key::KeyX => 'X',
        Key::KeyY => 'Y',
        Key::KeyZ => 'Z',
    }
}

/// The key that a capital letter names, if it names one.
pub open spec fn key_of_letter(c: char) -> Option<Key> {
    match c {
        'A' => Some(Key::KeyA),
        'B' => Some(Key::KeyB),
        'C' => Some(Key::KeyC),
        'D' => Some(Key::KeyD),
        'E' => Some(Key::KeyE),
        'F' => Some(Key::KeyF),
        'G' => Some(Key::KeyG),
        'H' => Some(Key::KeyH),
        'I' => Some(Key::KeyI),
        'J' => Some(Key::KeyJ),
        'K' => Some(Key::KeyK),
        'L' => Some(Key::KeyL),
        'M' => Some(Key::KeyM),
        'N' => Some(Key::KeyN),
        'O' => Some(Key::KeyO),
        'P' => Some(Key::KeyP),
        'Q' => Some(Key::KeyQ),
        'R' => Some(Key::KeyR),
        'S' => Some(Key::KeyS),
        'T' => Some(Key::KeyT),
        'U' => Some(Key::KeyU),
        'V' => Some(Key::KeyV),
        'W' => Some(Key::KeyW),
        'X' => Some(Key::KeyX),
        'Y' => Some(Key::KeyY),
        'Z' => Some(Key::KeyZ),
        _ => None,
    }
}

/// Position of a key in the alphabet, from 0.
pub open spec fn key_index(key: Key) -> int {
    match key {
        Key::KeyA => 0,
        Key::KeyB => 1,
        Key::KeyC => 2,
        Key::KeyD => 3,
        Key::KeyE => 4,
        Key::KeyF => 5,
        Key::KeyG => 6,
        Key::KeyH => 7,
        Key::KeyI => 8,
        Key::KeyJ => 9,
        Key::KeyK => 10,
        Key::KeyL => 11,
        Key::KeyM => 12,
        Key::KeyN => 13,
        Key::KeyO => 14,
        Key::KeyP => 15,
        Key::KeyQ => 16,
        Key::KeyR => 17,
        Key::KeyS => 18,
        Key::KeyT => 19,
        Key::KeyU => 20,
        Key::KeyV => 21,
        Key::KeyW => 22,
        Key::KeyX => 23,
        Key::KeyY => 24,
        Key::KeyZ => 25,
    }
}

/// Position of a modifier among the three, from 0.
pub open spec fn modifier_index(modifier: Modifier) -> int {
    match modifier {
        Modifier::Alt => 0,
        Modifier::Ctrl => 1,
        Modifier::Shift => 2,
    }
}

/// A number that tells every chord from every other.
pub open spec fn chord_index(modifier: Modifier, key: Key) -> int {
    modifier_index(modifier) * 26 + key_index(key)
}

/// Reading a key's letter back gives the key, and only a key's own letter
/// names it.
pub proof fn lemma_letter_round_trip(key: Key, c: char)
    ensures
        key_of_letter(letter_of(key)) == Some(key),
        key_of_letter(c) == Some(key) ==> c == letter_of(key),
{
}

/// Chords with the same index are the same chord.
pub proof fn lemma_chord_index_injective(m1: Modifier, k1: Key, m2: Modifier, k2: Key)
    ensures
        0 <= chord_index(m1, k1) < 78,
        chord_index(m1, k1) == chord_index(m2, k2) <==> m1 == m2 && k1 == k2,
{
}

impl Key {
    /// The capital letter printed on the key.
    pub fn letter(self) -> (c: char)
        ensures
            c == letter_of(self),
    {
        match self {
            Key::KeyA => 'A',
            Key::KeyB => 'B',
            Key::KeyC => 'C',
            Key::KeyD => 'D',
            Key::KeyE => 'E',
            Key::KeyF => 'F',
            Key::KeyG => 'G',
            Key::KeyH => 'H',
            Key::KeyI => 'I',
            Key::KeyJ => 'J',
            Key::KeyK => 'K',
            Key::KeyL => 'L',
            Key::KeyM => 'M',
            Key::KeyN => 'N',
            Key::KeyO => 'O',
            Key::KeyP => 'P',
            Key::KeyQ => 'Q',
            Key::KeyR => 'R',
            Key::KeyS => 'S',
            Key::KeyT => 'T',
            Key::KeyU => 'U',
            Key::KeyV => 'V',
            Key::KeyW => 'W',
            Key::KeyX => 'X',
            Key::KeyY => 'Y',
            Key::KeyZ => 'Z',
        }
    }

    /// The key that a capital letter names.
    pub fn from_letter(c: char) -> (res: Option<Key>)
        ensures
            res == key_of_letter(c),
    {
        match c {
            'A' => Some(Key::KeyA),
            'B' => Some(Key::KeyB),
            'C' => Some(Key::KeyC),
            'D' => Some(Key::KeyD),
            'E' => Some(Key::KeyE),
            'F' => Some(Key::KeyF),
            'G' => Some(Key::KeyG),
            'H' => Some(Key::KeyH),
            'I' => Some(Key::KeyI),
            'J' => Some(Key::KeyJ),
            'K' => Some(Key::KeyK),
            'L' => Some(Key::KeyL),
            'M' => Some(Key::KeyM),
            'N' => Some(Key::KeyN),
            'O' => Some(Key::KeyO),
            'P' => Some(Key::KeyP),
            'Q' => Some(Key::KeyQ),
            'R' => Some(Key::KeyR),
            'S' => Some(Key::KeyS),
            'T' => Some(Key::KeyT),
            'U' => Some(Key::KeyU),
            'V' => Some(Key::KeyV),
            'W' => Some(Key::KeyW),
            'X' => Some(Key::KeyX),
            'Y' => Some(Key::KeyY),
            'Z' => Some(Key::KeyZ),
            _ => None,
        }
    }

    /// Position of the key in the alphabet, from 0.
    pub fn index(self) -> (i: u32)
        ensures
            i == key_index(self),
    {
        match self {
            Key::KeyA => 0,
            Key::KeyB => 1,
            Key::KeyC => 2,
            Key::KeyD => 3,
            Key::KeyE => 4,
            Key::KeyF => 5,
            Key::KeyG => 6,
            Key::KeyH => 7,
            Key::KeyI => 8,
            Key::KeyJ => 9,
            Key::KeyK => 10,
            Key::KeyL => 11,
            Key::KeyM => 12,
            Key::KeyN => 13,
            Key::KeyO => 14,
            Key::KeyP => 15,
            Key::KeyQ => 16,
            Key::KeyR => 17,
            Key::KeyS => 18,
            Key::KeyT => 19,
            Key::KeyU => 20,
            Key::KeyV => 21,
            Key::KeyW => 22,
            Key::KeyX => 23,
            Key::KeyY => 24,
            Key::KeyZ => 25,
        }
    }
}

/// The name that a modifier is shown and read under.
pub open spec fn modifier_text(modifier: Modifier) -> Seq<char> {
    match modifier {
        Modifier::Alt => seq!['A', 'L', 'T'],
        Modifier::Ctrl => seq!['C', 'T', 'R', 'L'],
        Modifier::Shift => seq!['S', 'H', 'I', 'F', 'T'],
    }
}

/// The label that an action is shown under.
pub open spec fn action_text(action: Action) -> Seq<char> {
    match action {
        Action::CopyImage => seq!['C', 'o', 'p', 'y'],
        Action::SaveImage => seq!['S', 'a', 'v', 'e'],
        Action::TakeSnapshot => seq!['T', 'a', 'k', 'e'],
        Action::SelectNoTool => seq!['N', 'o', 'n', 'e'],
        Action::SelectPen => seq!['P', 'e', 'n'],
        Action::SelectCrop => seq!['C', 'r', 'o', 'p'],
        Action::Undo => seq!['U', 'n', 'd', 'o'],
        Action::Redo => seq!['R', 'e', 'd', 'o'],
    }
}

impl Action {
    /// The label that the action is shown under.
    pub fn label(self) -> (res: &'static str)
        ensures
            res@ == action_text(self),
    {
        proof {
            reveal_strlit("Copy");
            reveal_strlit("Save");
            reveal_strlit("Take");
            reveal_strlit("None");
            reveal_strlit("Pen");
            reveal_strlit("Crop");
            reveal_strlit("Undo");
            reveal_strlit("Redo");
        }
        let res = match self {
            Action::CopyImage => "Copy",
            Action::SaveImage => "Save",
            Action::TakeSnapshot => "Take",
            Action::SelectNoTool => "None",
            Action::SelectPen => "Pen",
            Action::SelectCrop => "Crop",
            Action::Undo => "Undo",
            Action::Redo => "Redo",
        };
        assert(res@ =~= action_text(self));
        res
    }
}

impl Modifier {
    /// The name that the modifier is shown and read under.
    pub fn name(self) -> (res: &'static str)
        ensures
            res@ == modifier_text(self),
    {
        proof {
            reveal_strlit("ALT");
            reveal_strlit("CTRL");
            reveal_strlit("SHIFT");
        }
        let res = match self {
            Modifier::Alt => "ALT",
            Modifier::Ctrl => "CTRL",
            Modifier::Shift => "SHIFT",
        };
        assert(res@ =~= modifier_text(self));
        res
    }

    /// Position of the modifier among the three, from 0.
    pub fn index(self) -> (i: u32)
        ensures
            i == modifier_index(self),
    {
        match self {
            Modifier::Alt => 0,
            Modifier::Ctrl => 1,
            Modifier::Shift => 2,
        }
    }
}

/// The text that `str::to_uppercase` gives for a text.
pub uninterp spec fn uppercase(s: Seq<char>) -> Seq<char>;

/// The capital of a small ASCII letter; any other character as it is.
pub open spec fn ascii_upper(c: char) -> char {
    if 'a' <= c && c <= 'z' {
        ((c as u8) - 32) as char
    } else {
        c
    }
}

/// Converts a text to upper case with `str::to_uppercase`.
///
/// Trusted: the result is the named upper-case form of the text, which for a
/// text of ASCII characters alone is the text with each small letter replaced
/// by its capital.
#[verifier::external_body]
fn to_uppercase(s: &str) -> (res: String)
    ensures
        res@ == uppercase(s@),
        s.is_ascii() ==> res@ == s@.map_values(|c: char| ascii_upper(c)),
{
    s.to_uppercase()
}

/// The key that a text names: the text must be one capital letter.
pub open spec fn key_of_text(s: Seq<char>) -> Option<Key> {
    if s.len() == 1 {
        key_of_letter(s[0])
    } else {
        None
    }
}

/// The modifier that a text names: `ALT`, `CTRL` or `SHIFT`, spelled so.
pub open spec fn modifier_of_text(s: Seq<char>) -> Option<Modifier> {
    if s == seq!['A', 'L', 'T'] {
        Some(Modifier::Alt)
    } else if s == seq!['C', 'T', 'R', 'L'] {
        Some(Modifier::Ctrl)
    } else if s == seq!['S', 'H', 'I', 'F', 'T'] {
        Some(Modifier::Shift)
    } else {
        None
    }
}

/// A modifier's name reads back as the modifier, and a key's letter as the
/// key.
pub proof fn lemma_names_read_back(modifier: Modifier, key: Key)
    ensures
        modifier_of_text(modifier_text(modifier)) == Some(modifier),
        key_of_text(seq![letter_of(key)]) == Some(key),
{
    let alt = seq!['A', 'L', 'T'];
    let ctrl = seq!['C', 'T', 'R', 'L'];
    let shift = seq!['S', 'H', 'I', 'F', 'T'];
    assert(alt.len() == 3 && ctrl.len() == 4 && shift.len() == 5);
    assert(seq![letter_of(key)][0] == letter_of(key));
}

/// Reads a key from a text that is already in upper case: exactly one
/// capital letter names a key, anything else names none.
pub fn key_from_upper(s: &str) -> (res: Option<Key>)
    ensures
        res == key_of_text(s@),
{
    if s.unicode_len() == 1 {
        Key::from_letter(s.get_char(0))
    } else {
        None
    }
}

/// Reads a key from a text, in either case: the text's upper-case form must
/// be exactly one capital letter.
pub fn string_to_key(s: &str) -> (res: Option<Key>)
    ensures
        res == key_of_text(uppercase(s@)),
        s.is_ascii() ==> res == key_of_text(s@.map_values(|c: char| ascii_upper(c))),
{
    let upper = to_uppercase(s);
    key_from_upper(upper.as_str())
}

/// Reads a modifier from its name. Only the exact names `ALT`, `CTRL` and
/// `SHIFT` are known; any other text names no modifier.
pub fn string_to_modifiers(s: &String) -> (res: Option<Modifier>)
    ensures
        res == modifier_of_text(s@),
{
    let text = s.as_str();
    let n = text.unicode_len();
    if n == 3 {
        if text.get_char(0) == 'A' && text.get_char(1) == 'L' && text.get_char(2) == 'T' {
            assert(s@ =~= seq!['A', 'L', 'T']);
            return Some(Modifier::Alt);
        }
    } else if n == 4 {
        if text.get_char(0) == 'C' && text.get_char(1) == 'T' && text.get_char(2) == 'R'
            && text.get_char(3) == 'L' {
            assert(s@ =~= seq!['C', 'T', 'R', 'L']);
            return Some(Modifier::Ctrl);
        }
    } else if n == 5 {
        if text.get_char(0) == 'S' && text.get_char(1) == 'H' && text.get_char(2) == 'I'
            && text.get_char(3) == 'F' && text.get_char(4) == 'T' {
            assert(s@ =~= seq!['S', 'H', 'I', 'F', 'T']);
            return Some(Modifier::Shift);
        }
    }
    proof {
        let alt = seq!['A', 'L', 'T'];
        let ctrl = seq!['C', 'T', 'R', 'L'];
        let shift = seq!['S', 'H', 'I', 'F', 'T'];
        if s@ == alt {
            assert(alt[0] == 'A' && alt[1] == 'L' && alt[2] == 'T');
        }
        if s@ == ctrl {
            assert(ctrl[0] == 'C' && ctrl[1] == 'T' && ctrl[2] == 'R' && ctrl[3] == 'L');
        }
        if s@ == shift {
            assert(shift[0] == 'S' && shift[1] == 'H' && shift[2] == 'I' && shift[3] == 'F'
                && shift[4] == 'T');
        }
    }
    None
}

/// The key that a key field holds after the user has edited its text.
///
/// The field shows one letter. An emptied field keeps the key it had. A
/// single character replaces it when it names a key. Of two or more
/// characters only the first two count: where one of them is the letter the
/// field had, the other replaces it, provided both name keys. Anything else
/// leaves the key as it was.
pub open spec fn key_after_edit(previous: Key, typed: Seq<char>) -> Key {
    if typed.len() == 0 {
        previous
    } else if typed.len() == 1 {
        match key_of_text(uppercase(typed)) {
            Some(k) => k,
            None => previous,
        }
    } else {
        let first = typed.subrange(0, 1);
        let second = typed.subrange(1, 2);
        match key_of_text(uppercase(second)) {
            None => previous,
            Some(k2) => if first[0] == letter_of(previous) {
                k2
            } else if second[0] == letter_of(previous) {
                match key_of_text(uppercase(first)) {
                    Some(k1) => k1,
                    None => previous,
                }
            } else {
                previous
            },
        }
    }
}

/// Reads the key that a key field holds after its text was edited to
/// `typed`, the field having held `previous`.
pub fn edit_key_text(previous: Key, typed: &str) -> (res: Key)
    ensures
        res == key_after_edit(previous, typed@),
{
    let n = typed.unicode_len();
    if n == 0 {
        previous
    } else if n == 1 {
        match string_to_key(typed) {
            Some(k) => k,
            None => previous,
        }
    } else {
        let first = typed.substring_char(0, 1);
        let second = typed.substring_char(1, 2);
        match string_to_key(second) {
            None => previous,
            Some(k2) => {
                if first.get_char(0) == previous.letter() {
                    k2
                } else if second.get_char(0) == previous.letter() {
                    match string_to_key(first) {
                        Some(k1) => k1,
                        None => previous,
                    }
                } else {
                    previous
                }
            },
        }
    }
}

/// The identifier that `global_hotkey::hotkey::HotKey::new` gives the hotkey
/// made of the flagged modifiers and the letter key of the given capital.
pub uninterp spec fn hotkey_id(shift: bool, control: bool, alt: bool, letter: char) -> u32;

/// The identifier of the hotkey for a chord of one modifier and one key.
pub open spec fn chord_id(modifier: Modifier, key: Key) -> u32 {
    hotkey_id(
        modifier == Modifier::Shift,
        modifier == Modifier::Ctrl,
        modifier == Modifier::Alt,
        letter_of(key),
    )
}

/// Builds the hotkey with `global_hotkey::hotkey::HotKey::new`, from the
/// flagged modifiers and the code that `keyboard_types::Code::from_str` reads
/// from `Key` followed by the letter, and returns `HotKey::id` of it.
///
/// Trusted: for a capital letter the code is read, and the identifier is the
/// named one for these arguments.
#[verifier::external_body]
fn new_hotkey_id(shift: bool, control: bool, alt: bool, letter: char) -> (id: Option<u32>)
    requires
        'A' <= letter && letter <= 'Z',
    ensures
        id == Some(hotkey_id(shift, control, alt, letter)),
{
    let mut mods = Modifiers::empty();
    mods.set(Modifiers::SHIFT, shift);
    mods.set(Modifiers::CONTROL, control);
    mods.set(Modifiers::ALT, alt);
    match format!("Key{}", letter).parse::<Code>() {
        Ok(code) => Some(HotKey::new(Some(mods), code).id()),
        Err(_) => None,
    }
}

/// The handle under which a chord is registered with the system: the chord
/// and the identifier that fired events carry.
#[derive(Clone, Copy, Debug)]
pub struct RegisteredHotkey {
    modifier: Modifier,
    code: Key,
    id: u32,
}

impl RegisteredHotkey {
    #[verifier::type_invariant]
    spec fn inv(self) -> bool {
        self.id == chord_id(self.modifier, self.code)
    }

    /// The handle's modifier.
    pub closed spec fn spec_modifier(&self) -> Modifier {
        self.modifier
    }

    /// The handle's key.
    pub closed spec fn spec_code(&self) -> Key {
        self.code
    }

    /// The handle's identifier.
    pub closed spec fn spec_id(&self) -> u32 {
        self.id
    }

    /// The handle of a chord.
    pub closed spec fn of(modifier: Modifier, code: Key) -> RegisteredHotkey {
        RegisteredHotkey { modifier, code, id: chord_id(modifier, code) }
    }

    /// A handle is known by its chord and identifier.
    pub proof fn lemma_of(modifier: Modifier, code: Key)
        ensures
            Self::of(modifier, code).spec_modifier() == modifier,
            Self::of(modifier, code).spec_code() == code,
            Self::of(modifier, code).spec_id() == chord_id(modifier, code),
    {
    }

    /// Makes the handle of a chord.
    pub fn new(modifier: Modifier, code: Key) -> (res: Self)
        ensures
            res == Self::of(modifier, code),
    {
        let letter = code.letter();
        let id = match new_hotkey_id(
            modifier == Modifier::Shift,
            modifier == Modifier::Ctrl,
            modifier == Modifier::Alt,
            letter,
        ) {
            Some(id) => id,
            None => 0,
        };
        RegisteredHotkey { modifier, code, id }
    }

    /// The modifier of the chord.
    #[verifier::when_used_as_spec(spec_modifier)]
    pub fn modifier(&self) -> (m: Modifier)
        ensures
            m == self.spec_modifier(),
    {
        self.modifier
    }

    /// The key of the chord.
    #[verifier::when_used_as_spec(spec_code)]
    pub fn code(&self) -> (k: Key)
        ensures
            k == self.spec_code(),
    {
        self.code
    }

    /// The identifier that events fired for this hotkey carry.
    #[verifier::when_used_as_spec(spec_id)]
    pub fn id(&self) -> (id: u32)
        ensures
            id == self.spec_id(),
            id == chord_id(self.spec_modifier(), self.spec_code()),
    {
        proof {
            use_type_invariant(self);
        }
        self.id
    }
}

/// One binding: the action it triggers, its active chord, the chord staged
/// for the next commit, and the handle of the chord last registered.
#[derive(Clone, Copy, Debug)]
pub struct Hotkey {
    pub label: Action,
    pub modifier: Modifier,
    pub tmp_modifier: Modifier,
    pub code: Key,
    pub tmp_code: Key,
    pub registered_hotkey: RegisteredHotkey,
}

impl Hotkey {
    /// The binding as it is once its staged chord has become the active and
    /// registered one.
    pub open spec fn applied(self) -> Hotkey {
        Hotkey {
            label: self.label,
            modifier: self.tmp_modifier,
            tmp_modifier: self.tmp_modifier,
            code: self.tmp_code,
            tmp_code: self.tmp_code,
            registered_hotkey: RegisteredHotkey::of(self.tmp_modifier, self.tmp_code),
        }
    }

    /// The binding with the active chord staged again.
    pub open spec fn restaged(self) -> Hotkey {
        Hotkey {
            label: self.label,
            modifier: self.modifier,
            tmp_modifier: self.modifier,
            code: self.code,
            tmp_code: self.code,
            registered_hotkey: self.registered_hotkey,
        }
    }

    /// The binding with its handle made anew from the active chord.
    pub open spec fn reregistered(self) -> Hotkey {
        Hotkey {
            label: self.label,
            modifier: self.modifier,
            tmp_modifier: self.tmp_modifier,
            code: self.code,
            tmp_code: self.tmp_code,
            registered_hotkey: RegisteredHotkey::of(self.modifier, self.code),
        }
    }

    /// A binding of `label` to the chord of `modifier` and `code`, active and
    /// staged alike.
    pub fn new(label: Action, modifier: Modifier, code: Key) -> (res: Self)
        ensures
            res == (Hotkey {
                label,
                modifier,
                tmp_modifier: modifier,
                code,
                tmp_code: code,
                registered_hotkey: RegisteredHotkey::of(modifier, code),
            }),
    {
        let registered_hotkey = RegisteredHotkey::new(modifier, code);
        Hotkey {
            label,
            modifier,
            tmp_modifier: modifier,
            code,
            tmp_code: code,
            registered_hotkey,
        }
    }

    /// Makes the handle anew from the active chord and returns it, for the
    /// caller to register with the system.
    pub fn register(&mut self) -> (handle: RegisteredHotkey)
        ensures
            *final(self) == old(self).reregistered(),
            handle == final(self).registered_hotkey,
    {
        let handle = RegisteredHotkey::new(self.modifier, self.code);
        self.registered_hotkey = handle;
        handle
    }

    /// The handle last registered, for the caller to release.
    pub fn unregister(&mut self) -> (handle: RegisteredHotkey)
        ensures
            *final(self) == *old(self),
            handle == old(self).registered_hotkey,
    {
        self.registered_hotkey
    }
}

/// Why a staged configuration was not committed.
#[derive(Clone, Copy, PartialEq, Eq, Structural, Debug)]
pub enum HotkeyError {
    /// Two bindings are staged on the same chord.
    AlreadyInUse,
}

/// What the caller owes the system after a commit: release the first list of
/// handles, then register the second, each in order.
pub struct Rebinding {
    pub unregister: Vec<RegisteredHotkey>,
    pub register: Vec<RegisteredHotkey>,
}

/// Two bindings of the draft are staged on the same chord.
pub open spec fn draft_conflict(bindings: Seq<Hotkey>) -> bool {
    exists|i: int, j: int|
        0 <= i < j < bindings.len() && #[trigger] bindings[i].tmp_modifier
            == #[trigger] bindings[j].tmp_modifier && bindings[i].tmp_code == bindings[j].tmp_code
}

/// No two bindings are active on the same chord.
pub open spec fn chords_unique(bindings: Seq<Hotkey>) -> bool {
    forall|i: int, j: int|
        0 <= i < j < bindings.len() ==> !(#[trigger] bindings[i].modifier
            == #[trigger] bindings[j].modifier && bindings[i].code == bindings[j].code)
}

/// Every binding is registered under the handle of its active chord.
pub open spec fn handles_current(bindings: Seq<Hotkey>) -> bool {
    forall|i: int|
        0 <= i < bindings.len() ==> (#[trigger] bindings[i]).registered_hotkey
            == RegisteredHotkey::of(bindings[i].modifier, bindings[i].code)
}

/// The invariants of a set of active bindings: no two are on the same chord,
/// and each is registered under the handle of its own chord.
pub open spec fn bindings_wf(bindings: Seq<Hotkey>) -> bool {
    chords_unique(bindings) && handles_current(bindings)
}

/// A draft without a conflict commits to bindings that are active on
/// distinct chords, each registered under its own chord.
pub proof fn lemma_commit_keeps_chords_unique(bindings: Seq<Hotkey>)
    requires
        !draft_conflict(bindings),
    ensures
        bindings_wf(bindings.map_values(|h: Hotkey| h.applied())),
        !draft_conflict(bindings.map_values(|h: Hotkey| h.applied())),
{
    let after = bindings.map_values(|h: Hotkey| h.applied());
    assert forall|i: int, j: int| 0 <= i < j < after.len() implies !(#[trigger] after[i].modifier
        == #[trigger] after[j].modifier && after[i].code == after[j].code) by {
        if after[i].modifier == after[j].modifier && after[i].code == after[j].code {
            assert(bindings[i].tmp_modifier == bindings[j].tmp_modifier);
        }
    }
    if draft_conflict(after) {
        let (i, j) = choose|i: int, j: int|
            0 <= i < j < after.len() && #[trigger] after[i].tmp_modifier
                == #[trigger] after[j].tmp_modifier && after[i].tmp_code == after[j].tmp_code;
        assert(bindings[i].tmp_modifier == bindings[j].tmp_modifier);
    }
}

/// The default bindings are active on distinct chords, each registered under
/// its own, and their draft has no conflict.
pub proof fn lemma_defaults_are_unique()
    ensures
        bindings_wf(default_bindings()),
        !draft_conflict(default_bindings()),
{
}

/// Editing the draft, or leaving a binding as it is, does not touch the
/// invariants of the active bindings.
pub proof fn lemma_draft_edits_keep_invariants(before: Seq<Hotkey>, after: Seq<Hotkey>)
    requires
        bindings_wf(before),
        after.len() == before.len(),
        forall|i: int|
            0 <= i < before.len() ==> (#[trigger] after[i]).modifier == before[i].modifier
                && after[i].code == before[i].code && after[i].registered_hotkey
                == before[i].registered_hotkey,
    ensures
        bindings_wf(after),
{
    assert forall|i: int, j: int| 0 <= i < j < after.len() implies !(#[trigger] after[i].modifier
        == #[trigger] after[j].modifier && after[i].code == after[j].code) by {
        assert(after[i].modifier == before[i].modifier && after[j].modifier == before[j].modifier);
    }
    assert forall|i: int| 0 <= i < after.len() implies (#[trigger] after[i]).registered_hotkey
        == RegisteredHotkey::of(after[i].modifier, after[i].code) by {
        assert(before[i].registered_hotkey == RegisteredHotkey::of(
            before[i].modifier,
            before[i].code,
        ));
    }
}

/// The handle of every binding dispatches to an action: to the binding's
/// own, unless a later binding is registered under the same identifier.
pub proof fn lemma_own_handle_dispatches(bindings: Seq<Hotkey>, i: int)
    requires
        0 <= i < bindings.len(),
    ensures
        dispatched(bindings, bindings[i].registered_hotkey.spec_id()) is Some,
        (forall|j: int|
            i < j < bindings.len() ==> (#[trigger] bindings[j]).registered_hotkey.spec_id()
                != bindings[i].registered_hotkey.spec_id()) ==> dispatched(
            bindings,
            bindings[i].registered_hotkey.spec_id(),
        ) == Some(bindings[i].label),
    decreases bindings.len(),
{
    if i < bindings.len() - 1 {
        let rest = bindings.drop_last();
        assert(rest[i] == bindings[i]);
        lemma_own_handle_dispatches(rest, i);
        if forall|j: int|
            i < j < bindings.len() ==> (#[trigger] bindings[j]).registered_hotkey.spec_id()
                != bindings[i].registered_hotkey.spec_id() {
            assert(bindings[bindings.len() - 1].registered_hotkey.spec_id()
                != bindings[i].registered_hotkey.spec_id());
            assert forall|j: int| i < j < rest.len() implies (#[trigger] rest[j]).registered_hotkey.spec_id()
                != rest[i].registered_hotkey.spec_id() by {
                assert(rest[j] == bindings[j]);
            }
        }
    }
}

/// An identifier under which no binding is registered dispatches to nothing.
pub proof fn lemma_unknown_handle_dispatches_nothing(bindings: Seq<Hotkey>, id: u32)
    requires
        forall|j: int|
            0 <= j < bindings.len() ==> (#[trigger] bindings[j]).registered_hotkey.spec_id() != id,
    ensures
        dispatched(bindings, id) is None,
    decreases bindings.len(),
{
    if bindings.len() > 0 {
        let rest = bindings.drop_last();
        assert(bindings[bindings.len() - 1].registered_hotkey.spec_id() != id);
        assert forall|j: int| 0 <= j < rest.len() implies (#[trigger] rest[j]).registered_hotkey.spec_id()
            != id by {
            assert(rest[j] == bindings[j]);
        }
        lemma_unknown_handle_dispatches_nothing(rest, id);
    }
}

/// The handles that the bindings were last registered under, in order.
pub open spec fn registered_handles(bindings: Seq<Hotkey>) -> Seq<RegisteredHotkey> {
    bindings.map_values(|h: Hotkey| h.registered_hotkey)
}

/// The action of the last binding registered under `id`, if there is one.
pub open spec fn dispatched(bindings: Seq<Hotkey>, id: u32) -> Option<Action>
    decreases bindings.len(),
{
    if bindings.len() == 0 {
        None
    } else if bindings.last().registered_hotkey.spec_id() == id {
        Some(bindings.last().label)
    } else {
        dispatched(bindings.drop_last(), id)
    }
}

/// The bindings that a new dispatcher starts with.
pub open spec fn default_bindings() -> Seq<Hotkey> {
    seq![
        default_binding(Action::CopyImage, Key::KeyC),
        default_binding(Action::SaveImage, Key::KeyS),
        default_binding(Action::TakeSnapshot, Key::KeyT),
        default_binding(Action::SelectNoTool, Key::KeyN),
        default_binding(Action::SelectPen, Key::KeyP),
        default_binding(Action::SelectCrop, Key::KeyX),
        default_binding(Action::Undo, Key::KeyZ),
        default_binding(Action::Redo, Key::KeyY),
    ]
}

/// A default binding: the action on `CTRL` and the key.
pub open spec fn default_binding(label: Action, code: Key) -> Hotkey {
    Hotkey {
        label,
        modifier: Modifier::Ctrl,
        tmp_modifier: Modifier::Ctrl,
        code,
        tmp_code: code,
        registered_hotkey: RegisteredHotkey::of(Modifier::Ctrl, code),
    }
}

/// The bindings after `label` has been staged on a chord: every binding of
/// that label carries the chord in its draft, the others are untouched.
pub open spec fn staged(bindings: Seq<Hotkey>, label: Action, modifier: Modifier, key: Key) -> Seq<
    Hotkey,
> {
    bindings.map_values(
        |h: Hotkey|
            if h.label == label {
                Hotkey { tmp_modifier: modifier, tmp_code: key, ..h }
            } else {
                h
            },
    )
}

/// The committed bindings beside the draft that is being edited, and whether
/// the last commit was refused.
pub struct HotkeyDispatcher {
    hotkeys: Vec<Hotkey>,
    valid_hotkeys: bool,
}

impl HotkeyDispatcher {
    /// The bindings, in order.
    pub closed spec fn bindings(&self) -> Seq<Hotkey> {
        self.hotkeys@
    }

    /// The active bindings of every dispatcher keep their invariants at all
    /// times.
    #[verifier::type_invariant]
    pub open spec fn wf(&self) -> bool {
        bindings_wf(self.bindings())
    }

    /// Whether the last commit went through (or none was refused since the
    /// last cancel).
    pub closed spec fn valid(&self) -> bool {
        self.valid_hotkeys
    }

    /// A dispatcher with the default bindings, nothing refused.
    pub fn new() -> (res: Self)
        ensures
            res.bindings() == default_bindings(),
            res.valid(),
            res.wf(),
    {
        let mut hotkeys: Vec<Hotkey> = Vec::new();
        hotkeys.push(Hotkey::new(Action::CopyImage, Modifier::Ctrl, Key::KeyC));
        hotkeys.push(Hotkey::new(Action::SaveImage, Modifier::Ctrl, Key::KeyS));
        hotkeys.push(Hotkey::new(Action::TakeSnapshot, Modifier::Ctrl, Key::KeyT));
        hotkeys.push(Hotkey::new(Action::SelectNoTool, Modifier::Ctrl, Key::KeyN));
        hotkeys.push(Hotkey::new(Action::SelectPen, Modifier::Ctrl, Key::KeyP));
        hotkeys.push(Hotkey::new(Action::SelectCrop, Modifier::Ctrl, Key::KeyX));
        hotkeys.push(Hotkey::new(Action::Undo, Modifier::Ctrl, Key::KeyZ));
        hotkeys.push(Hotkey::new(Action::Redo, Modifier::Ctrl, Key::KeyY));
        proof {
            assert(hotkeys@ =~= default_bindings());
            lemma_defaults_are_unique();
        }
        HotkeyDispatcher { hotkeys, valid_hotkeys: true }
    }

    /// The bindings, in order.
    pub fn hotkeys(&self) -> (res: &Vec<Hotkey>)
        ensures
            res@ == self.bindings(),
            self.wf(),
    {
        proof {
            use_type_invariant(self);
        }
        &self.hotkeys
    }

    /// Whether no conflict is pending: `false` from a refused commit until
    /// the next commit or cancel.
    pub fn is_valid(&self) -> (res: bool)
        ensures
            res == self.valid(),
    {
        self.valid_hotkeys
    }

    /// Opens an edit: every binding's draft is reset to its active chord.
    pub fn begin_edit(&mut self)
        ensures
            final(self).bindings() == old(self).bindings().map_values(|h: Hotkey| h.restaged()),
            final(self).valid() == old(self).valid(),
            final(self).wf(),
    {
        proof {
            use_type_invariant(&*self);
        }
        let mut hotkeys: Vec<Hotkey> = Vec::new();
        let n = self.hotkeys.len();
        let mut i: usize = 0;
        while i < n
            invariant
                n == self.hotkeys@.len(),
                i <= n,
                hotkeys@.len() == i,
                forall|j: int| 0 <= j < i ==> hotkeys@[j] == self.hotkeys@[j].restaged(),
            decreases n - i,
        {
            let h = self.hotkeys[i];
            hotkeys.push(
                Hotkey {
                    label: h.label,
                    modifier: h.modifier,
                    tmp_modifier: h.modifier,
                    code: h.code,
                    tmp_code: h.code,
                    registered_hotkey: h.registered_hotkey,
                },
            );
            i = i + 1;
        }
        proof {
            assert(hotkeys@ =~= self.hotkeys@.map_values(|h: Hotkey| h.restaged()));
            lemma_draft_edits_keep_invariants(self.hotkeys@, hotkeys@);
        }
        self.hotkeys = hotkeys;
    }

    /// Stages a chord for the bindings of `label`. Only the draft changes.
    pub fn stage_edit(&mut self, label: Action, modifier: Modifier, key: Key)
        ensures
            final(self).bindings() == staged(old(self).bindings(), label, modifier, key),
            final(self).valid() == old(self).valid(),
            final(self).wf(),
    {
        proof {
            use_type_invariant(&*self);
        }
        let mut hotkeys: Vec<Hotkey> = Vec::new();
        let n = self.hotkeys.len();
        let mut i: usize = 0;
        while i < n
            invariant
                n == self.hotkeys@.len(),
                i <= n,
                hotkeys@.len() == i,
                forall|j: int|
                    0 <= j < i ==> hotkeys@[j] == staged(self.hotkeys@, label, modifier, key)[j],
            decreases n - i,
        {
            let h = self.hotkeys[i];
            if h.label == label {
                hotkeys.push(
                    Hotkey {
                        label: h.label,
                        modifier: h.modifier,
                        tmp_modifier: modifier,
                        code: h.code,
                        tmp_code: key,
                        registered_hotkey: h.registered_hotkey,
                    },
                );
            } else {
                hotkeys.push(h);
            }
            i = i + 1;
        }
        proof {
            assert(hotkeys@ =~= staged(self.hotkeys@, label, modifier, key));
            lemma_draft_edits_keep_invariants(self.hotkeys@, hotkeys@);
        }
        self.hotkeys = hotkeys;
    }

    /// Whether two bindings of the draft are staged on the same chord.
    pub fn has_conflict(&self) -> (res: bool)
        ensures
            res == draft_conflict(self.bindings()),
    {
        let mut encountered: HashSet<u32> = HashSet::new();
        let n = self.hotkeys.len();
        let mut i: usize = 0;
        while i < n
            invariant
                n == self.hotkeys@.len(),
                i <= n,
                forall|j: int|
                    0 <= j < i ==> encountered@.contains(
                        #[trigger] chord_index(
                            self.hotkeys@[j].tmp_modifier,
                            self.hotkeys@[j].tmp_code,
                        ) as u32,
                    ),
                forall|v: u32|
                    encountered@.contains(v) ==> exists|j: int|
                        0 <= j < i && v == #[trigger] chord_index(
                            self.hotkeys@[j].tmp_modifier,
                            self.hotkeys@[j].tmp_code,
                        ),
                !draft_conflict(self.hotkeys@.take(i as int)),
            decreases n - i,
        {
            let h = self.hotkeys[i];
            let index: u32 = h.tmp_modifier.index() * 26 + h.tmp_code.index();
            let ghost seen = encountered@;
            let fresh = encountered.insert(index);
            if !fresh {
                proof {
                    let j = choose|j: int|
                        0 <= j < i && index == #[trigger] chord_index(
                            self.hotkeys@[j].tmp_modifier,
                            self.hotkeys@[j].tmp_code,
                        );
                    lemma_chord_index_injective(
                        self.hotkeys@[j].tmp_modifier,
                        self.hotkeys@[j].tmp_code,
                        h.tmp_modifier,
                        h.tmp_code,
                    );
                    assert(self.hotkeys@[j].tmp_modifier == self.hotkeys@[i as int].tmp_modifier);
                }
                return true;
            }
            proof {
                let next = self.hotkeys@.take(i as int + 1);
                let prev = self.hotkeys@.take(i as int);
                if draft_conflict(next) {
                    let (a, b) = choose|a: int, b: int|
                        0 <= a < b < next.len() && #[trigger] next[a].tmp_modifier
                            == #[trigger] next[b].tmp_modifier && next[a].tmp_code
                            == next[b].tmp_code;
                    if b < i {
                        assert(prev[a].tmp_modifier == prev[b].tmp_modifier);
                        assert(false);
                    } else {
                        assert(seen.contains(
                            chord_index(self.hotkeys@[a].tmp_modifier, self.hotkeys@[a].tmp_code) as u32,
                        ));
                        assert(false);
                    }
                }
                assert forall|v: u32| encountered@.contains(v) implies exists|j: int|
                    0 <= j < i + 1 && v == #[trigger] chord_index(
                        self.hotkeys@[j].tmp_modifier,
                        self.hotkeys@[j].tmp_code,
                    ) by {
                    if v == index {
                        assert(index == chord_index(
                            self.hotkeys@[i as int].tmp_modifier,
                            self.hotkeys@[i as int].tmp_code,
                        ));
                    } else {
                        assert(seen.contains(v));
                    }
                }
            }
            i = i + 1;
        }
        assert(self.hotkeys@.take(n as int) =~= self.hotkeys@);
        false
    }

    /// Commits the draft.
    ///
    /// When two bindings are staged on one chord the commit is refused:
    /// nothing changes but the conflict being recorded. Otherwise every
    /// binding's draft becomes its active chord with a handle of its own, and
    /// the result lists the handles to release (those registered before) and
    /// the handles to register (the new ones).
    pub fn commit(&mut self) -> (res: Result<Rebinding, HotkeyError>)
        ensures
            final(self).wf(),
            final(self).valid() == !draft_conflict(old(self).bindings()),
            draft_conflict(old(self).bindings()) ==> res == Err::<Rebinding, HotkeyError>(
                HotkeyError::AlreadyInUse,
            ) && final(self).bindings() == old(self).bindings(),
            !draft_conflict(old(self).bindings()) ==> final(self).bindings() == old(
                self,
            ).bindings().map_values(|h: Hotkey| h.applied()) && (res matches Ok(plan)
                && plan.unregister@ == registered_handles(old(self).bindings()) && plan.register@
                == registered_handles(final(self).bindings())),
    {
        proof {
            use_type_invariant(&*self);
        }
        if self.has_conflict() {
            self.valid_hotkeys = false;
            return Err(HotkeyError::AlreadyInUse);
        }
        let unregister = self.unregister_hotkeys();
        let mut hotkeys: Vec<Hotkey> = Vec::new();
        let mut register: Vec<RegisteredHotkey> = Vec::new();
        let n = self.hotkeys.len();
        let mut i: usize = 0;
        while i < n
            invariant
                n == self.hotkeys@.len(),
                i <= n,
                hotkeys@.len() == i,
                register@.len() == i,
                forall|j: int| 0 <= j < i ==> hotkeys@[j] == self.hotkeys@[j].applied(),
                forall|j: int| 0 <= j < i ==> register@[j] == hotkeys@[j].registered_hotkey,
            decreases n - i,
        {
            let h = self.hotkeys[i];
            let applied = Hotkey::new(h.label, h.tmp_modifier, h.tmp_code);
            register.push(applied.registered_hotkey);
            hotkeys.push(applied);
            i = i + 1;
        }
        proof {
            assert(hotkeys@ =~= self.hotkeys@.map_values(|h: Hotkey| h.applied()));
            assert(register@ =~= registered_handles(hotkeys@));
            lemma_commit_keeps_chords_unique(self.hotkeys@);
        }
        *self = HotkeyDispatcher { hotkeys, valid_hotkeys: true };
        Ok(Rebinding { unregister, register })
    }

    /// Drops a pending conflict. The draft stays as it is until the next edit
    /// is opened.
    pub fn cancel_edit(&mut self)
        ensures
            final(self).bindings() == old(self).bindings(),
            final(self).valid(),
            final(self).wf(),
    {
        proof {
            use_type_invariant(&*self);
        }
        self.valid_hotkeys = true;
    }

    /// Lists the handle of every binding's active chord, for the caller to
    /// register with the system. The bindings stay as they are: each is
    /// already registered under the handle of its own chord.
    pub fn register_hotkeys(&mut self) -> (handles: Vec<RegisteredHotkey>)
        ensures
            final(self).bindings() == old(self).bindings(),
            final(self).bindings() == old(self).bindings().map_values(
                |h: Hotkey| h.reregistered(),
            ),
            final(self).valid() == old(self).valid(),
            final(self).wf(),
            handles@ == registered_handles(final(self).bindings()),
    {
        proof {
            use_type_invariant(&*self);
        }
        let mut handles: Vec<RegisteredHotkey> = Vec::new();
        let n = self.hotkeys.len();
        let mut i: usize = 0;
        while i < n
            invariant
                n == self.hotkeys@.len(),
                i <= n,
                handles@.len() == i,
                handles_current(self.hotkeys@),
                forall|j: int| 0 <= j < i ==> handles@[j] == self.hotkeys@[j].registered_hotkey,
            decreases n - i,
        {
            let mut h = self.hotkeys[i];
            let handle = h.register();
            handles.push(handle);
            i = i + 1;
        }
        proof {
            assert(handles@ =~= registered_handles(self.hotkeys@));
            assert(self.hotkeys@ =~= self.hotkeys@.map_values(|h: Hotkey| h.reregistered()));
        }
        handles
    }

    /// Lists the handles that the bindings were last registered under, for
    /// the caller to release.
    pub fn unregister_hotkeys(&self) -> (handles: Vec<RegisteredHotkey>)
        ensures
            handles@ == registered_handles(self.bindings()),
    {
        let mut handles: Vec<RegisteredHotkey> = Vec::new();
        let n = self.hotkeys.len();
        let mut i: usize = 0;
        while i < n
            invariant
                n == self.hotkeys@.len(),
                i <= n,
                handles@.len() == i,
                forall|j: int| 0 <= j < i ==> handles@[j] == self.hotkeys@[j].registered_hotkey,
            decreases n - i,
        {
            let mut h = self.hotkeys[i];
            handles.push(h.unregister());
            i = i + 1;
        }
        assert(handles@ =~= registered_handles(self.hotkeys@));
        handles
    }

    /// Finds the action for a fired handle: that of the last binding
    /// registered under the identifier, or none when no binding is.
    pub fn dispatch(&self, event_id: u32) -> (res: Option<Action>)
        ensures
            res == dispatched(self.bindings(), event_id),
    {
        let mut action: Option<Action> = None;
        let n = self.hotkeys.len();
        let mut i: usize = 0;
        while i < n
            invariant
                n == self.hotkeys@.len(),
                i <= n,
                action == dispatched(self.hotkeys@.take(i as int), event_id),
            decreases n - i,
        {
            let h = self.hotkeys[i];
            proof {
                assert(self.hotkeys@.take(i as int + 1).drop_last() =~= self.hotkeys@.take(
                    i as int,
                ));
            }
            if event_id == h.registered_hotkey.id() {
                action = Some(h.label);
            }
            i = i + 1;
        }
        assert(self.hotkeys@.take(n as int) =~= self.hotkeys@);
        action
    }
}

} // verus!
