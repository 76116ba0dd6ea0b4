use vstd::prelude::*;
use vstd::std_specs::convert::FromSpecImpl;
use vstd::std_specs::convert::TryFromSpecImpl;
use vstd::utf8::decode_utf8;
use vstd::utf8::encode_utf8;
use vstd::utf8::valid_utf8;

use std::num::ParseIntError;

use crate::types::{lossy_text, path_to_string_lossy, WatchedFolder};

verus! {

// ---------------------------------------------------------------------------
// Outside items
// ---------------------------------------------------------------------------

#[verifier::external_type_specification]
#[verifier::external_body]
pub struct ExParseIntError(ParseIntError);

/// `String::push` appends one character.
pub assume_specification[ String::push ](s: &mut String, ch: char)
    ensures
        final(s)@ == old(s)@.push(ch),
;

/// The value of `c` as a digit in base `radix`: `0`-`9`, then `a`-`z` or
/// `A`-`Z` for 10 to 35.
pub open spec fn digit_value(c: char, radix: u32) -> Option<nat> {
    let d: int = if '0' <= c && c <= '9' {
        c as int - '0' as int
    } else if 'a' <= c && c <= 'z' {
        c as int - 'a' as int + 10
    } else if 'A' <= c && c <= 'Z' {
        c as int - 'A' as int + 10
    } else {
        36
    };
    if d < radix {
        Some(d as nat)
    } else {
        None
    }
}

/// The number that the digits `s` denote in base `radix`, or `None` when
/// one of them is no digit.
pub open spec fn digits_value(s: Seq<char>, radix: u32) -> Option<nat>
    decreases s.len(),
{
    if s.len() == 0 {
        Some(0)
    } else {
        match (digits_value(s.drop_last(), radix), digit_value(s.last(), radix)) {
            (Some(v), Some(d)) => Some(v * (radix as nat) + d),
            _ => None,
        }
    }
}

/// What `u32::from_str_radix(s, radix)` returns when it succeeds: `s` is
/// an optional `+` followed by at least one digit, and the number fits in a
/// `u32`.
pub open spec fn u32_from_digits(s: Seq<char>, radix: u32) -> Option<u32> {
    let digits = if s.len() > 1 && s[0] == '+' {
        s.drop_first()
    } else {
        s
    };
    if s.len() == 0 {
        None
    } else {
        match digits_value(digits, radix) {
            Some(v) => if v <= u32::MAX {
                Some(v as u32)
            } else {
                None
            },
            None => None,
        }
    }
}

/// `u32::from_str_radix`: succeeds exactly on an optional `+` followed by
/// digits of `radix` whose value fits, and returns that value.
#[verifier::external_body]
fn u32_from_str_radix(s: &str, radix: u32) -> (r: Result<u32, ParseIntError>)
    requires
        2 <= radix <= 36,
    ensures
        r is Ok == u32_from_digits(s@, radix) is Some,
        r matches Ok(v) ==> u32_from_digits(s@, radix) == Some(v),
{
    u32::from_str_radix(s, radix)
}

// ---------------------------------------------------------------------------
// Hexadecimal text
// ---------------------------------------------------------------------------

/// The lower-case hexadecimal digit of `d`.
pub open spec fn hex_char(d: u32) -> char {
    if d < 10 {
        (d + '0' as u32) as char
    } else {
        (d - 10 + 'a' as u32) as char
    }
}

/// The lower-case hexadecimal digits of `v`, without leading zeros.
pub open spec fn hex_digits(v: u32) -> Seq<char>
    decreases v,
{
    if v < 16 {
        seq![hex_char(v)]
    } else {
        hex_digits(v / 16).push(hex_char(v % 16))
    }
}

proof fn lemma_hex_digits_ascii(v: u32)
    ensures
        vstd::utf8::is_ascii_chars(hex_digits(v)),
        v < 0x10 ==> hex_digits(v).len() <= 1,
        v < 0x100 ==> hex_digits(v).len() <= 2,
        v < 0x1000 ==> hex_digits(v).len() <= 3,
        v < 0x1_0000 ==> hex_digits(v).len() <= 4,
        v < 0x10_0000 ==> hex_digits(v).len() <= 5,
        v < 0x100_0000 ==> hex_digits(v).len() <= 6,
        v < 0x1000_0000 ==> hex_digits(v).len() <= 7,
        hex_digits(v).len() <= 8,
    decreases v,
{
    if v >= 16 {
        lemma_hex_digits_ascii(v / 16);
    }
}

/// The alternate hexadecimal form of a `u32` has at most ten characters.
pub proof fn lemma_hex_text_len(v: u32)
    ensures
        2 <= (seq!['0', 'x'] + hex_digits(v)).len() <= 10,
{
    lemma_hex_digits_ascii(v);
    lemma_hex_digits_value(v);
}

fn exec_hex_char(d: u32) -> (c: char)
    requires
        d < 16,
    ensures
        c == hex_char(d),
{
    if d < 10 {
        (d as u8 + 48u8) as char
    } else {
        (d as u8 - 10 + 97u8) as char
    }
}

fn push_hex_digits(out: &mut String, v: u32)
    ensures
        final(out)@ == old(out)@ + hex_digits(v),
    decreases v,
{
    if v >= 16 {
        push_hex_digits(out, v / 16);
    }
    out.push(exec_hex_char(v % 16));
}

/// `v` in the alternate lower-case hexadecimal form `0x…`.
pub fn hex_text(v: u32) -> (s: String)
    ensures
        s@ == seq!['0', 'x'] + hex_digits(v),
{
    let mut s = String::new();
    s.push('0');
    s.push('x');
    push_hex_digits(&mut s, v);
    s
}

} // verus!

verus! {

// ---------------------------------------------------------------------------
// Text input
// ---------------------------------------------------------------------------

/// A line of text being edited, with the cursor as a character index.
pub struct TextBox {
    pub text: String,
    pub index: usize,
}

/// Where a character typed into `text` at cursor `index` goes: at the
/// cursor, or at the end when the cursor lies beyond it.
pub open spec fn insert_position(text: Seq<char>, index: usize) -> int {
    if index < text.len() {
        index as int
    } else {
        text.len() as int
    }
}

/// `n` clamped to `0..=len`.
pub open spec fn clamp(n: int, len: int) -> int {
    if n < len {
        n
    } else {
        len
    }
}

/// The text after typing `c` at cursor `index`.
pub open spec fn text_after_enter(text: Seq<char>, index: usize, c: char) -> Seq<char> {
    text.take(insert_position(text, index)) + seq![c] + text.skip(insert_position(text, index))
}

/// The cursor after typing a character at cursor `index`, the text being
/// `new_text` afterwards.
pub open spec fn index_after_enter(new_text: Seq<char>, index: usize) -> int {
    clamp(if index == usize::MAX { usize::MAX as int } else { index + 1 }, new_text.len() as int)
}

/// The text after deleting left of cursor `index`.
pub open spec fn text_after_delete(text: Seq<char>, index: usize) -> Seq<char> {
    if index == 0 {
        text
    } else {
        text.take(clamp(index - 1, text.len() as int)) + text.skip(
            clamp(index as int, text.len() as int),
        )
    }
}

/// The cursor after deleting left of cursor `index`, the text being
/// `new_text` afterwards.
pub open spec fn index_after_delete(new_text: Seq<char>, index: usize) -> int {
    if index == 0 {
        0
    } else {
        clamp(index - 1, new_text.len() as int)
    }
}

/// `after` is `before` with `c` typed at its cursor.
pub open spec fn entered(before: TextBox, after: TextBox, c: char) -> bool {
    &&& after.text@ =~= text_after_enter(before.text@, before.index, c)
    &&& after.index == index_after_enter(after.text@, before.index)
}

/// `after` is `before` with the character left of its cursor deleted.
pub open spec fn deleted(before: TextBox, after: TextBox) -> bool {
    &&& after.text@ =~= text_after_delete(before.text@, before.index)
    &&& after.index == index_after_delete(after.text@, before.index)
}

impl Default for TextBox {
    fn default() -> (t: TextBox)
        ensures
            t.text@ == Seq::<char>::empty(),
            t.index == 0,
    {
        TextBox { text: String::new(), index: 0 }
    }
}

impl TextBox {
    fn move_cursor_left(&mut self)
        ensures
            final(self).text == old(self).text,
            final(self).index == clamp(
                if old(self).index == 0 { 0 } else { old(self).index - 1 },
                old(self).text@.len() as int,
            ),
    {
        let cursor_moved_left = self.index.saturating_sub(1);
        self.index = self.clamp_cursor(cursor_moved_left);
    }

    fn move_cursor_right(&mut self)
        ensures
            final(self).text == old(self).text,
            final(self).index == clamp(
                if old(self).index == usize::MAX { usize::MAX as int } else { old(self).index + 1 },
                old(self).text@.len() as int,
            ),
    {
        let cursor_moved_right = self.index.saturating_add(1);
        self.index = self.clamp_cursor(cursor_moved_right);
    }

    /// Inserts `new_char` at the cursor (at the end when the cursor lies
    /// beyond the text) and moves the cursor one character right.
    pub fn enter_char(&mut self, new_char: char)
        ensures
            entered(*old(self), *final(self), new_char),
    {
        let s = self.text.as_str();
        let count = s.unicode_len();
        let at = if self.index < count { self.index } else { count };
        let mut text = String::from_str(s.substring_char(0, at));
        text.push(new_char);
        text.append(s.substring_char(at, count));
        self.text = text;
        self.move_cursor_right();
    }

    /// Removes the character left of the cursor and moves the cursor one
    /// character left; does nothing with the cursor at the start.
    pub fn delete_char(&mut self)
        ensures
            deleted(*old(self), *final(self)),
    {
        let is_not_cursor_leftmost = self.index != 0;
        if is_not_cursor_leftmost {
            let current_index = self.index;
            let from_left_to_current_index = current_index - 1;
            let s = self.text.as_str();
            let count = s.unicode_len();
            let before_end = if from_left_to_current_index < count {
                from_left_to_current_index
            } else {
                count
            };
            let after_start = if current_index < count {
                current_index
            } else {
                count
            };
            let mut text = String::from_str(s.substring_char(0, before_end));
            text.append(s.substring_char(after_start, count));
            self.text = text;
            self.move_cursor_left();
        }
    }

    fn clamp_cursor(&self, new_cursor_pos: usize) -> (r: usize)
        ensures
            r == clamp(new_cursor_pos as int, self.text@.len() as int),
    {
        let count = self.text.as_str().unicode_len();
        if new_cursor_pos < count {
            new_cursor_pos
        } else {
            count
        }
    }
}

} // verus!

verus! {

/// Deleting undoes typing: typing a character at a cursor within the text
/// and then deleting left of the new cursor gives back the text and the
/// cursor.
pub proof fn lemma_delete_undoes_enter(text: Seq<char>, index: usize, c: char)
    requires
        index <= text.len(),
        index < usize::MAX,
    ensures
        ({
            let entered = text_after_enter(text, index, c);
            let moved = index_after_enter(entered, index);
            &&& 0 <= moved <= usize::MAX
            &&& text_after_delete(entered, moved as usize) == text
            &&& index_after_delete(text_after_delete(entered, moved as usize), moved as usize)
                == index
        }),
{
    let entered = text_after_enter(text, index, c);
    assert(entered.take(index as int) == text.take(index as int));
    assert(entered.skip(index + 1) == text.skip(index as int));
    assert(text.take(index as int) + text.skip(index as int) == text);
}

/// The cursor stays within the text: after typing or deleting, it lies
/// at most one past the last character.
pub proof fn lemma_cursor_within_text(text: Seq<char>, index: usize, c: char)
    ensures
        index_after_enter(text_after_enter(text, index, c), index) <= text_after_enter(
            text,
            index,
            c,
        ).len(),
        index_after_delete(text_after_delete(text, index), index) <= text_after_delete(
            text,
            index,
        ).len(),
{
}

proof fn lemma_hex_digits_value(v: u32)
    ensures
        digits_value(hex_digits(v), 16) == Some(v as nat),
        hex_digits(v).len() >= 1,
        forall|i: int| 0 <= i < hex_digits(v).len() ==> #[trigger] hex_digits(v)[i] != '+',
    decreases v,
{
    let d = v % 16;
    assert(digit_value(hex_char(d), 16) == Some(d as nat));
    if v >= 16 {
        lemma_hex_digits_value(v / 16);
        let s = hex_digits(v / 16);
        assert(hex_digits(v).drop_last() == s);
        assert(hex_digits(v).last() == hex_char(d));
        assert((v / 16) as nat * 16 + d as nat == v as nat);
    } else {
        assert(hex_digits(v).drop_last() == Seq::<char>::empty());
        assert(digits_value(Seq::<char>::empty(), 16) == Some(0nat));
    }
}

/// A folder turned into a form and read back keeps its identifier; its
/// path comes back unchanged when its bytes are valid UTF-8.
pub proof fn lemma_form_keeps_folder(id: u32, path: Seq<u8>)
    ensures
        text_box_number(seq!['0', 'x'] + hex_digits(id)) == Some(id),
        valid_utf8(path) ==> encode_utf8(decode_utf8(path)) == path,
{
    lemma_hex_digits_value(id);
    let text = seq!['0', 'x'] + hex_digits(id);
    assert(text.skip(2) == hex_digits(id));
    assert(hex_digits(id)[0] != '+');
    if valid_utf8(path) {
        vstd::utf8::decode_utf8_encode_utf8(path);
    }
}

/// Why the text of a [`TextBox`] is no folder identifier.
#[derive(Debug)]
pub enum Error {
    ParseError(ParseIntError),
}

/// The number that the text of a [`TextBox`] denotes: hexadecimal after a
/// leading `0x`, decimal otherwise.
pub open spec fn text_box_number(text: Seq<char>) -> Option<u32> {
    if text.len() >= 2 && text[0] == '0' && text[1] == 'x' {
        u32_from_digits(text.skip(2), 16)
    } else {
        u32_from_digits(text, 10)
    }
}

impl<'a> TryFrom<&'a TextBox> for u32 {
    type Error = Error;

    fn try_from(text_box: &'a TextBox) -> (r: Result<u32, Error>)
        ensures
            r is Ok == text_box_number(text_box.text@) is Some,
            r matches Ok(v) ==> text_box_number(text_box.text@) == Some(v),
    {
        let s = text_box.text.as_str();
        let count = s.unicode_len();
        let res = if count >= 2 && s.get_char(0) == '0' && s.get_char(1) == 'x' {
            u32_from_str_radix(s.substring_char(2, count), 16)
        } else {
            u32_from_str_radix(s, 10)
        };
        match res {
            Ok(v) => Ok(v),
            Err(e) => Err(Error::ParseError(e)),
        }
    }
}

impl<'a> TryFromSpecImpl<&'a TextBox> for u32 {
    /// The error carries a `ParseIntError`, of which nothing is stated, so
    /// the conversion is described by the contract of `try_from` alone.
    open spec fn obeys_try_from_spec() -> bool {
        false
    }

    open spec fn try_from_spec(text_box: &'a TextBox) -> Result<u32, Error> {
        match text_box_number(text_box.text@) {
            Some(v) => Ok(v),
            None => Err(arbitrary()),
        }
    }
}

// ---------------------------------------------------------------------------
// Folder form
// ---------------------------------------------------------------------------

/// The input of a folder form that has the keyboard.
pub enum EditFolderFocus {
    Folder,
    Id,
}

/// The other input of a folder form.
pub open spec fn toggled(focus: EditFolderFocus) -> EditFolderFocus {
    match focus {
        EditFolderFocus::Folder => EditFolderFocus::Id,
        EditFolderFocus::Id => EditFolderFocus::Folder,
    }
}

impl Default for EditFolderFocus {
    fn default() -> (f: EditFolderFocus)
        ensures
            f is Folder,
    {
        EditFolderFocus::Folder
    }
}

/// A form that edits a folder's path and identifier.
pub struct EditFolderState {
    pub path_input: TextBox,
    pub id_input: TextBox,
    pub focus: EditFolderFocus,
}

impl Default for EditFolderState {
    fn default() -> (s: EditFolderState)
        ensures
            s.path_input.text@ == Seq::<char>::empty(),
            s.path_input.index == 0,
            s.id_input.text@ == Seq::<char>::empty(),
            s.id_input.index == 0,
            s.focus is Folder,
    {
        EditFolderState {
            path_input: TextBox::default(),
            id_input: TextBox::default(),
            focus: EditFolderFocus::default(),
        }
    }
}

impl EditFolderState {
    /// Hands the keyboard to the other input.
    pub fn toggle_focus(&mut self)
        ensures
            final(self).path_input == old(self).path_input,
            final(self).id_input == old(self).id_input,
            final(self).focus == toggled(old(self).focus),
    {
        match &self.focus {
            EditFolderFocus::Folder => self.focus = EditFolderFocus::Id,
            EditFolderFocus::Id => self.focus = EditFolderFocus::Folder,
        }
    }
}

/// The identifier input of a folder form holds no number.
#[derive(Debug)]
pub struct FolderError;

impl<'a> TryFrom<&'a EditFolderState> for WatchedFolder {
    type Error = FolderError;

    fn try_from(state: &'a EditFolderState) -> (r: Result<WatchedFolder, FolderError>)
        ensures
            r is Ok == text_box_number(state.id_input.text@) is Some,
            r matches Ok(f) ==> Some(f@.0) == text_box_number(state.id_input.text@) && f@.1
                == vstd::utf8::encode_utf8(state.path_input.text@),
    {
        match u32::try_from(&state.id_input) {
            Ok(id) => Ok(WatchedFolder::new_full(id, state.path_input.text.as_str())),
            Err(_) => Err(FolderError),
        }
    }
}

impl<'a> TryFromSpecImpl<&'a EditFolderState> for WatchedFolder {
    /// A folder's path is described through the bytes it holds, so the
    /// conversion is described by the contract of `try_from` alone.
    open spec fn obeys_try_from_spec() -> bool {
        false
    }

    open spec fn try_from_spec(state: &'a EditFolderState) -> Result<WatchedFolder, FolderError> {
        arbitrary()
    }
}

impl FromSpecImpl<WatchedFolder> for EditFolderState {
    /// The texts are described through their characters, so the conversion
    /// is described by the contract of `from` alone.
    open spec fn obeys_from_spec() -> bool {
        false
    }

    open spec fn from_spec(folder: WatchedFolder) -> EditFolderState {
        arbitrary()
    }
}

impl From<WatchedFolder> for EditFolderState {
    fn from(folder: WatchedFolder) -> (s: EditFolderState)
        ensures
            s.path_input.text@ == lossy_text(folder@.1),
            valid_utf8(folder@.1) ==> s.path_input.text@ == decode_utf8(folder@.1),
            s.path_input.index == vstd::utf8::encode_utf8(lossy_text(folder@.1)).len() as usize,
            s.id_input.text@ == seq!['0', 'x'] + hex_digits(folder@.0),
            s.id_input.index == s.id_input.text@.len(),
            s.focus is Folder,
    {
        let path_text = path_to_string_lossy(folder.path());
        let path_len = path_text.as_str().len();
        let id_text = hex_text(folder.id());
        proof {
            lemma_hex_digits_ascii(folder@.0);
            assert(vstd::utf8::is_ascii_chars(id_text@));
            vstd::utf8::is_ascii_chars_encode_utf8(id_text@);
        }
        let id_len = id_text.as_str().len();
        EditFolderState {
            path_input: TextBox { text: path_text, index: path_len },
            id_input: TextBox { text: id_text, index: id_len },
            focus: EditFolderFocus::Folder,
        }
    }
}

/// Modes of the terminal interface, after vim.
pub enum CurrentMode {
    Insert,
    Normal,
}

/// Which list of the terminal interface is being edited.
pub enum CurrentFocus {
    Folder,
    Peer,
}

} // verus!
