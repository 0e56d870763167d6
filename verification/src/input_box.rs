use vstd::prelude::*;
use crate::text::{chars_of, string_from_chars};
use crate::types::{InputState, InputView};

verus! {

// The cursor of an input box counts characters from the start of its text; the display column
// follows it, one column per character. A cursor beyond the end of the text counts as the end.

/// Where the cursor stands, kept within the text.
pub open spec fn cursor(i: InputView) -> int {
    if i.cursor_pos <= i.content.len() {
        i.cursor_pos as int
    } else {
        i.content.len() as int
    }
}

/// `i` with the cursor, and its column, at `p`.
pub open spec fn at_cursor(i: InputView, p: int) -> InputView {
    InputView { cursor_pos: p as usize, cursor_col: p as usize, ..i }
}

/// Typing `c`: it goes in at the cursor, and the cursor moves past it.
pub open spec fn inserted(i: InputView, c: char) -> InputView {
    let p = cursor(i);
    InputView {
        content: i.content.take(p).push(c) + i.content.skip(p),
        ..at_cursor(i, p + 1)
    }
}

/// Backspace: the character before the cursor goes, and the cursor moves back over it;
/// at the start of the text nothing changes.
pub open spec fn deleted_before(i: InputView) -> InputView {
    let p = cursor(i);
    if p == 0 {
        i
    } else {
        InputView { content: i.content.take(p - 1) + i.content.skip(p), ..at_cursor(i, p - 1) }
    }
}

/// The cursor one character to the left, if it is not at the start.
pub open spec fn moved_left(i: InputView) -> InputView {
    let p = cursor(i);
    if p == 0 {
        i
    } else {
        at_cursor(i, p - 1)
    }
}

/// The cursor one character to the right, if it is not at the end.
pub open spec fn moved_right(i: InputView) -> InputView {
    let p = cursor(i);
    if p >= i.content.len() {
        i
    } else {
        at_cursor(i, p + 1)
    }
}

fn cursor_in(chars: &Vec<char>, input: &InputState) -> (p: usize)
    requires
        chars@ == input.content@,
    ensures
        p == cursor(input@),
{
    if input.cursor_pos <= chars.len() {
        input.cursor_pos
    } else {
        chars.len()
    }
}

/// Inserts a character at the cursor and moves the cursor past it.
pub fn insert_char(input: &mut InputState, c: char)
    ensures
        final(input)@ == inserted(old(input)@, c),
{
    let chars = chars_of(input.content.as_str());
    let p = cursor_in(&chars, input);
    let mut out: Vec<char> = Vec::new();
    let mut i: usize = 0;
    while i < p
        invariant
            p <= chars@.len(),
            i <= p,
            out@ == chars@.take(i as int),
        decreases p - i,
    {
        out.push(chars[i]);
        i = i + 1;
        assert(out@ =~= chars@.take(i as int));
    }
    out.push(c);
    let mut j: usize = p;
    while j < chars.len()
        invariant
            p <= j <= chars@.len(),
            out@ == chars@.take(p as int).push(c) + chars@.subrange(p as int, j as int),
        decreases chars@.len() - j,
    {
        out.push(chars[j]);
        j = j + 1;
        assert(out@ =~= chars@.take(p as int).push(c) + chars@.subrange(p as int, j as int));
    }
    assert(chars@.subrange(p as int, chars@.len() as int) =~= chars@.skip(p as int));
    assert(p < out.len());
    input.content = string_from_chars(out.as_slice());
    input.cursor_pos = p + 1;
    input.cursor_col = p + 1;
}

/// Deletes the character before the cursor and moves the cursor back over it.
pub fn delete_char_before_cursor(input: &mut InputState)
    ensures
        final(input)@ == deleted_before(old(input)@),
{
    let chars = chars_of(input.content.as_str());
    let p = cursor_in(&chars, input);
    if p == 0 {
        return;
    }
    let mut out: Vec<char> = Vec::new();
    let mut i: usize = 0;
    while i < p - 1
        invariant
            0 < p <= chars@.len(),
            i <= p - 1,
            out@ == chars@.take(i as int),
        decreases p - 1 - i,
    {
        out.push(chars[i]);
        i = i + 1;
        assert(out@ =~= chars@.take(i as int));
    }
    let mut j: usize = p;
    while j < chars.len()
        invariant
            0 < p <= j <= chars@.len(),
            out@ == chars@.take(p - 1) + chars@.subrange(p as int, j as int),
        decreases chars@.len() - j,
    {
        out.push(chars[j]);
        j = j + 1;
        assert(out@ =~= chars@.take(p - 1) + chars@.subrange(p as int, j as int));
    }
    assert(chars@.subrange(p as int, chars@.len() as int) =~= chars@.skip(p as int));
    input.content = string_from_chars(out.as_slice());
    input.cursor_pos = p - 1;
    input.cursor_col = p - 1;
}

/// Moves the cursor one character to the left, unless it is at the start.
pub fn move_cursor_left(input: &mut InputState)
    ensures
        final(input)@ == moved_left(old(input)@),
{
    let chars = chars_of(input.content.as_str());
    let p = cursor_in(&chars, input);
    if p > 0 {
        input.cursor_pos = p - 1;
        input.cursor_col = p - 1;
    }
}

/// Moves the cursor one character to the right, unless it is at the end.
pub fn move_cursor_right(input: &mut InputState)
    ensures
        final(input)@ == moved_right(old(input)@),
{
    let chars = chars_of(input.content.as_str());
    let p = cursor_in(&chars, input);
    if p < chars.len() {
        input.cursor_pos = p + 1;
        input.cursor_col = p + 1;
    }
}

/// Moves the cursor to the start of the text.
pub fn move_cursor_home(input: &mut InputState)
    ensures
        final(input)@ == at_cursor(old(input)@, 0),
{
    input.cursor_pos = 0;
    input.cursor_col = 0;
}

/// Moves the cursor to the end of the text.
pub fn move_cursor_end(input: &mut InputState)
    ensures
        final(input)@ == at_cursor(old(input)@, old(input)@.content.len() as int),
{
    let chars = chars_of(input.content.as_str());
    input.cursor_pos = chars.len();
    input.cursor_col = chars.len();
}

/// An input box whose cursor stands within its text, on the column of its position.
pub open spec fn cursor_placed(i: InputView) -> bool {
    i.cursor_pos <= i.content.len() && i.cursor_col == i.cursor_pos
}

/// Backspace right after typing a character gives the input box back as it was.
pub proof fn law_backspace_undoes_typing(i: InputView, c: char)
    requires
        cursor_placed(i),
        i.content.len() < usize::MAX,
    ensures
        deleted_before(inserted(i, c)) == i,
{
    let p = cursor(i);
    let t = inserted(i, c);
    assert(cursor(t) == p + 1);
    assert(t.content.take(p) =~= i.content.take(p));
    assert(t.content.skip(p + 1) =~= i.content.skip(p));
    assert(t.content.take(p) + t.content.skip(p + 1) =~= i.content);
}

/// Moving the cursor right and then left puts it back, when it was not at the end.
pub proof fn law_left_undoes_right(i: InputView)
    requires
        cursor_placed(i),
        i.cursor_pos < i.content.len(),
        i.content.len() <= usize::MAX,
    ensures
        moved_left(moved_right(i)) == i,
{
}

} // verus!
