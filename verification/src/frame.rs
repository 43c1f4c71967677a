//! The shape of a level code: the tag `V3`, then three fields, each of them
//! closed by a separator. No field holds a separator, and nothing follows
//! the third.

use vstd::prelude::*;
use vstd::slice::slice_subrange;

verus! {

/// The character that closes the tag and each field.
pub const SEPARATOR: char = ';';

/// The text made of the tag and the three fields, each with its separator.
pub open spec fn frame(width: Seq<char>, height: Seq<char>, cells: Seq<char>) -> Seq<char> {
    seq!['V', '3', ';'] + width + seq![';'] + height + seq![';'] + cells + seq![';']
}

/// Whether the field holds no separator.
pub open spec fn has_no_separator(field: Seq<char>) -> bool {
    forall|i: int| 0 <= i < field.len() ==> #[trigger] field[i] != SEPARATOR
}

/// Where the first separator of `text` stands, counted from its start; the
/// length of `text` where it holds none.
pub open spec fn first_separator(text: Seq<char>) -> int
    decreases text.len(),
{
    if text.len() == 0 || text.first() == SEPARATOR {
        0
    } else {
        1 + first_separator(text.drop_first())
    }
}

/// The three fields of a level code, or `None` where the text does not have
/// the shape of one: it does not start with `V3;`, or fewer than three
/// separators follow the tag, or the third of them is not the last
/// character.
pub open spec fn fields_of(code: Seq<char>) -> Option<(Seq<char>, Seq<char>, Seq<char>)> {
    let after_tag = code.skip(3);
    let width_len = first_separator(after_tag);
    let after_width = after_tag.skip(width_len + 1);
    let height_len = first_separator(after_width);
    let after_height = after_width.skip(height_len + 1);
    let cells_len = first_separator(after_height);
    if code.len() >= 3 && code[0] == 'V' && code[1] == '3' && code[2] == SEPARATOR && width_len
        < after_tag.len() && height_len < after_width.len() && cells_len + 1
        == after_height.len() {
        Some((after_tag.take(width_len), after_width.take(height_len), after_height.take(cells_len)))
    } else {
        None
    }
}

/// `first_separator` is the place of a separator, or the end of the text, and
/// no separator stands before it.
pub proof fn lemma_first_separator_is_first(text: Seq<char>)
    ensures
        0 <= first_separator(text) <= text.len(),
        first_separator(text) < text.len() ==> text[first_separator(text)] == SEPARATOR,
        has_no_separator(text.take(first_separator(text))),
    decreases text.len(),
{
    if !(text.len() == 0 || text.first() == SEPARATOR) {
        let tail = text.drop_first();
        lemma_first_separator_is_first(tail);
        let at = first_separator(tail);
        assert forall|i: int| 0 <= i < at + 1 implies #[trigger] text.take(at + 1)[i]
            != SEPARATOR by {
            if i > 0 {
                assert(tail.take(at)[i - 1] != SEPARATOR);
            }
        }
    }
}

/// A place before which no separator stands, and which holds one or is the
/// end of the text, is `first_separator`.
pub proof fn lemma_first_separator_found(text: Seq<char>, at: int)
    requires
        0 <= at <= text.len(),
        has_no_separator(text.take(at)),
        at < text.len() ==> text[at] == SEPARATOR,
    ensures
        first_separator(text) == at,
    decreases text.len(),
{
    if at > 0 {
        let tail = text.drop_first();
        assert(text.take(at)[0] != SEPARATOR);
        assert forall|i: int| 0 <= i < at - 1 implies #[trigger] tail.take(at - 1)[i]
            != SEPARATOR by {
            assert(text.take(at)[i + 1] != SEPARATOR);
        }
        lemma_first_separator_found(tail, at - 1);
    }
}

/// The fields of a text that was made from three fields without separators
/// are those three fields.
pub proof fn lemma_fields_of_frame(width: Seq<char>, height: Seq<char>, cells: Seq<char>)
    requires
        has_no_separator(width),
        has_no_separator(height),
        has_no_separator(cells),
    ensures
        fields_of(frame(width, height, cells)) == Some((width, height, cells)),
{
    let code = frame(width, height, cells);
    let after_tag = code.skip(3);
    lemma_first_separator_found(after_tag, width.len() as int);
    let after_width = after_tag.skip(width.len() as int + 1);
    lemma_first_separator_found(after_width, height.len() as int);
    let after_height = after_width.skip(height.len() as int + 1);
    lemma_first_separator_found(after_height, cells.len() as int);
}

/// A text that has three fields is the text made from them, and none of them
/// holds a separator.
pub proof fn lemma_frame_of_fields(code: Seq<char>)
    requires
        fields_of(code) is Some,
    ensures
        ({
            let (width, height, cells) = fields_of(code)->0;
            &&& code == frame(width, height, cells)
            &&& has_no_separator(width)
            &&& has_no_separator(height)
            &&& has_no_separator(cells)
        }),
{
    let after_tag = code.skip(3);
    let after_width = after_tag.skip(first_separator(after_tag) + 1);
    let after_height = after_width.skip(first_separator(after_width) + 1);
    lemma_first_separator_is_first(after_tag);
    lemma_first_separator_is_first(after_width);
    lemma_first_separator_is_first(after_height);
}

/// The place of the first separator of `text` at or after `from`; the length
/// of `text` where none stands there.
fn find_separator(text: &[char], from: usize) -> (at: usize)
    requires
        from <= text.len(),
    ensures
        from <= at <= text.len(),
        at - from == first_separator(text@.skip(from as int)),
{
    let mut at: usize = from;
    while at < text.len() && text[at] != SEPARATOR
        invariant
            from <= at <= text.len(),
            has_no_separator(text@.skip(from as int).take(at - from)),
        decreases text.len() - at,
    {
        at += 1;
    }
    proof {
        lemma_first_separator_found(text@.skip(from as int), at - from);
    }
    at
}

/// The three fields of the level code `code`, or `None` where it does not
/// have the shape of one.
pub fn split_fields(code: &[char]) -> (r: Option<(&[char], &[char], &[char])>)
    ensures
        match r {
            Some((width, height, cells)) => fields_of(code@) == Some((width@, height@, cells@)),
            None => fields_of(code@) is None,
        },
{
    let len: usize = code.len();
    if len < 3 || code[0] != 'V' || code[1] != '3' || code[2] != SEPARATOR {
        return None;
    }
    let width_end: usize = find_separator(code, 3);
    if width_end >= len {
        return None;
    }
    let height_end: usize = find_separator(code, width_end + 1);
    proof {
        assert(code@.skip(3).skip(width_end - 3 + 1) =~= code@.skip(width_end + 1));
    }
    if height_end >= len {
        return None;
    }
    let cells_end: usize = find_separator(code, height_end + 1);
    proof {
        assert(code@.skip(width_end + 1).skip(height_end - (width_end + 1) + 1) =~= code@.skip(
            height_end + 1,
        ));
    }
    if cells_end >= len || cells_end != len - 1 {
        return None;
    }
    let width = slice_subrange(code, 3, width_end);
    let height = slice_subrange(code, width_end + 1, height_end);
    let cells = slice_subrange(code, height_end + 1, cells_end);
    Some((width, height, cells))
}

} // verus!
