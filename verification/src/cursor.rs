use vstd::prelude::*;

use crate::error::ThreadStoreError;
use crate::text::decimal;
use crate::text::push_char;
use crate::text::push_decimal;

verus! {

/// A page cursor: how many threads the listing has already handed out.
#[derive(Debug, Clone, Copy, PartialEq, Eq, Structural)]
pub struct OffsetCursor {
    pub offset: usize,
}

/// The JSON text of a cursor: `{"offset":N}`.
pub open spec fn cursor_text(offset: nat) -> Seq<char> {
    seq!['{', '"', 'o', 'f', 'f', 's', 'e', 't', '"', ':'] + decimal(offset) + seq!['}']
}

/// The cursor that resumes a listing after `offset` threads, as JSON text.
pub fn encode_offset_cursor(offset: usize) -> (r: Result<String, ThreadStoreError>)
    ensures
        r matches Ok(t) && t@ == cursor_text(offset as nat),
{
    let mut out = String::new();
    push_char(&mut out, '{');
    push_char(&mut out, '"');
    push_char(&mut out, 'o');
    push_char(&mut out, 'f');
    push_char(&mut out, 'f');
    push_char(&mut out, 's');
    push_char(&mut out, 'e');
    push_char(&mut out, 't');
    push_char(&mut out, '"');
    push_char(&mut out, ':');
    push_decimal(&mut out, offset as u64);
    push_char(&mut out, '}');
    assert(out@ =~= cursor_text(offset as nat));
    Ok(out)
}

/// The message of a refused cursor.
pub open spec fn invalid_cursor_message(reason: Seq<char>) -> Seq<char> {
    "invalid cursor: "@ + reason
}

/// Where a listing starts: at the beginning without a cursor, at the
/// cursor's offset when it parsed, refused with the parser's message when
/// it did not. `parsed` is the cursor parsed from its JSON text, if one was
/// given.
pub fn decode_offset_cursor(parsed: Option<Result<OffsetCursor, String>>) -> (r: Result<
    usize,
    ThreadStoreError,
>)
    ensures
        parsed is None ==> r == Ok::<usize, ThreadStoreError>(0),
        parsed matches Some(Ok(c)) ==> r == Ok::<usize, ThreadStoreError>(c.offset),
        parsed matches Some(Err(reason)) ==> (r matches Err(
            ThreadStoreError::InvalidRequest { message },
        ) && message@ == invalid_cursor_message(reason@)),
{
    match parsed {
        None => Ok(0),
        Some(Ok(cursor)) => Ok(cursor.offset),
        Some(Err(reason)) => {
            let mut message = String::from_str("invalid cursor: ");
            message.append(reason.as_str());
            Err(ThreadStoreError::InvalidRequest { message })
        },
    }
}

} // verus!
