use vstd::prelude::*;

use crate::frame::{
    check_invalid, check_outcome, lemma_check_then_parse, parse_outcome, Cursor, Error, Frame,
};

verus! {

/// Takes one frame from the front of `buffer` when a whole one is there.
///
/// Returns `Ok(None)` while more data is needed, an error when the data is
/// no valid frame, and otherwise the frame with the number of bytes it
/// occupies, which the caller then discards.
pub fn parse_frame(buffer: &[u8]) -> (res: Result<Option<(Frame, usize)>, Error>)
    ensures
        check_invalid(buffer@, 0) ==> res matches Err(Error::Invalid),
        !check_outcome(buffer@, 0).0 && !check_invalid(buffer@, 0) ==> res matches Ok(None),
        check_outcome(buffer@, 0).0 ==> match parse_outcome(buffer@, 0).0 {
            Ok(v) => res matches Ok(Some((f, n))) && f@ == v && n == check_outcome(buffer@, 0).1,
            Err(_) => res matches Err(Error::ParseError(_)),
        },
{
    let mut buf = Cursor::new(buffer);
    match Frame::check(&mut buf) {
        Ok(()) => {
            proof {
                lemma_check_then_parse(buffer@, 0);
            }
            let end = buf.position();
            assert(end <= buffer.len());
            let len = end as usize;
            buf.set_position(0);
            let frame = Frame::parse(&mut buf)?;
            Ok(Some((frame, len)))
        },
        Err(Error::Incomplete) => Ok(None),
        Err(e) => Err(e),
    }
}

} // verus!
