use vstd::prelude::*;

use crate::error::{Error, SyntaxError};
use crate::puzzle::coord_ok;

verus! {

/// Action code of a piece move in a binary mutation batch.
pub const ACTION_MOVE: u32 = 3;

/// Action code of a group merge in a binary mutation batch.
pub const ACTION_CONNECT: u32 = 4;

/// One decoded action of a binary mutation batch.  Coordinates stay in
/// their 32-bit wire representation.
#[derive(Debug, Clone, Copy, PartialEq, Eq, Structural)]
pub enum Action {
    /// Set the two coordinates of `piece`.
    Move { piece: u32, x: u32, y: u32 },
    /// Merge the group of piece `a` into the group of piece `b`.
    Connect { a: u32, b: u32 },
}

/// The little-endian 32-bit word at byte offset `pos`.
pub open spec fn le32_at(d: Seq<u8>, pos: int) -> u32 {
    vstd::bytes::spec_u32_from_le_bytes(d.subrange(pos, pos + 4))
}

/// A binary frame must hold whole 32-bit words.
pub open spec fn spec_check_alignment(d: Seq<u8>) -> Result<(), Error> {
    if d.len() % 4 != 0 {
        Err(Error::BadSyntax(SyntaxError::BinaryNotMultipleOf4))
    } else {
        Ok(())
    }
}

/// The batch identifier: the first word of the frame.
pub open spec fn spec_parse_message_id(d: Seq<u8>) -> Result<u32, Error> {
    if d.len() < 4 {
        Err(Error::BadSyntax(SyntaxError::UnexpectedEOF))
    } else {
        Ok(le32_at(d, 0))
    }
}

/// The action starting at byte offset `pos`, and the offset just after it:
/// an action word, then its operands.  A `MOVE` carries a piece index and
/// two coordinates, both of which must be finite values in `[0.0, 2.0]`; a
/// `CONNECT` carries two piece indices.  `None` when `pos` is at the end of
/// the frame.
pub open spec fn spec_parse_action(d: Seq<u8>, pos: int) -> Result<Option<(Action, int)>, Error> {
    if pos >= d.len() {
        Ok(None)
    } else if pos + 4 > d.len() {
        Err(Error::BadSyntax(SyntaxError::UnexpectedEOF))
    } else {
        let action = le32_at(d, pos);
        if action == ACTION_MOVE {
            if pos + 16 > d.len() {
                Err(Error::BadSyntax(SyntaxError::UnexpectedEOF))
            } else {
                let x = le32_at(d, pos + 8);
                let y = le32_at(d, pos + 12);
                if !coord_ok(x) || !coord_ok(y) {
                    Err(Error::BadSyntax(SyntaxError::PositionOutOfBounds))
                } else {
                    Ok(Some((Action::Move { piece: le32_at(d, pos + 4), x, y }, pos + 16)))
                }
            }
        } else if action == ACTION_CONNECT {
            if pos + 12 > d.len() {
                Err(Error::BadSyntax(SyntaxError::UnexpectedEOF))
            } else {
                Ok(Some((Action::Connect { a: le32_at(d, pos + 4), b: le32_at(d, pos + 8) }, pos
                    + 12)))
            }
        } else {
            Err(Error::BadSyntax(SyntaxError::BadAction))
        }
    }
}

/// Read the little-endian word at byte offset `pos`.
pub(crate) fn read_u32_at(d: &Vec<u8>, pos: usize) -> (r: u32)
    requires
        pos + 4 <= d@.len(),
    ensures
        r == le32_at(d@, pos as int),
{
    let n: usize = d.len();
    proof {
        assert(pos + 4 <= n);
    }
    let s: &[u8] = vstd::slice::slice_subrange(d.as_slice(), pos, pos + 4);
    vstd::bytes::u32_from_le_bytes(s)
}

/// Reject a frame that is not a whole number of words.
pub fn check_alignment(d: &Vec<u8>) -> (r: Result<(), Error>)
    ensures
        r == spec_check_alignment(d@),
{
    if d.len() % 4 != 0 {
        Err(Error::BadSyntax(SyntaxError::BinaryNotMultipleOf4))
    } else {
        Ok(())
    }
}

/// Read the batch identifier of a binary frame.
pub fn parse_message_id(d: &Vec<u8>) -> (r: Result<u32, Error>)
    ensures
        r == spec_parse_message_id(d@),
{
    if d.len() < 4 {
        Err(Error::BadSyntax(SyntaxError::UnexpectedEOF))
    } else {
        Ok(read_u32_at(d, 0))
    }
}

/// Decode the next action of the batch, mirroring [`spec_parse_action`].
/// Progress: on `Ok(Some(..))` the new offset moves strictly forward and
/// stays within the frame.
pub fn parse_action(d: &Vec<u8>, pos: usize) -> (r: Result<Option<(Action, usize)>, Error>)
    requires
        pos <= d@.len(),
    ensures
        ({
            let sp = spec_parse_action(d@, pos as int);
            match r {
                Ok(Some((a, p2))) => sp == Ok::<Option<(Action, int)>, Error>(
                    Some((a, p2 as int)),
                ) && pos < p2 <= d@.len(),
                Ok(None) => sp == Ok::<Option<(Action, int)>, Error>(None),
                Err(e) => sp == Err::<Option<(Action, int)>, Error>(e),
            }
        }),
{
    let n: usize = d.len();
    if pos >= n {
        return Ok(None);
    }
    if n - pos < 4 {
        return Err(Error::BadSyntax(SyntaxError::UnexpectedEOF));
    }
    let action: u32 = read_u32_at(d, pos);
    if action == ACTION_MOVE {
        if n - pos < 16 {
            return Err(Error::BadSyntax(SyntaxError::UnexpectedEOF));
        }
        let piece: u32 = read_u32_at(d, pos + 4);
        let x: u32 = read_u32_at(d, pos + 8);
        let y: u32 = read_u32_at(d, pos + 12);
        if !crate::puzzle::coord_in_range(x) || !crate::puzzle::coord_in_range(y) {
            return Err(Error::BadSyntax(SyntaxError::PositionOutOfBounds));
        }
        Ok(Some((Action::Move { piece, x, y }, pos + 16)))
    } else if action == ACTION_CONNECT {
        if n - pos < 12 {
            return Err(Error::BadSyntax(SyntaxError::UnexpectedEOF));
        }
        let a: u32 = read_u32_at(d, pos + 4);
        let b: u32 = read_u32_at(d, pos + 8);
        Ok(Some((Action::Connect { a, b }, pos + 12)))
    } else {
        Err(Error::BadSyntax(SyntaxError::BadAction))
    }
}

} // verus!
