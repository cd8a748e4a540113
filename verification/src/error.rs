use vstd::prelude::*;

verus! {

/// The reason a frame failed to parse.  Each value renders as the free-form
/// message of a `bad-syntax` error frame.
#[derive(Debug, Clone, Copy, PartialEq, Eq, Structural)]
pub enum SyntaxError {
    /// The width token of `new` is not a decimal byte.
    WidthNotInteger,
    /// `new` came with no height token.
    NoHeight,
    /// The height token of `new` is not a decimal byte.
    HeightNotInteger,
    /// A dimension of `new` is below 3.
    DimensionsTooSmall,
    /// `new` came with no URL token.
    NoURL,
    /// `new` came with no seed token.
    NoSeed,
    /// The seed token of `new` is not a decimal 32-bit integer.
    SeedNotInteger,
    /// The id of `join` or `rejoin` is not exactly 7 bytes.
    BadJoinID,
    /// `rejoin` arrived on a session that had already joined a puzzle.
    UnexpectedRejoin,
    /// A binary frame whose length is not a multiple of 4.
    BinaryNotMultipleOf4,
    /// A binary frame ended in the middle of an action.
    UnexpectedEOF,
    /// An unknown action code in a binary frame.
    BadAction,
    /// A `MOVE` coordinate that is not a finite value in `[0.0, 2.0]`.
    PositionOutOfBounds,
}

impl SyntaxError {
    /// The message of this parse failure.
    pub open spec fn message_spec(self) -> Seq<char> {
        match self {
            SyntaxError::WidthNotInteger => "width not integer"@,
            SyntaxError::NoHeight => "no height"@,
            SyntaxError::HeightNotInteger => "height not integer"@,
            SyntaxError::DimensionsTooSmall => "dimensions too small"@,
            SyntaxError::NoURL => "no URL"@,
            SyntaxError::NoSeed => "no seed"@,
            SyntaxError::SeedNotInteger => "seed not integer"@,
            SyntaxError::BadJoinID => "bad join ID"@,
            SyntaxError::UnexpectedRejoin => "unexpected rejoin"@,
            SyntaxError::BinaryNotMultipleOf4 => "binary message not multiple of 4 bytes"@,
            SyntaxError::UnexpectedEOF => "unexpected EOF in action sequence"@,
            SyntaxError::BadAction => "bad action"@,
            SyntaxError::PositionOutOfBounds => "piece position out of bounds"@,
        }
    }

    /// Render the reason as message text.
    pub fn message(&self) -> (r: &'static str)
        ensures
            r@ == self.message_spec(),
    {
        match self {
            SyntaxError::WidthNotInteger => "width not integer",
            SyntaxError::NoHeight => "no height",
            SyntaxError::HeightNotInteger => "height not integer",
            SyntaxError::DimensionsTooSmall => "dimensions too small",
            SyntaxError::NoURL => "no URL",
            SyntaxError::NoSeed => "no seed",
            SyntaxError::SeedNotInteger => "seed not integer",
            SyntaxError::BadJoinID => "bad join ID",
            SyntaxError::UnexpectedRejoin => "unexpected rejoin",
            SyntaxError::BinaryNotMultipleOf4 => "binary message not multiple of 4 bytes",
            SyntaxError::UnexpectedEOF => "unexpected EOF in action sequence",
            SyntaxError::BadAction => "bad action",
            SyntaxError::PositionOutOfBounds => "piece position out of bounds",
        }
    }
}

/// A protocol-level failure.  Each value is rendered to the client as one
/// `error <message>` text frame, after which the session terminates.
#[derive(Debug, Clone, Copy, PartialEq, Eq, Structural)]
pub enum Error {
    /// A lookup named a puzzle that does not exist.
    BadPuzzleID,
    /// A piece index beyond the protocol cap.
    BadPieceID,
    /// A parse failure, with its reason.
    BadSyntax(SyntaxError),
    /// An image URL longer than 2048 bytes.
    ImageURLTooLong,
    /// Requested dimensions would exceed 1000 pieces.
    TooManyPieces,
    /// A 21st concurrent join to one puzzle.
    TooManyPlayers,
    /// A mutation or poll before any join.
    NotJoined,
}

impl Error {
    /// The human-readable message carried by the `error` frame.
    pub open spec fn message_spec(self) -> Seq<char> {
        match self {
            Error::BadPuzzleID => "bad puzzle ID"@,
            Error::BadPieceID => "bad piece ID"@,
            Error::BadSyntax(s) => s.message_spec(),
            Error::ImageURLTooLong => "image URL too long"@,
            Error::TooManyPieces => "too many pieces"@,
            Error::TooManyPlayers => "too many players"@,
            Error::NotJoined => "haven't joined a puzzle"@,
        }
    }

    /// Render the error as the message text of its `error` frame.
    pub fn message(&self) -> (r: &'static str)
        ensures
            r@ == self.message_spec(),
    {
        match self {
            Error::BadPuzzleID => "bad puzzle ID",
            Error::BadPieceID => "bad piece ID",
            Error::BadSyntax(s) => s.message(),
            Error::ImageURLTooLong => "image URL too long",
            Error::TooManyPieces => "too many pieces",
            Error::TooManyPlayers => "too many players",
            Error::NotJoined => "haven't joined a puzzle",
        }
    }
}

} // verus!
