use vstd::prelude::*;

verus! {

/// The kinds of generic parser failure that the EBML parsers can report
/// besides the EBML-specific ones.
#[derive(Debug, Clone, Copy, PartialEq, Eq, Structural)]
pub enum NomErrorKind {
    /// A parser that needs its whole input ran out of data.
    Complete,
    /// The initial state of the error of an unordered element scan.
    Permutation,
}

/// Describes what went wrong.
#[derive(Debug, Clone, Copy, PartialEq, Eq, Structural)]
#[non_exhaustive]
pub enum ErrorKind {
    /// A generic parser step failed.
    Nom(NomErrorKind),
    /// The Element Data Size did not fit within a [usize].
    /// The current parsing code cannot handle an element of this size.
    ElementTooLarge,
    /// A required Element was not found by the parser.
    MissingElement,
    /// One of the segment element types was discovered more than once in the input.
    DuplicateSegment,
    /// The VINT_WIDTH is 8 or more, which means that the resulting variable-size
    /// integer is more than 8 octets wide. This is currently not supported.
    VintTooWide,
    /// The VINT_WIDTH of this Element ID is 4 or more, which is not allowed as
    /// per the Matroska specification.
    IDTooWide,
    /// An integer element has declared a length that is wider than its type.
    IntTooWide,
    /// An unsigned integer with a maximum length of 4 octets has declared a
    /// length of more than 4 octets.
    U32TooWide,
    /// An unsigned integer element has declared a length of more than 8 octets.
    UintTooWide,
    /// A float element has declared a length of 0 octets, which needs to be
    /// converted to some default value.
    EmptyFloat,
    /// A float element has declared a length that is not 0, 4 or 8 octets.
    FloatWidthIncorrect,
    /// A date element has declared a length that is not 0 or 8 octets.
    DateWidthIncorrect,
    /// A string element contains non-UTF-8 data.
    StringNotUtf8,
    /// A binary element does not adhere to the length declared in the
    /// specification. The enclosed [u16] is the actual length of the data.
    BinaryWidthIncorrect(u16),
    /// A CRC-32 element was found, but the checksum did not match.
    Crc32Mismatch,
}

/// A parse error: the Element ID where it occurred (0 if not available)
/// and what went wrong.
#[derive(Debug, Clone, Copy, PartialEq, Eq, Structural)]
pub struct Error {
    /// The Element ID where the error occurred. 0 if not available.
    pub id: u32,
    /// See [ErrorKind] for more information.
    pub kind: ErrorKind,
}

/// How much more input a streaming parser needs.
#[derive(Debug, Clone, Copy, PartialEq, Eq, Structural)]
pub enum Needed {
    /// The amount is not known.
    Unknown,
    /// At least this many more bytes are needed.
    Size(usize),
}

/// Why a parser did not produce a value: either it needs more input,
/// or the input is wrong.
#[derive(Debug, Clone, Copy, PartialEq, Eq, Structural)]
pub enum EbmlErr {
    /// More input is needed to decide.
    Incomplete(Needed),
    /// The input does not hold what the parser expects.
    Error(Error),
}

/// The outcome of a parser: the number of bytes it consumed and the value,
/// or why it failed.
pub type EbmlResult<T> = Result<(usize, T), EbmlErr>;

/// Describes what went wrong while reading a value (the kind of an [Error]).
pub type ParseError = ErrorKind;

/// The outcome of a failed parse with the given Element ID and kind.
pub open spec fn err_of<T>(id: u32, kind: ErrorKind) -> EbmlResult<T> {
    Err(EbmlErr::Error(Error { id, kind }))
}

/// The outcome of a parse that needs at least `n` more bytes.
pub open spec fn incomplete<T>(n: usize) -> EbmlResult<T> {
    Err(EbmlErr::Incomplete(Needed::Size(n)))
}

/// Create an error with the given ID and [ErrorKind].
pub fn ebml_err<T>(id: u32, kind: ErrorKind) -> (r: EbmlResult<T>)
    ensures
        r == err_of::<T>(id, kind),
{
    Err(EbmlErr::Error(Error { id, kind }))
}

/// Which of two errors of alternative parsers is kept.
pub open spec fn spec_error_or(first: Error, other: Error) -> Error {
    if other.kind == ErrorKind::Nom(NomErrorKind::Complete) {
        first
    } else {
        other
    }
}

impl Error {
    /// Combines the errors of two alternative parsers: an error that only says
    /// that the input ran out does not override an EBML error.
    pub fn or(self, other: Error) -> (r: Error)
        ensures
            r == spec_error_or(self, other),
    {
        match other.kind {
            ErrorKind::Nom(NomErrorKind::Complete) => self,
            _ => other,
        }
    }

    /// The error that a generic parser step reports.
    pub fn from_error_kind(kind: NomErrorKind) -> (r: Error)
        ensures
            r == (Error { id: 0, kind: ErrorKind::Nom(kind) }),
    {
        Error { id: 0, kind: ErrorKind::Nom(kind) }
    }
}

} // verus!
