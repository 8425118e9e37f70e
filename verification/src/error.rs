//! Structural decode errors: every error of the binary reader carries the
//! absolute byte offset at which it was detected.

use vstd::prelude::*;
use vstd::string::StringExecFns;
use crate::strings::{dec_digits, push_dec, digit_char};
use crate::schema::version_chars;

verus! {

/// What went wrong while decoding, without the position.
#[derive(Debug, Clone)]
pub enum ErrorKind {
    /// The payload opened with a version string other than the expected one.
    InvalidVersion(String),
    /// A LEB128 integer was well-formed but does not fit in 32 bits.
    UlebTooBig(u64),
    /// A LEB128 integer was malformed or unterminated.
    UlebInvalid,
    /// The input ended where a byte was required.
    UnexpectedEof,
    /// A length-prefixed string held ill-formed UTF-8.
    InvalidUtf8,
    /// A subsection id outside the known range.
    InvalidSection(u8),
    /// A value-type byte outside the known range.
    InvalidValType(u8),
    /// An opcode byte outside the known range.
    InvalidInstruction(u8),
    /// A length prefix promised this many more bytes than the input holds.
    Expected(usize),
    /// A subsection or function body continued past its last item.
    TrailingBytes,
}

/// Specification-level mirror of `ErrorKind`.
pub enum KindView {
    InvalidVersion(Seq<char>),
    UlebTooBig(u64),
    UlebInvalid,
    UnexpectedEof,
    InvalidUtf8,
    InvalidSection(u8),
    InvalidValType(u8),
    InvalidInstruction(u8),
    Expected(int),
    TrailingBytes,
}

impl View for ErrorKind {
    type V = KindView;

    open spec fn view(&self) -> KindView {
        match self {
            ErrorKind::InvalidVersion(s) => KindView::InvalidVersion(s@),
            ErrorKind::UlebTooBig(n) => KindView::UlebTooBig(*n),
            ErrorKind::UlebInvalid => KindView::UlebInvalid,
            ErrorKind::UnexpectedEof => KindView::UnexpectedEof,
            ErrorKind::InvalidUtf8 => KindView::InvalidUtf8,
            ErrorKind::InvalidSection(n) => KindView::InvalidSection(*n),
            ErrorKind::InvalidValType(n) => KindView::InvalidValType(*n),
            ErrorKind::InvalidInstruction(n) => KindView::InvalidInstruction(*n),
            ErrorKind::Expected(n) => KindView::Expected(*n as int),
            ErrorKind::TrailingBytes => KindView::TrailingBytes,
        }
    }
}

/// A decode error: a kind plus the absolute byte offset where it was found.
#[derive(Debug, Clone)]
pub struct Error {
    /// Absolute offset, within the containing file, of the error.
    pub at: usize,
    /// What went wrong there.
    pub kind: ErrorKind,
}

/// Specification-level mirror of `Error`.
pub struct ErrView {
    pub at: int,
    pub kind: KindView,
}

impl View for Error {
    type V = ErrView;

    open spec fn view(&self) -> ErrView {
        ErrView { at: self.at as int, kind: self.kind@ }
    }
}

/// The character for one hexadecimal digit.
pub open spec fn hex_digit_char(d: nat) -> char {
    if d < 10 {
        digit_char(d)
    } else if d == 10 {
        'a'
    } else if d == 11 {
        'b'
    } else if d == 12 {
        'c'
    } else if d == 13 {
        'd'
    } else if d == 14 {
        'e'
    } else {
        'f'
    }
}

/// The two-character lower-case hexadecimal rendering of a byte.
pub open spec fn hex_byte(n: u8) -> Seq<char> {
    seq![hex_digit_char(n as nat / 16), hex_digit_char(n as nat % 16)]
}

/// The message text for an error kind.
pub open spec fn kind_message(k: KindView) -> Seq<char> {
    match k {
        KindView::InvalidVersion(s) => "schema version `"@ + s + "` doesn't match `"@
            + version_chars() + "`"@,
        KindView::UlebTooBig(_) => "uleb encoded integer too big"@,
        KindView::UlebInvalid => "failed to parse uleb integer"@,
        KindView::UnexpectedEof => "unexpected end-of-file"@,
        KindView::InvalidUtf8 => "invalid utf-8 string"@,
        KindView::InvalidSection(n) => "invalid section id: "@ + dec_digits(n as nat),
        KindView::InvalidValType(n) => "invalid value type: "@ + dec_digits(n as nat),
        KindView::InvalidInstruction(n) => "invalid instruction: 0x"@ + hex_byte(n),
        KindView::Expected(n) => "expected "@ + dec_digits(n as nat) + " more bytes but hit eof"@,
        KindView::TrailingBytes => "trailing bytes at the end of the section"@,
    }
}

/// The full message text of an error, with its position.
pub open spec fn error_message(e: ErrView) -> Seq<char> {
    "failed to parse at byte "@ + dec_digits(e.at as nat) + ": "@ + kind_message(e.kind)
}

/// A one-character string slice for the hexadecimal digit `d`.
fn hex_digit_str(d: u8) -> (r: &'static str)
    requires
        d < 16,
    ensures
        r@ == seq![hex_digit_char(d as nat)],
{
    if d < 10 {
        crate::strings::digit_str(d as u64)
    } else {
        let r = match d {
            10 => "a",
            11 => "b",
            12 => "c",
            13 => "d",
            14 => "e",
            _ => "f",
        };
        proof {
            reveal_strlit("a");
            reveal_strlit("b");
            reveal_strlit("c");
            reveal_strlit("d");
            reveal_strlit("e");
            reveal_strlit("f");
        }
        r
    }
}

impl Error {
    /// Renders this error as the human-readable message the toolchain
    /// reports.
    pub fn message(&self) -> (r: String)
        ensures
            r@ == error_message(self@),
    {
        let mut s = String::from_str("failed to parse at byte ");
        push_dec(&mut s, self.at as u64);
        s.append(": ");
        match &self.kind {
            ErrorKind::InvalidVersion(v) => {
                s.append("schema version `");
                s.append(v.as_str());
                s.append("` doesn't match `");
                s.append(crate::schema::schema_version());
                s.append("`");
            }
            ErrorKind::UlebTooBig(_) => {
                s.append("uleb encoded integer too big");
            }
            ErrorKind::UlebInvalid => {
                s.append("failed to parse uleb integer");
            }
            ErrorKind::UnexpectedEof => {
                s.append("unexpected end-of-file");
            }
            ErrorKind::InvalidUtf8 => {
                s.append("invalid utf-8 string");
            }
            ErrorKind::InvalidSection(n) => {
                s.append("invalid section id: ");
                push_dec(&mut s, *n as u64);
            }
            ErrorKind::InvalidValType(n) => {
                s.append("invalid value type: ");
                push_dec(&mut s, *n as u64);
            }
            ErrorKind::InvalidInstruction(n) => {
                s.append("invalid instruction: 0x");
                s.append(hex_digit_str(*n / 16));
                s.append(hex_digit_str(*n % 16));
                proof {
                    assert(seq![hex_digit_char((n / 16) as nat)] + seq![
                        hex_digit_char((n % 16) as nat),
                    ] =~= hex_byte(*n));
                }
            }
            ErrorKind::Expected(n) => {
                s.append("expected ");
                push_dec(&mut s, *n as u64);
                s.append(" more bytes but hit eof");
            }
            ErrorKind::TrailingBytes => {
                s.append("trailing bytes at the end of the section");
            }
        }
        proof {
            assert(s@ =~= error_message(self@));
        }
        s
    }

    /// The absolute byte offset at which the error was detected.
    pub fn position(&self) -> (r: usize)
        ensures
            r as int == self@.at,
    {
        self.at
    }
}

} // verus!
