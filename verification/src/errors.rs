//! Error type for every operation of the library, with its rendered text.

use vstd::prelude::*;

verus! {

/// Appends one character to a string.
pub assume_specification[ String::push ](s: &mut String, ch: char)
    ensures
        final(s)@ == old(s)@.push(ch),
;

/// Appends a string slice to a string.
pub assume_specification[ String::push_str ](s: &mut String, t: &str)
    ensures
        final(s)@ == old(s)@ + t@,
;

/// Errors of the memory-mapped file operations.
#[derive(Debug)]
pub enum MmapIoError {
    /// An underlying filesystem or system call failed; holds its message.
    Io(String),
    /// The operation is not allowed in the mapping's mode.
    InvalidMode(&'static str),
    /// The range `[offset, offset + len)` does not lie within `[0, total)`.
    OutOfBounds { offset: u64, len: u64, total: u64 },
    /// Flushing to the backing file failed.
    FlushFailed(String),
    /// Creating or resizing the mapping was refused or failed.
    ResizeFailed(String),
    /// A memory-advice request failed.
    AdviceFailed(String),
    /// Locking pages in memory failed.
    LockFailed(String),
    /// Unlocking pages failed.
    UnlockFailed(String),
    /// An offset is not aligned as the requested view needs.
    Misaligned { required: u64, offset: u64 },
    /// Setting up a file watch failed.
    WatchFailed(String),
}

/// Result type of the library.
pub type Result<T> = core::result::Result<T, MmapIoError>;

/// Whether `e` is `InvalidMode` carrying exactly the text `msg`.
pub open spec fn is_invalid_mode(e: MmapIoError, msg: Seq<char>) -> bool {
    e matches MmapIoError::InvalidMode(m) && m@ == msg
}

/// Whether `e` is `ResizeFailed` carrying exactly the text `msg`.
pub open spec fn is_resize_failed(e: MmapIoError, msg: Seq<char>) -> bool {
    e matches MmapIoError::ResizeFailed(m) && m@ == msg
}

/// Whether `e` is `OutOfBounds` for the range `(offset, len)` against `total`.
pub open spec fn is_out_of_bounds(e: MmapIoError, offset: u64, len: u64, total: u64) -> bool {
    e == (MmapIoError::OutOfBounds { offset, len, total })
}

/// The decimal digit `d` (for `d < 10`) as a character.
pub open spec fn digit_char(d: nat) -> char {
    if d == 0 { '0' }
    else if d == 1 { '1' }
    else if d == 2 { '2' }
    else if d == 3 { '3' }
    else if d == 4 { '4' }
    else if d == 5 { '5' }
    else if d == 6 { '6' }
    else if d == 7 { '7' }
    else if d == 8 { '8' }
    else { '9' }
}

/// The decimal representation of `n`, most significant digit first, with
/// no leading zeros (and `"0"` for zero).
pub open spec fn decimal(n: nat) -> Seq<char>
    decreases n,
{
    if n < 10 {
        seq![digit_char(n)]
    } else {
        decimal(n / 10).push(digit_char(n % 10))
    }
}

fn digit(d: u64) -> (c: char)
    requires
        d < 10,
    ensures
        c == digit_char(d as nat),
{
    if d == 0 { '0' }
    else if d == 1 { '1' }
    else if d == 2 { '2' }
    else if d == 3 { '3' }
    else if d == 4 { '4' }
    else if d == 5 { '5' }
    else if d == 6 { '6' }
    else if d == 7 { '7' }
    else if d == 8 { '8' }
    else { '9' }
}

/// Appends the decimal representation of `n` to `s`.
pub fn push_decimal(s: &mut String, n: u64)
    ensures
        final(s)@ == old(s)@ + decimal(n as nat),
    decreases n,
{
    if n >= 10 {
        push_decimal(s, n / 10);
    }
    s.push(digit(n % 10));
    proof {
        if n >= 10 {
            assert(old(s)@ + decimal(n as nat) =~= old(s)@ + decimal((n / 10) as nat) + seq![
                digit_char((n % 10) as nat),
            ]);
        } else {
            assert(old(s)@ + decimal(n as nat) =~= old(s)@.push(digit_char((n % 10) as nat)));
        }
    }
}

/// The decimal representation of `n` as a string.
pub fn u64_to_decimal(n: u64) -> (r: String)
    ensures
        r@ == decimal(n as nat),
{
    let mut s = String::new();
    push_decimal(&mut s, n);
    proof {
        assert(seq![] + decimal(n as nat) =~= decimal(n as nat));
    }
    s
}

impl MmapIoError {
    /// The text that describes this error, as shown to users.
    pub open spec fn message(&self) -> Seq<char> {
        match self {
            MmapIoError::Io(m) => "I/O error: "@ + m@,
            MmapIoError::InvalidMode(m) => "invalid mode: "@ + m@,
            MmapIoError::OutOfBounds { offset, len, total } => "range out of bounds: offset="@
                + decimal(*offset as nat) + ", len="@ + decimal(*len as nat) + ", total="@
                + decimal(*total as nat),
            MmapIoError::FlushFailed(m) => "flush failed: "@ + m@,
            MmapIoError::ResizeFailed(m) => "resize failed: "@ + m@,
            MmapIoError::AdviceFailed(m) => "advice failed: "@ + m@,
            MmapIoError::LockFailed(m) => "lock failed: "@ + m@,
            MmapIoError::UnlockFailed(m) => "unlock failed: "@ + m@,
            MmapIoError::Misaligned { required, offset } => "misaligned access: offset "@
                + decimal(*offset as nat) + " is not aligned to "@ + decimal(*required as nat)
                + " bytes"@,
            MmapIoError::WatchFailed(m) => "watch failed: "@ + m@,
        }
    }

    /// Renders this error as text (see [`MmapIoError::message`]).
    pub fn to_string(&self) -> (r: String)
        ensures
            r@ == self.message(),
    {
        let mut s = String::new();
        match self {
            MmapIoError::Io(m) => {
                s.push_str("I/O error: ");
                s.push_str(m.as_str());
            },
            MmapIoError::InvalidMode(m) => {
                s.push_str("invalid mode: ");
                s.push_str(m);
            },
            MmapIoError::OutOfBounds { offset, len, total } => {
                s.push_str("range out of bounds: offset=");
                push_decimal(&mut s, *offset);
                s.push_str(", len=");
                push_decimal(&mut s, *len);
                s.push_str(", total=");
                push_decimal(&mut s, *total);
            },
            MmapIoError::FlushFailed(m) => {
                s.push_str("flush failed: ");
                s.push_str(m.as_str());
            },
            MmapIoError::ResizeFailed(m) => {
                s.push_str("resize failed: ");
                s.push_str(m.as_str());
            },
            MmapIoError::AdviceFailed(m) => {
                s.push_str("advice failed: ");
                s.push_str(m.as_str());
            },
            MmapIoError::LockFailed(m) => {
                s.push_str("lock failed: ");
                s.push_str(m.as_str());
            },
            MmapIoError::UnlockFailed(m) => {
                s.push_str("unlock failed: ");
                s.push_str(m.as_str());
            },
            MmapIoError::Misaligned { required, offset } => {
                s.push_str("misaligned access: offset ");
                push_decimal(&mut s, *offset);
                s.push_str(" is not aligned to ");
                push_decimal(&mut s, *required);
                s.push_str(" bytes");
            },
            MmapIoError::WatchFailed(m) => {
                s.push_str("watch failed: ");
                s.push_str(m.as_str());
            },
        }
        proof {
            assert(s@ =~= self.message());
        }
        s
    }
}

} // verus!
