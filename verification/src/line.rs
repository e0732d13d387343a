//! The text of one captured line.

use crate::level::{label, name};
use vstd::prelude::*;
use vstd::string::*;

verus! {

/// Width to which the name of a level is padded at the start of a line.
pub const LEVEL_WIDTH: usize = 5;

/// `n` spaces.
pub open spec fn spaces(n: nat) -> Seq<char> {
    Seq::new(n, |i: int| ' ')
}

/// The text, with spaces before it where it is shorter than `width`.
pub open spec fn right_aligned(text: Seq<char>, width: nat) -> Seq<char> {
    if text.len() >= width {
        text
    } else {
        spaces((width - text.len()) as nat) + text
    }
}

/// What stands for the module of a record that names none.
pub open spec fn unknown_module() -> Seq<char> {
    seq!['<', 'u', 'n', 'k', 'n', 'o', 'w', 'n', '>']
}

/// One captured line: the level, the module, the path in brackets, the
/// message, and the line terminator.
pub open spec fn line(
    level: log::Level,
    module: Seq<char>,
    path: Seq<char>,
    message: Seq<char>,
) -> Seq<char> {
    right_aligned(label(level), LEVEL_WIDTH as nat) + seq![':', ' '] + module + seq!['['] + path
        + seq![']', ':', ' '] + message + seq!['\n']
}

/// Appends `text` to `buf`, padded with spaces on the left to `width`
/// characters.
pub(crate) fn push_right_aligned(buf: &mut String, text: &str, width: usize)
    ensures
        final(buf)@ == old(buf)@ + right_aligned(text@, width as nat),
{
    let n: usize = text.unicode_len();
    let mut k: usize = n;
    while k < width
        invariant
            n <= k,
            k <= width || k == n,
            buf@ == old(buf)@ + spaces((k - n) as nat),
        decreases width - k,
    {
        proof {
            reveal_strlit(" ");
        }
        buf.append(" ");
        k = k + 1;
    }
    buf.append(text);
}

/// Appends one captured line to `buf`.
pub(crate) fn push_line(
    buf: &mut String,
    level: log::Level,
    module: &str,
    path: &str,
    message: &str,
)
    ensures
        final(buf)@ == old(buf)@ + line(level, module@, path@, message@),
{
    proof {
        reveal_strlit(": ");
        reveal_strlit("[");
        reveal_strlit("]: ");
        reveal_strlit("\n");
    }
    push_right_aligned(buf, name(level), LEVEL_WIDTH);
    buf.append(": ");
    buf.append(module);
    buf.append("[");
    buf.append(path);
    buf.append("]: ");
    buf.append(message);
    buf.append("\n");
}

} // verus!
