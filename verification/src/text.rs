//! Tests on characters and on the symbols made of them.

use vstd::prelude::*;
use vstd::string::*;

verus! {

/// Whether `char::is_whitespace` holds of a character.
pub uninterp spec fn white_space(c: char) -> bool;

/// `char::is_whitespace` of std: whether the character has the Unicode
/// property White_Space. The contract only names the result.
pub assume_specification[ char::is_whitespace ](c: char) -> (b: bool)
    ensures
        b == white_space(c),
;

/// The no-break space, which never counts as a place to break a line.
pub const NBSP: char = '\u{a0}';

/// The line feed that ends a logical line.
pub open spec fn is_line_feed(symbol: Seq<char>) -> bool {
    symbol == seq!['\n']
}

/// A symbol made of white space only, other than the no-break space.
pub open spec fn is_breaking_space(symbol: Seq<char>) -> bool {
    (forall|i: int| 0 <= i < symbol.len() ==> white_space(#[trigger] symbol[i])) && symbol
        != seq![NBSP]
}

/// Whether a symbol is the single character U+000A.
pub fn is_newline(symbol: &str) -> (b: bool)
    ensures
        b == is_line_feed(symbol@),
{
    let b = symbol.unicode_len() == 1 && symbol.get_char(0) == '\n';
    proof {
        if b {
            assert(symbol@ =~= seq!['\n']);
        }
    }
    b
}

/// Whether a symbol is white space at which a line may be broken.
pub fn is_space(symbol: &str) -> (b: bool)
    ensures
        b == is_breaking_space(symbol@),
{
    let no_break = symbol.unicode_len() == 1 && symbol.get_char(0) == NBSP;
    proof {
        if no_break {
            assert(symbol@ =~= seq![NBSP]);
        }
    }
    let mut white = true;
    for c in it: symbol.chars()
        invariant
            it.seq() == symbol@,
            white == (forall|i: int| 0 <= i < it.index() ==> white_space(#[trigger] symbol@[i])),
    {
        if !c.is_whitespace() {
            white = false;
        }
    }
    white && !no_break
}

} // verus!
