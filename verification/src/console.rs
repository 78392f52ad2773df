//! Text helpers of the console listing: the ten-cell volume bar and the
//! truncation of long session names on a character boundary.
use vstd::prelude::*;
use crate::text::{chars_of, string_from_range};

verus! {

/// Number of cells in a volume bar.
pub const VOLUME_BAR_CELLS: usize = 10;

/// `n` copies of the character `c`.
pub open spec fn repeated(c: char, n: nat) -> Seq<char> {
    Seq::new(n, |i: int| c)
}

/// The bar drawn for `filled` lit cells: `[`, the lit cells, the dark cells, `]`.
pub open spec fn volume_bar_text(filled: nat) -> Seq<char> {
    seq!['['] + repeated('█', filled) + repeated('░', (10 - filled) as nat) + seq![']']
}

/// The first `max` characters of `s`, or `s` itself when it is no longer.
pub open spec fn truncated(s: Seq<char>, max: nat) -> Seq<char> {
    if s.len() > max {
        s.take(max as int)
    } else {
        s
    }
}

/// Appends `n` copies of `c` to `s`.
fn push_repeated(s: &mut String, c: char, n: usize)
    ensures
        final(s)@ == old(s)@ + repeated(c, n as nat),
{
    let mut i: usize = 0;
    while i < n
        invariant
            i <= n,
            s@ == old(s)@ + repeated(c, i as nat),
        decreases n - i,
    {
        let tail = [c];
        crate::text::append_chars(s, &tail);
        assert(old(s)@ + repeated(c, i as nat) + seq![c] =~= old(s)@ + repeated(c, (i + 1) as nat));
        i += 1;
    }
}

/// The ten-cell bar for a volume of which `filled` tenths are lit.
pub fn volume_bar(filled: usize) -> (bar: String)
    requires
        filled <= VOLUME_BAR_CELLS,
    ensures
        bar@ == volume_bar_text(filled as nat),
{
    let mut bar = String::new();
    crate::text::append_chars(&mut bar, &['[']);
    push_repeated(&mut bar, '█', filled);
    push_repeated(&mut bar, '░', VOLUME_BAR_CELLS - filled);
    crate::text::append_chars(&mut bar, &[']']);
    assert(bar@ =~= volume_bar_text(filled as nat));
    bar
}

/// `s` cut after its first `max` characters when it has more.
pub fn truncate(s: &str, max: usize) -> (res: String)
    ensures
        res@ == truncated(s@, max as nat),
{
    let chars = chars_of(s);
    let end = if chars.len() > max { max } else { chars.len() };
    let res = string_from_range(chars.as_slice(), 0, end);
    assert(res@ =~= truncated(s@, max as nat));
    res
}

} // verus!
