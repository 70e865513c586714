//! Word wrapping of a change's description, done by `textwrap`.

use vstd::prelude::*;

verus! {

/// The lines into which `textwrap::wrap` breaks `text` at `width` columns.
pub uninterp spec fn wrapped_lines(text: Seq<char>, width: usize) -> Seq<Seq<char>>;

/// The texts of a sequence of strings.
pub open spec fn texts(lines: Seq<String>) -> Seq<Seq<char>> {
    lines.map_values(|s: String| s@)
}

/// Calls `textwrap::wrap` with a plain width and owns each line that it
/// returns. The contract only gives the lines their name.
#[verifier::external_body]
fn wrap_lines(text: &str, width: usize) -> (lines: Vec<String>)
    ensures
        texts(lines@) == wrapped_lines(text@, width),
{
    textwrap::wrap(text, width).into_iter().map(|line| line.into_owned()).collect()
}

/// The elements of `lines` from `i` on, each but the first after `sep`.
pub open spec fn joined_from(lines: Seq<Seq<char>>, sep: Seq<char>, i: int) -> Seq<char>
    decreases lines.len() - i,
{
    if i < 0 || i >= lines.len() {
        Seq::empty()
    } else if i == 0 {
        lines[i] + joined_from(lines, sep, i + 1)
    } else {
        sep + lines[i] + joined_from(lines, sep, i + 1)
    }
}

/// The elements of `lines` with `sep` between each two.
pub open spec fn joined(lines: Seq<Seq<char>>, sep: Seq<char>) -> Seq<char> {
    joined_from(lines, sep, 0)
}

/// `text` broken at `width` columns, each line after the first indented by
/// two spaces.
pub open spec fn wrapped(text: Seq<char>, width: usize) -> Seq<char> {
    joined(wrapped_lines(text, width), "\n  "@)
}

/// `text` with its lines broken at `width` columns and the continuation
/// lines indented.
pub fn wrap_indented(text: &str, width: usize) -> (r: String)
    ensures
        r@ == wrapped(text@, width),
{
    let lines = wrap_lines(text, width);
    let ghost all = wrapped_lines(text@, width);
    let mut out = String::new();
    let mut i: usize = 0;
    while i < lines.len()
        invariant
            i <= lines.len(),
            texts(lines@) == all,
            out@ + joined_from(all, "\n  "@, i as int) =~= joined(all, "\n  "@),
        decreases lines.len() - i,
    {
        assert(texts(lines@)[i as int] == lines@[i as int]@);
        if i > 0 {
            out.append("\n  ");
        }
        out.append(lines[i].as_str());
        i += 1;
    }
    out
}

} // verus!
