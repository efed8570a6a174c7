//! Text helpers: comparing strings by content, decimal numerals, and the
//! paths of chunk files.

use vstd::prelude::*;
use vstd::string::*;
use vstd::utf8::*;

verus! {

/// Whether two strings hold the same characters.
pub fn str_eq(a: &str, b: &str) -> (r: bool)
    ensures
        r == (a@ == b@),
{
    let x = a.as_bytes();
    let y = b.as_bytes();
    proof {
        encode_utf8_decode_utf8(a@);
        encode_utf8_decode_utf8(b@);
    }
    if x.len() != y.len() {
        return false;
    }
    let mut i: usize = 0;
    while i < x.len()
        invariant
            x@.len() == y@.len(),
            0 <= i <= x@.len(),
            forall|j: int| 0 <= j < i ==> x@[j] == y@[j],
            x@ == a.spec_bytes(),
            y@ == b.spec_bytes(),
        decreases x@.len() - i,
    {
        if x[i] != y[i] {
            return false;
        }
        i += 1;
    }
    assert(x@ =~= y@);
    true
}

/// The numeral of one decimal digit.
pub open spec fn digit_text(d: nat) -> Seq<char> {
    if d == 0 {
        "0"@
    } else if d == 1 {
        "1"@
    } else if d == 2 {
        "2"@
    } else if d == 3 {
        "3"@
    } else if d == 4 {
        "4"@
    } else if d == 5 {
        "5"@
    } else if d == 6 {
        "6"@
    } else if d == 7 {
        "7"@
    } else if d == 8 {
        "8"@
    } else {
        "9"@
    }
}

/// The decimal numeral of a natural number, without leading zeros.
pub open spec fn decimal(n: nat) -> Seq<char>
    decreases n,
{
    if n < 10 {
        digit_text(n)
    } else {
        decimal(n / 10) + digit_text(n % 10)
    }
}

fn digit_str(d: u64) -> (r: &'static str)
    requires
        d < 10,
    ensures
        r@ == digit_text(d as nat),
{
    if d == 0 {
        "0"
    } else if d == 1 {
        "1"
    } else if d == 2 {
        "2"
    } else if d == 3 {
        "3"
    } else if d == 4 {
        "4"
    } else if d == 5 {
        "5"
    } else if d == 6 {
        "6"
    } else if d == 7 {
        "7"
    } else if d == 8 {
        "8"
    } else {
        "9"
    }
}

/// Appends the decimal numeral of `n` to `out`.
pub fn push_decimal(out: &mut String, n: u64)
    ensures
        final(out)@ == old(out)@ + decimal(n as nat),
    decreases n,
{
    if n >= 10 {
        push_decimal(out, n / 10);
    }
    out.append(digit_str(n % 10));
    assert(final(out)@ =~= old(out)@ + decimal(n as nat));
}

/// The text of a chunk file's name: `chunk_`, the index, a dot and the
/// extension.
pub open spec fn chunk_file_name(index: nat, extension: Seq<char>) -> Seq<char> {
    "chunk_"@ + decimal(index) + "."@ + extension
}

/// The path of the chunk `index` under the directory `dir` of the tree
/// rooted at `root`: `root/dir/chunk_<index>.<extension>`.
pub open spec fn chunk_path_text(
    root: Seq<char>,
    dir: Seq<char>,
    index: nat,
    extension: Seq<char>,
) -> Seq<char> {
    root + "/"@ + dir + "/"@ + chunk_file_name(index, extension)
}

/// Builds the path of a chunk file.
pub fn chunk_path(root: &str, dir: &str, index: u64, extension: &str) -> (r: String)
    ensures
        r@ == chunk_path_text(root@, dir@, index as nat, extension@),
{
    let mut out = root.to_owned();
    out.append("/");
    out.append(dir);
    out.append("/");
    out.append("chunk_");
    push_decimal(&mut out, index);
    out.append(".");
    out.append(extension);
    assert(out@ =~= chunk_path_text(root@, dir@, index as nat, extension@));
    out
}

} // verus!
