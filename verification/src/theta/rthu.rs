//! The thumbnail box: an opaque image payload, exported to a file
//! derived from the recording's path.
//!
//! Deriving the sibling path is the logic here; the actual file write
//! is plain I/O and lives with the caller.

use vstd::prelude::*;

verus! {

/// The thumbnail image payload, retained verbatim.
#[derive(Debug, PartialEq)]
pub struct RthuBox {
    pub data: Vec<u8>,
}

/// The index of the last occurrence of `c` in `s`, or -1 if absent.
pub open spec fn last_index_of(s: Seq<char>, c: char) -> int
    decreases s.len(),
{
    if s.len() == 0 {
        -1
    } else if s[s.len() - 1] == c {
        s.len() - 1
    } else {
        last_index_of(s.drop_last(), c)
    }
}

/// The stem of a base file name: the part before the final dot, the
/// whole name when there is no dot or when the only dot leads it, and
/// a fixed fallback for an empty name.
pub open spec fn spec_stem(base: Seq<char>) -> Seq<char> {
    if base.len() == 0 {
        "output"@
    } else {
        let d = last_index_of(base, '.');
        if d <= 0 {
            base
        } else {
            base.subrange(0, d)
        }
    }
}

/// The sibling path the thumbnail is written to: the input's directory
/// prefix, the input's file stem, and a fixed suffix.
pub open spec fn spec_thumbnail_path(s: Seq<char>) -> Seq<char> {
    let cut = last_index_of(s, '/') + 1;
    s.subrange(0, cut) + spec_stem(s.subrange(cut, s.len() as int)) + "_thumbnail.jfif"@
}

/// Derive the path of the exported thumbnail from the input file path:
/// a file named `<stem>_thumbnail.jfif` in the input's directory.
pub fn thumbnail_path(filename: &str) -> (r: String)
    ensures
        r@ == spec_thumbnail_path(filename@),
{
    let n = filename.unicode_len();
    let mut has_slash = false;
    let mut slashpos: usize = 0;
    let mut i: usize = 0;
    while i < n
        invariant
            n == filename@.len(),
            i <= n,
            !has_slash ==> last_index_of(filename@.subrange(0, i as int), '/') == -1,
            has_slash ==> slashpos < i && slashpos as int == last_index_of(
                filename@.subrange(0, i as int),
                '/',
            ),
        decreases n - i,
    {
        proof {
            assert(filename@.subrange(0, i as int + 1).drop_last() =~= filename@.subrange(
                0,
                i as int,
            ));
        }
        if filename.get_char(i) == '/' {
            has_slash = true;
            slashpos = i;
        }
        i += 1;
    }
    proof {
        assert(filename@.subrange(0, n as int) =~= filename@);
    }
    let cut: usize = if has_slash { slashpos + 1 } else { 0 };

    let mut has_dot = false;
    let mut dotpos: usize = 0;
    let mut j: usize = cut;
    while j < n
        invariant
            n == filename@.len(),
            cut <= j <= n,
            !has_dot ==> last_index_of(filename@.subrange(cut as int, j as int), '.') == -1,
            has_dot ==> cut <= dotpos < j && dotpos as int - cut as int == last_index_of(
                filename@.subrange(cut as int, j as int),
                '.',
            ),
        decreases n - j,
    {
        proof {
            assert(filename@.subrange(cut as int, j as int + 1).drop_last() =~= filename@.subrange(
                cut as int,
                j as int,
            ));
        }
        if filename.get_char(j) == '.' {
            has_dot = true;
            dotpos = j;
        }
        j += 1;
    }

    let mut out = filename.substring_char(0, cut).to_owned();
    if cut == n {
        out.append("output");
        proof {
            reveal_strlit("output");
            assert(filename@.subrange(cut as int, n as int).len() == 0);
        }
    } else if has_dot && dotpos > cut {
        out.append(filename.substring_char(cut, dotpos));
        proof {
            assert(filename@.subrange(cut as int, n as int).subrange(
                0,
                dotpos as int - cut as int,
            ) =~= filename@.subrange(cut as int, dotpos as int));
        }
    } else {
        out.append(filename.substring_char(cut, n));
    }
    out.append("_thumbnail.jfif");
    proof {
        assert(out@ =~= spec_thumbnail_path(filename@));
    }
    out
}

} // verus!
