//! Destination-path handling for unpacking.
//!
//! Entry names use the archive's native `/` separator; destination paths use
//! the host's `\` separator and are written under the verbatim (`\\?\`) path
//! form, which is exempt from the host's legacy short-path length limit.
//! Paths are handled as byte strings; separator bytes never occur inside a
//! multi-byte character, so byte-level translation is exact.

use vstd::prelude::*;

verus! {

/// The archive-native separator.
pub const ARCHIVE_SEP: u8 = 47;

/// The host separator.
pub const HOST_SEP: u8 = 92;

/// True exactly when an entry name denotes a directory: it is non-empty and
/// ends with the archive separator.
pub open spec fn spec_is_dir_name(name: Seq<u8>) -> bool {
    name.len() > 0 && name.last() == ARCHIVE_SEP
}

/// Decides whether an entry name denotes a directory (trailing `/`).
pub fn is_dir_name(name: &Vec<u8>) -> (r: bool)
    ensures
        r == spec_is_dir_name(name@),
{
    name.len() > 0 && name[name.len() - 1] == ARCHIVE_SEP
}

/// The name with every archive separator replaced by the host separator;
/// all other bytes are unchanged.
pub open spec fn spec_translate(name: Seq<u8>) -> Seq<u8> {
    name.map_values(|b: u8| if b == ARCHIVE_SEP { HOST_SEP } else { b })
}

/// Replaces every archive separator with the host separator.
pub fn translate_separators(name: &Vec<u8>) -> (r: Vec<u8>)
    ensures
        r@ == spec_translate(name@),
{
    let mut out: Vec<u8> = Vec::new();
    let mut i: usize = 0;
    while i < name.len()
        invariant
            i <= name@.len(),
            out@.len() == i,
            forall|j: int|
                0 <= j < i ==> out@[j] == (if name@[j] == ARCHIVE_SEP {
                    HOST_SEP
                } else {
                    name@[j]
                }),
        decreases name@.len() - i,
    {
        let b = name[i];
        if b == ARCHIVE_SEP {
            out.push(HOST_SEP);
        } else {
            out.push(b);
        }
        i = i + 1;
    }
    proof {
        assert(out@ =~= spec_translate(name@));
    }
    out
}

/// Joining a relative path to a base: the two joined by one host separator,
/// except that an empty side contributes nothing and a base that already ends
/// with a separator gets no second one. Verbatim paths are not normalized by
/// the host, so the separator must be placed exactly once.
pub open spec fn spec_join(base: Seq<u8>, rel: Seq<u8>) -> Seq<u8> {
    if rel.len() == 0 {
        base
    } else if base.len() == 0 {
        rel
    } else if base.last() == HOST_SEP {
        base + rel
    } else {
        base + seq![HOST_SEP] + rel
    }
}

/// Joins a relative path to a base path.
pub fn join(base: &Vec<u8>, rel: &Vec<u8>) -> (r: Vec<u8>)
    ensures
        r@ == spec_join(base@, rel@),
{
    if rel.len() == 0 {
        return base.clone();
    }
    if base.len() == 0 {
        return rel.clone();
    }
    let mut out = base.clone();
    if base[base.len() - 1] != HOST_SEP {
        out.push(HOST_SEP);
    }
    out.extend_from_slice(rel.as_slice());
    proof {
        if base@.last() == HOST_SEP {
            assert(out@ =~= base@ + rel@);
        } else {
            assert(out@ =~= base@ + seq![HOST_SEP] + rel@);
        }
    }
    out
}

/// The index of the last host separator in `p`, or `-1` if there is none.
pub open spec fn last_sep(p: Seq<u8>) -> int
    decreases p.len(),
{
    if p.len() == 0 {
        -1
    } else if p.last() == HOST_SEP {
        p.len() - 1
    } else {
        last_sep(p.drop_last())
    }
}

/// The parent of a path: everything before the last host separator, or the
/// empty path when the path has no separator.
pub open spec fn spec_parent(p: Seq<u8>) -> Seq<u8> {
    if last_sep(p) >= 0 {
        p.take(last_sep(p))
    } else {
        Seq::empty()
    }
}

/// `last_sep` is within bounds, marks a separator, and nothing after it is one.
proof fn lemma_last_sep(p: Seq<u8>)
    ensures
        -1 <= last_sep(p) < p.len(),
        last_sep(p) >= 0 ==> p[last_sep(p)] == HOST_SEP,
        forall|j: int| last_sep(p) < j < p.len() ==> p[j] != HOST_SEP,
    decreases p.len(),
{
    if p.len() > 0 && p.last() != HOST_SEP {
        lemma_last_sep(p.drop_last());
        assert(forall|j: int|
            last_sep(p) < j < p.len() - 1 ==> p[j] == p.drop_last()[j] && p[j] != HOST_SEP);
    }
}

/// Returns the parent of a path.
pub fn parent_of(p: &Vec<u8>) -> (r: Vec<u8>)
    ensures
        r@ == spec_parent(p@),
{
    proof {
        lemma_last_sep(p@);
    }
    let mut i: usize = p.len();
    while i > 0
        invariant
            i <= p@.len(),
            forall|j: int| i <= j < p@.len() ==> p@[j] != HOST_SEP,
        decreases i,
    {
        if p[i - 1] == HOST_SEP {
            proof {
                assert(last_sep(p@) == i - 1) by {
                    lemma_last_sep(p@);
                };
            }
            let mut out: Vec<u8> = Vec::new();
            let mut k: usize = 0;
            while k < i - 1
                invariant
                    k <= i - 1 < p@.len(),
                    out@ =~= p@.take(k as int),
                decreases i - 1 - k,
            {
                out.push(p[k]);
                proof {
                    assert(out@ =~= p@.take(k + 1));
                }
                k = k + 1;
            }
            return out;
        }
        i = i - 1;
    }
    proof {
        assert(last_sep(p@) == -1) by {
            lemma_last_sep(p@);
        };
    }
    Vec::new()
}

/// The verbatim path prefix `\\?\`.
pub open spec fn verbatim_prefix() -> Seq<u8> {
    seq![HOST_SEP, HOST_SEP, 63u8, HOST_SEP]
}

/// True when the path already begins with the verbatim prefix.
pub open spec fn spec_is_verbatim(p: Seq<u8>) -> bool {
    p.len() >= 4 && p.take(4) == verbatim_prefix()
}

/// The path in verbatim form: unchanged when it already carries the `\\?\`
/// prefix, otherwise with that prefix prepended.
pub open spec fn spec_to_verbatim(p: Seq<u8>) -> Seq<u8> {
    if spec_is_verbatim(p) {
        p
    } else {
        verbatim_prefix() + p
    }
}

/// Resolves a destination root to its verbatim form, exempt from the host's
/// legacy short-path length limit.
pub fn to_verbatim(p: &Vec<u8>) -> (r: Vec<u8>)
    ensures
        r@ == spec_to_verbatim(p@),
{
    let already = p.len() >= 4 && p[0] == HOST_SEP && p[1] == HOST_SEP && p[2] == 63 && p[3]
        == HOST_SEP;
    proof {
        if p@.len() >= 4 {
            assert(already == (p@.take(4) =~= verbatim_prefix()));
        }
    }
    if already {
        return p.clone();
    }
    let mut out: Vec<u8> = Vec::new();
    out.push(HOST_SEP);
    out.push(HOST_SEP);
    out.push(63);
    out.push(HOST_SEP);
    out.extend_from_slice(p.as_slice());
    proof {
        assert(out@ =~= verbatim_prefix() + p@);
    }
    out
}

} // verus!
