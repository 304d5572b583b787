//! Paths as text. Components are separated by `/`; a path that begins with
//! `/` is absolute.

use crate::text::{chars_of, matches_at};
use vstd::prelude::*;
use vstd::string::StrSliceExecFns;
use vstd::string::StringExecFns;

verus! {

/// The extension that marks a manifest, with its dot.
pub open spec fn manifest_suffix() -> Seq<char> {
    seq!['.', 'c', 'o', 'r', 'e']
}

/// What is appended to a directory's stem to name its archive.
pub open spec fn archive_suffix() -> Seq<char> {
    seq!['.', 't', 'a', 'r', '.', 'g', 'z']
}

/// Whether `p` begins at the root.
pub open spec fn is_absolute(p: Seq<char>) -> bool {
    p.len() > 0 && p[0] == '/'
}

/// `name` below `base`: an absolute `name` stands alone, otherwise it follows
/// `base`, with a separator between the two unless `base` is empty or ends in
/// one.
pub open spec fn joined(base: Seq<char>, name: Seq<char>) -> Seq<char> {
    if is_absolute(name) {
        name
    } else if base.len() == 0 || base.last() == '/' {
        base + name
    } else {
        base + seq!['/'] + name
    }
}

/// The index of the last `c` in `s`, or -1 where `s` holds none.
pub open spec fn last_index_of(s: Seq<char>, c: char) -> int
    decreases s.len(),
{
    if s.len() == 0 {
        -1
    } else if s.last() == c {
        s.len() - 1
    } else {
        last_index_of(s.drop_last(), c)
    }
}

/// `p` without the separators at its end.
pub open spec fn bare(p: Seq<char>) -> Seq<char>
    decreases p.len(),
{
    if p.len() > 0 && p.last() == '/' {
        bare(p.drop_last())
    } else {
        p
    }
}

/// The name at the end of `p`: what follows the last separator, separators
/// at the end of `p` left aside; empty where `p` holds nothing but
/// separators.
pub open spec fn final_component(p: Seq<char>) -> Seq<char> {
    let q = bare(p);
    q.skip(last_index_of(q, '/') + 1)
}

/// Whether a file of this name is a manifest: the name ends in the manifest
/// extension and something stands before it.
pub open spec fn manifest_name(name: Seq<char>) -> bool {
    name.len() > manifest_suffix().len() && manifest_suffix().is_suffix_of(name)
}

/// A file name without its extension: what stands before the last dot. A name
/// without a dot, or with its only dot in front, is its own stem.
pub open spec fn stem(name: Seq<char>) -> Seq<char> {
    let dot = last_index_of(name, '.');
    if dot > 0 {
        name.take(dot)
    } else {
        name
    }
}

/// The archive of the directory `dir`: beside it, named by the stem of its
/// final component and the archive suffix. Separators at the end of `dir`
/// are left aside.
pub open spec fn archive_of(dir: Seq<char>) -> Seq<char> {
    let q = bare(dir);
    let start = last_index_of(q, '/') + 1;
    q.take(start) + stem(q.skip(start)) + archive_suffix()
}

/// Below one directory, two names lead to different files if both begin at
/// the root or neither does.
pub proof fn lemma_join_tells_the_name(base: Seq<char>, a: Seq<char>, b: Seq<char>)
    requires
        is_absolute(a) == is_absolute(b),
        joined(base, a) == joined(base, b),
    ensures
        a == b,
{
    if !is_absolute(a) {
        let front = if base.len() == 0 || base.last() == '/' {
            base
        } else {
            base + seq!['/']
        };
        assert(joined(base, a) =~= front + a);
        assert(joined(base, b) =~= front + b);
        assert(a =~= (front + a).skip(front.len() as int));
        assert(b =~= (front + b).skip(front.len() as int));
    }
}

/// Finds the last `c` from `start` on and before `end`.
fn find_last(chars: &Vec<char>, c: char, start: usize, end: usize) -> (r: Option<usize>)
    requires
        start <= end <= chars.len(),
    ensures
        match r {
            Some(i) => start <= i < end && last_index_of(
                chars@.subrange(start as int, end as int),
                c,
            ) == i - start,
            None => last_index_of(chars@.subrange(start as int, end as int), c) == -1,
        },
{
    let mut j: usize = end;
    while j > start
        invariant
            start <= j <= end <= chars.len(),
            last_index_of(chars@.subrange(start as int, end as int), c) == last_index_of(
                chars@.subrange(start as int, j as int),
                c,
            ),
        decreases j,
    {
        if chars[j - 1] == c {
            return Some(j - 1);
        }
        assert(chars@.subrange(start as int, j as int).drop_last() =~= chars@.subrange(
            start as int,
            j - 1,
        ));
        j -= 1;
    }
    None
}

/// Finds where the separators at the end of `chars` begin.
fn bare_length(chars: &Vec<char>) -> (end: usize)
    ensures
        end <= chars.len(),
        bare(chars@) == chars@.take(end as int),
{
    let mut end: usize = chars.len();
    assert(chars@.take(end as int) =~= chars@);
    while end > 0 && chars[end - 1] == '/'
        invariant
            end <= chars.len(),
            bare(chars@) == bare(chars@.take(end as int)),
        decreases end,
    {
        assert(chars@.take(end as int).drop_last() =~= chars@.take(end - 1));
        end -= 1;
    }
    end
}

/// Finds where the name at the end of `chars` begins and where it ends.
fn name_bounds(chars: &Vec<char>) -> (r: (usize, usize))
    ensures
        r.0 <= r.1 <= chars.len(),
        bare(chars@) == chars@.take(r.1 as int),
        r.0 == last_index_of(bare(chars@), '/') + 1,
        final_component(chars@) == chars@.subrange(r.0 as int, r.1 as int),
{
    let end = bare_length(chars);
    assert(chars@.take(end as int) =~= chars@.subrange(0, end as int));
    let start = match find_last(chars, '/', 0, end) {
        Some(i) => i + 1,
        None => 0,
    };
    assert(chars@.take(end as int).skip(start as int) =~= chars@.subrange(
        start as int,
        end as int,
    ));
    (start, end)
}

/// Joins `name` to `base`.
pub fn join_path(base: &str, name: &str) -> (r: String)
    ensures
        r@ == joined(base@, name@),
{
    let b = chars_of(base);
    let n = chars_of(name);
    if n.len() > 0 && n[0] == '/' {
        return String::from_str(name);
    }
    let mut r = String::from_str(base);
    if b.len() > 0 && b[b.len() - 1] != '/' {
        proof {
            reveal_strlit("/");
        }
        r.append("/");
        assert(r@ =~= base@ + seq!['/']);
    }
    r.append(name);
    r
}

/// Resolves a path given on the command line: an absolute one stands as it
/// is, any other is taken below `current_dir`.
pub fn string_to_path(val: String, current_dir: &str) -> (r: String)
    ensures
        r@ == if is_absolute(val@) {
            val@
        } else {
            joined(current_dir@, val@)
        },
{
    join_path(current_dir, val.as_str())
}

/// Whether the file at `path` is a manifest, going by its name.
pub fn is_manifest_file(path: &str) -> (r: bool)
    ensures
        r == manifest_name(final_component(path@)),
{
    let chars = chars_of(path);
    let (start, end) = name_bounds(&chars);
    if end - start <= 5 {
        return false;
    }
    let suffix: Vec<char> = vec!['.', 'c', 'o', 'r', 'e'];
    assert(suffix@ =~= manifest_suffix());
    let r = matches_at(&chars, &suffix, end - 5);
    proof {
        let name = final_component(path@);
        assert(name.subrange(name.len() - 5, name.len() as int) =~= chars@.subrange(
            end - 5,
            end as int,
        ));
    }
    r
}

/// The name at the end of `path`.
pub fn last_component(path: &str) -> (r: String)
    ensures
        r@ == final_component(path@),
{
    let chars = chars_of(path);
    let (start, end) = name_bounds(&chars);
    String::from_str(path.substring_char(start, end))
}

/// Names the archive of the directory `dir`.
pub fn archive_path(dir: &str) -> (r: String)
    ensures
        r@ == archive_of(dir@),
{
    let chars = chars_of(dir);
    let (start, end) = name_bounds(&chars);
    let stem_end = match find_last(&chars, '.', start, end) {
        Some(i) => if i > start {
            i
        } else {
            end
        },
        None => end,
    };
    let mut r = String::from_str(dir.substring_char(0, stem_end));
    proof {
        reveal_strlit(".tar.gz");
        let q = bare(dir@);
        let name = q.skip(start as int);
        assert(name =~= chars@.subrange(start as int, end as int));
        assert(dir@.subrange(0, stem_end as int) =~= q.take(start as int) + stem(name)) by {
            if stem_end < end {
                assert(stem(name) =~= name.take(stem_end - start));
            } else {
                assert(stem(name) =~= name);
            }
        }
    }
    r.append(".tar.gz");
    assert(".tar.gz"@ =~= archive_suffix());
    r
}

} // verus!
