//! Paths as text: joining below the served directory, the extension of a file
//! name, and the test that a request stays inside the directory.

use vstd::prelude::*;
use vstd::string::StringExecFns;

verus! {

/// The name of the file that stands for a directory.
pub const INDEX_FILE: &'static str = "index.html";

/// The position of the last `c` in `s`, or -1 where there is none.
pub open spec fn last_index_of(s: Seq<char>, c: char) -> int
    decreases s.len(),
{
    if s.len() == 0 {
        -1
    } else if s.last() == c {
        s.len() - 1
    } else {
        last_index_of(s.drop_last(), c)
    }
}

/// `rel` below `base`: one separator between them, unless `base` is empty or
/// already ends in one.
pub open spec fn join_text(base: Seq<char>, rel: Seq<char>) -> Seq<char> {
    if base.len() == 0 {
        rel
    } else if base.last() == '/' {
        base + rel
    } else {
        base + seq!['/'] + rel
    }
}

/// The segments joined below `base`, one after the other.
pub open spec fn join_all_text(base: Seq<char>, segments: Seq<Seq<char>>) -> Seq<char>
    decreases segments.len(),
{
    if segments.len() == 0 {
        base
    } else {
        join_text(join_all_text(base, segments.drop_last()), segments.last())
    }
}

/// The last component of a path: what follows its last separator.
pub open spec fn file_name_text(path: Seq<char>) -> Seq<char> {
    path.subrange(last_index_of(path, '/') + 1, path.len() as int)
}

/// The extension of a path: what follows the last dot of its file name. A
/// name without a dot, or whose only dot is its first character, has the
/// empty extension.
pub open spec fn extension_text(path: Seq<char>) -> Seq<char> {
    let name = file_name_text(path);
    let dot = last_index_of(name, '.');
    if dot <= 0 {
        Seq::empty()
    } else {
        name.subrange(dot + 1, name.len() as int)
    }
}

/// How deep below the directory a walk stands after one more segment, or
/// `None` where the segment leaves the directory: `..` at depth 0, or a
/// segment that holds a separator.
pub open spec fn depth_step(depth: nat, segment: Seq<char>) -> Option<nat> {
    if segment.contains('/') {
        None
    } else if segment =~= seq!['.', '.'] {
        if depth == 0 {
            None
        } else {
            Some((depth - 1) as nat)
        }
    } else if segment.len() == 0 || segment =~= seq!['.'] {
        Some(depth)
    } else {
        Some(depth + 1)
    }
}

/// The depth below the directory after all the segments, or `None` where the
/// walk left the directory on the way.
pub open spec fn depth_after(segments: Seq<Seq<char>>) -> Option<nat>
    decreases segments.len(),
{
    if segments.len() == 0 {
        Some(0)
    } else {
        match depth_after(segments.drop_last()) {
            Some(d) => depth_step(d, segments.last()),
            None => None,
        }
    }
}

/// Whether a request stays inside the served directory at every step.
pub open spec fn stays_inside(segments: Seq<Seq<char>>) -> bool {
    depth_after(segments).is_some()
}

/// The segments of a request as text.
pub open spec fn segments_text(segments: Seq<String>) -> Seq<Seq<char>> {
    Seq::new(segments.len(), |i: int| segments[i]@)
}

/// Where nothing from `from` on is `c`, the last `c` of `s` is the last `c`
/// of what stands before `from`.
pub proof fn lemma_last_index_prefix(s: Seq<char>, c: char, from: int)
    requires
        0 <= from <= s.len(),
        forall|k: int| from <= k < s.len() ==> s[k] != c,
    ensures
        last_index_of(s, c) == last_index_of(s.subrange(0, from), c),
    decreases s.len(),
{
    if s.len() == from {
        assert(s.subrange(0, from) =~= s);
    } else {
        lemma_last_index_prefix(s.drop_last(), c, from);
        assert(s.drop_last().subrange(0, from) =~= s.subrange(0, from));
    }
}

/// The position just after the last `c` of `text`; 0 where there is none.
fn after_last(text: &str, c: char) -> (at: usize)
    ensures
        at == last_index_of(text@, c) + 1,
        at <= text@.len(),
{
    let n = text.unicode_len();
    let mut at = n;
    while at > 0 && text.get_char(at - 1) != c
        invariant
            at <= n,
            n == text@.len(),
            forall|k: int| at <= k < n ==> text@[k] != c,
        decreases at,
    {
        at -= 1;
    }
    proof {
        lemma_last_index_prefix(text@, c, at as int);
    }
    at
}

/// `rel` below `base`.
pub fn join(base: &str, rel: &str) -> (joined: String)
    ensures
        joined@ == join_text(base@, rel@),
{
    let n = base.unicode_len();
    let mut joined = String::from_str(base);
    if n > 0 && base.get_char(n - 1) != '/' {
        proof {
            reveal_strlit("/");
        }
        joined.append("/");
        assert(joined@ =~= base@ + seq!['/']);
    }
    joined.append(rel);
    assert(joined@ =~= join_text(base@, rel@));
    joined
}

/// The extension of a path, empty where its file name has none.
pub fn extension_of(path: &str) -> (ext: &str)
    ensures
        ext@ == extension_text(path@),
{
    let n = path.unicode_len();
    let start = after_last(path, '/');
    let name = path.substring_char(start, n);
    let m = n - start;
    let dot = after_last(name, '.');
    if dot <= 1 {
        let none = name.substring_char(m, m);
        assert(none@ =~= Seq::<char>::empty());
        none
    } else {
        name.substring_char(dot, m)
    }
}

/// Whether a segment holds a separator.
fn has_separator(segment: &str) -> (r: bool)
    ensures
        r == segment@.contains('/'),
{
    let n = segment.unicode_len();
    let mut i: usize = 0;
    while i < n
        invariant
            i <= n,
            n == segment@.len(),
            forall|k: int| 0 <= k < i ==> segment@[k] != '/',
        decreases n - i,
    {
        if segment.get_char(i) == '/' {
            return true;
        }
        i += 1;
    }
    false
}

/// One step of the walk below the directory.
fn step_depth(depth: usize, segment: &str) -> (next: Option<usize>)
    requires
        depth < usize::MAX,
    ensures
        (match next {
            Some(d) => Some(d as nat),
            None => None,
        }) == depth_step(depth as nat, segment@),
{
    if has_separator(segment) {
        return None;
    }
    let n = segment.unicode_len();
    if n == 2 && segment.get_char(0) == '.' && segment.get_char(1) == '.' {
        if depth == 0 {
            None
        } else {
            Some(depth - 1)
        }
    } else if n == 0 || (n == 1 && segment.get_char(0) == '.') {
        Some(depth)
    } else {
        Some(depth + 1)
    }
}

/// Whether a request, given by its segments, stays inside the served
/// directory at every step.
pub fn is_inside(segments: &Vec<String>) -> (r: bool)
    ensures
        r == stays_inside(segments_text(segments@)),
{
    let ghost all = segments_text(segments@);
    let mut depth: usize = 0;
    let mut i: usize = 0;
    while i < segments.len()
        invariant
            i <= segments.len(),
            all == segments_text(segments@),
            depth <= i,
            depth_after(all.subrange(0, i as int)) == Some(depth as nat),
        decreases segments.len() - i,
    {
        proof {
            let upto = all.subrange(0, i + 1);
            assert(upto.drop_last() =~= all.subrange(0, i as int));
            assert(upto.last() == segments@[i as int]@);
        }
        match step_depth(depth, segments[i].as_str()) {
            Some(d) => {
                depth = d;
            },
            None => {
                proof {
                    lemma_leaving_is_final(all, i + 1);
                }
                return false;
            },
        }
        i += 1;
    }
    assert(all.subrange(0, i as int) =~= all);
    true
}

/// A walk that has left the directory stays outside, whatever follows.
proof fn lemma_leaving_is_final(segments: Seq<Seq<char>>, upto: int)
    requires
        0 <= upto <= segments.len(),
        depth_after(segments.subrange(0, upto)).is_none(),
    ensures
        depth_after(segments).is_none(),
    decreases segments.len(),
{
    if segments.len() == upto {
        assert(segments.subrange(0, upto) =~= segments);
    } else {
        assert(segments.drop_last().subrange(0, upto) =~= segments.subrange(0, upto));
        lemma_leaving_is_final(segments.drop_last(), upto);
    }
}

/// The segments joined below `base`, one after the other.
pub fn join_all(base: &str, segments: &Vec<String>) -> (joined: String)
    ensures
        joined@ == join_all_text(base@, segments_text(segments@)),
{
    let ghost all = segments_text(segments@);
    let mut joined = String::from_str(base);
    let mut i: usize = 0;
    while i < segments.len()
        invariant
            i <= segments.len(),
            all == segments_text(segments@),
            joined@ == join_all_text(base@, all.subrange(0, i as int)),
        decreases segments.len() - i,
    {
        proof {
            let upto = all.subrange(0, i + 1);
            assert(upto.drop_last() =~= all.subrange(0, i as int));
            assert(upto.last() == segments@[i as int]@);
        }
        joined = join(joined.as_str(), segments[i].as_str());
        i += 1;
    }
    assert(all.subrange(0, i as int) =~= all);
    joined
}

} // verus!
