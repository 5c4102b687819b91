//! Validation of an asset's destination-relative path: the path must stay
//! strictly inside the destination root. The check walks the path's
//! segments, split on `/` alone, and tracks the resolved depth rather
//! than comparing string prefixes. A backslash is a separator on some
//! hosts and an ordinary name character on others, so any path containing
//! one is refused outright — under either reading it could otherwise name
//! a different file than the walk accounted for; drive-style segments
//! (containing `:`) are refused for the same reason.

use vstd::prelude::*;

verus! {

/// A path-segment separator. Only `/` separates: a backslash does not
/// separate on POSIX hosts, so it is refused below instead of split on.
pub open spec fn is_sep(c: char) -> bool {
    c == '/'
}

/// Index of the end of the path segment that starts at `i`.
pub open spec fn spec_seg_end(s: Seq<char>, i: int) -> int
    decreases s.len() - i,
{
    if 0 <= i < s.len() && !is_sep(s[i]) {
        spec_seg_end(s, i + 1)
    } else {
        i
    }
}

/// Whether a segment contains a character the check refuses outright:
/// `:` (a drive-style name) or `\` (read as a separator on some hosts).
pub open spec fn spec_seg_refused(seg: Seq<char>) -> bool {
    exists|k: int| 0 <= k < seg.len() && (seg[k] == ':' || seg[k] == '\\')
}

/// A segment that does not change the resolved depth.
pub open spec fn spec_seg_is_stay(seg: Seq<char>) -> bool {
    seg.len() == 0 || seg =~= seq!['.']
}

/// Depth of the resolved path after walking the segments from `i` on at
/// starting depth `depth`; `None` when a segment escapes the root or is
/// refused outright.
pub open spec fn spec_walk(s: Seq<char>, i: int, depth: int) -> Option<int>
    decreases s.len() - i,
{
    if i >= s.len() {
        Some(depth)
    } else {
        let e = spec_seg_end(s, i);
        let seg = s.subrange(i, e);
        let next = if spec_seg_refused(seg) {
            None
        } else if seg =~= seq!['.', '.'] {
            if depth <= 0 {
                None
            } else {
                Some(depth - 1)
            }
        } else if spec_seg_is_stay(seg) {
            Some(depth)
        } else {
            Some(depth + 1)
        };
        match next {
            None => None,
            Some(d2) => if e >= s.len() {
                Some(d2)
            } else if e < i {
                None
            } else {
                spec_walk(s, e + 1, d2)
            },
        }
    }
}

/// A relative path is safe when it is non-empty, does not begin with a
/// separator, contains no refused character, never walks above the
/// destination root, and ends at least one level inside it.
pub open spec fn spec_path_ok(s: Seq<char>) -> bool {
    &&& s.len() > 0
    &&& !is_sep(s[0])
    &&& match spec_walk(s, 0, 0) {
        Some(d) => d >= 1,
        None => false,
    }
}

fn char_is_sep(c: char) -> (r: bool)
    ensures
        r == is_sep(c),
{
    c == '/'
}

/// Decides whether an asset's relative path stays strictly inside the
/// destination root.
pub fn validate_path(p: &str) -> (r: bool)
    ensures
        r == spec_path_ok(p@),
{
    let n = p.unicode_len();
    if n == 0 {
        return false;
    }
    if char_is_sep(p.get_char(0)) {
        return false;
    }
    let mut i: usize = 0;
    let mut depth: usize = 0;
    loop
        invariant
            n == p@.len(),
            0 <= i <= n,
            depth <= i,
            spec_walk(p@, 0, 0) == spec_walk(p@, i as int, depth as int),
            n > 0 && !is_sep(p@[0]),
        decreases n - i,
    {
        if i >= n {
            return depth >= 1;
        }
        // scan one segment, tracking what classifies it
        let mut j: usize = i;
        let mut refused: bool = false;
        let mut all_dots: bool = true;
        while j < n && !char_is_sep(p.get_char(j))
            invariant
                n == p@.len(),
                i <= j <= n,
                spec_seg_end(p@, i as int) == spec_seg_end(p@, j as int),
                forall|k: int| i <= k < j ==> !is_sep(p@[k]),
                refused == exists|k: int| i <= k < j && (p@[k] == ':' || p@[k] == '\\'),
                all_dots == forall|k: int| i <= k < j ==> p@[k] == '.',
            decreases n - j,
        {
            let c = p.get_char(j);
            if c == ':' || c == '\\' {
                refused = true;
            }
            if c != '.' {
                all_dots = false;
            }
            j += 1;
        }
        let ghost e = spec_seg_end(p@, i as int);
        let ghost seg = p@.subrange(i as int, e);
        proof {
            assert(spec_seg_end(p@, j as int) == j);
            assert(e == j);
            assert(seg.len() == j - i);
            assert forall|k: int| 0 <= k < seg.len() implies seg[k] == p@[i + k] by {}
            assert(spec_seg_refused(seg) == refused) by {
                if refused {
                    let k = choose|k: int| i <= k < j && (p@[k] == ':' || p@[k] == '\\');
                    assert(seg[k - i] == ':' || seg[k - i] == '\\');
                }
                if spec_seg_refused(seg) {
                    let k = choose|k: int|
                        0 <= k < seg.len() && (seg[k] == ':' || seg[k] == '\\');
                    assert(p@[i + k] == ':' || p@[i + k] == '\\');
                }
            }
            if all_dots {
                if j - i == 1 {
                    assert(seg =~= seq!['.']);
                }
                if j - i == 2 {
                    assert(seg =~= seq!['.', '.']);
                }
            } else {
                let k = choose|k: int| i <= k < j && p@[k] != '.';
                assert(seg[k - i] != '.');
                if seg.len() == 1 {
                    assert(!(seg =~= seq!['.']));
                }
                if seg.len() == 2 {
                    assert(!(seg =~= seq!['.', '.']));
                }
            }
        }
        if refused {
            return false;
        }
        let seg_len = j - i;
        let is_dot = all_dots && seg_len == 1;
        let is_dotdot = all_dots && seg_len == 2;
        if is_dotdot {
            if depth == 0 {
                return false;
            }
            depth -= 1;
        } else if seg_len == 0 || is_dot {
            // depth unchanged
        } else {
            depth += 1;
        }
        if j >= n {
            return depth >= 1;
        }
        i = j + 1;
    }
}

} // verus!
