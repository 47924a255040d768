//! The path safety check: a caller-supplied string may name a directory or a
//! file under the uploads root only if it is a single normal path component.

use vstd::prelude::*;
use vstd::std_specs::iter::IteratorSpec;

verus! {

/// The pieces of `s` between its separators `/`, in order. A string without
/// a separator is its own single segment; `n` separators give `n + 1`
/// segments, some of which may be empty.
pub open spec fn segments(s: Seq<char>) -> Seq<Seq<char>>
    decreases s.len(),
{
    if s.len() == 0 {
        seq![Seq::<char>::empty()]
    } else {
        let before = segments(s.drop_last());
        if s.last() == '/' {
            before.push(Seq::<char>::empty())
        } else {
            before.drop_last().push(before.last().push(s.last()))
        }
    }
}

/// The segment `.`, which names the current directory.
pub open spec fn is_current_dir(seg: Seq<char>) -> bool {
    seg.len() == 1 && seg[0] == '.'
}

/// The segment `..`, which names the parent directory.
pub open spec fn is_parent_dir(seg: Seq<char>) -> bool {
    seg.len() == 2 && seg[0] == '.' && seg[1] == '.'
}

/// A segment that is a normal path component: not empty, not `.`, not `..`.
pub open spec fn is_normal_segment(seg: Seq<char>) -> bool {
    seg.len() > 0 && !is_current_dir(seg) && !is_parent_dir(seg)
}

/// A segment that adds no component to a path when it is not the first one:
/// the empty segment left by a repeated or trailing separator, and `.`.
pub open spec fn is_skipped_segment(seg: Seq<char>) -> bool {
    seg.len() == 0 || is_current_dir(seg)
}

/// The segments `segs[0..n]` are those of a path with exactly one component,
/// a normal one: the first segment is normal (so the path has no root and
/// does not start with `.` or `..`), and every later one is skipped.
spec fn single_normal_prefix(segs: Seq<Seq<char>>, n: int) -> bool {
    &&& n > 0 ==> is_normal_segment(segs[0])
    &&& forall|j: int| 1 <= j < n ==> is_skipped_segment(#[trigger] segs[j])
}

/// One component of a path.
pub enum Component {
    /// The root, written as a leading separator.
    RootDir,
    /// The current directory, written as a leading `.`.
    CurDir,
    /// The parent directory, written as `..`.
    ParentDir,
    /// A name.
    Normal(Seq<char>),
}

/// The component that the segment at `j` stands for, if it stands for one.
/// An empty first segment before a separator is the root; `.` counts only
/// as the first segment; other empty segments and `.` are dropped.
pub open spec fn component_at(segs: Seq<Seq<char>>, j: int) -> Option<Component> {
    let seg = segs[j];
    if seg.len() == 0 {
        if j == 0 && segs.len() > 1 {
            Some(Component::RootDir)
        } else {
            None
        }
    } else if is_current_dir(seg) {
        if j == 0 {
            Some(Component::CurDir)
        } else {
            None
        }
    } else if is_parent_dir(seg) {
        Some(Component::ParentDir)
    } else {
        Some(Component::Normal(seg))
    }
}

/// The components that the first `n` segments stand for, in order.
pub open spec fn components_of(segs: Seq<Seq<char>>, n: int) -> Seq<Component>
    decreases n,
{
    if n <= 0 {
        Seq::<Component>::empty()
    } else {
        let earlier = components_of(segs, n - 1);
        match component_at(segs, n - 1) {
            Some(c) => earlier.push(c),
            None => earlier,
        }
    }
}

/// The components of the path `s`.
pub open spec fn components(s: Seq<char>) -> Seq<Component> {
    components_of(segments(s), segments(s).len() as int)
}

/// `s` decomposes into exactly one path component, and that component is
/// normal: not the root, not `.`, not `..`.
pub open spec fn is_single_normal_component(s: Seq<char>) -> bool {
    components(s).len() == 1 && components(s)[0] is Normal
}

/// The same in terms of segments: the first segment is normal and every
/// later one is dropped.
pub open spec fn has_single_normal_shape(s: Seq<char>) -> bool {
    let segs = segments(s);
    &&& is_normal_segment(segs[0])
    &&& forall|j: int| 1 <= j < segs.len() ==> is_skipped_segment(#[trigger] segs[j])
}

proof fn lemma_components_of_prefix(segs: Seq<Seq<char>>, n: int)
    requires
        1 <= n <= segs.len(),
    ensures
        component_at(segs, 0) matches Some(c) ==> components_of(segs, n).len() >= 1
            && components_of(segs, n)[0] == c,
        component_at(segs, 0) is None ==> components_of(segs, 1).len() == 0,
        component_at(segs, 0) is Some ==> (components_of(segs, n).len() == 1 <==> forall|j: int|
            1 <= j < n ==> is_skipped_segment(#[trigger] segs[j])),
    decreases n,
{
    reveal_with_fuel(components_of, 2);
    if n > 1 {
        lemma_components_of_prefix(segs, n - 1);
        if component_at(segs, 0) is Some {
            let earlier = components_of(segs, n - 1);
            if is_skipped_segment(segs[n - 1]) {
                assert(components_of(segs, n) == earlier);
            } else {
                assert(components_of(segs, n).len() == earlier.len() + 1);
            }
        }
    }
}

/// A path is a single normal component exactly when its first segment is
/// normal and every later segment is empty or `.`.
pub proof fn lemma_single_normal_shape(s: Seq<char>)
    ensures
        is_single_normal_component(s) == has_single_normal_shape(s),
{
    let segs = segments(s);
    lemma_segments_nonempty(s);
    lemma_components_of_prefix(segs, segs.len() as int);
    if component_at(segs, 0) is None {
        assert(segs.len() == 1);
    }
}

/// What a scan knows of the segment it is in.
#[derive(Clone, Copy, PartialEq, Eq, Structural)]
enum Shape {
    Empty,
    Dot,
    DotDot,
    Plain,
}

spec fn shape_of(seg: Seq<char>) -> Shape {
    if seg.len() == 0 {
        Shape::Empty
    } else if is_current_dir(seg) {
        Shape::Dot
    } else if is_parent_dir(seg) {
        Shape::DotDot
    } else {
        Shape::Plain
    }
}

/// `segments` never returns an empty sequence.
pub proof fn lemma_segments_nonempty(s: Seq<char>)
    ensures
        segments(s).len() >= 1,
    decreases s.len(),
{
    if s.len() > 0 {
        lemma_segments_nonempty(s.drop_last());
    }
}

/// `s` holds no separator.
pub open spec fn is_token(s: Seq<char>) -> bool {
    forall|k: int| 0 <= k < s.len() ==> s[k] != '/'
}

/// A string without a separator is its own single segment.
pub proof fn lemma_token_is_one_segment(s: Seq<char>)
    requires
        is_token(s),
    ensures
        segments(s) == seq![s],
    decreases s.len(),
{
    if s.len() == 0 {
        assert(s =~= Seq::<char>::empty());
        assert(segments(s) =~= seq![s]);
    } else {
        lemma_token_is_one_segment(s.drop_last());
        let before = segments(s.drop_last());
        assert(s[s.len() - 1] != '/');
        assert(before.len() == 1 && before[0] == s.drop_last());
        assert(before.last().push(s.last()) =~= s);
        assert(segments(s) == before.drop_last().push(before.last().push(s.last())));
        assert(segments(s) =~= seq![s]);
    }
}

/// Splitting distributes over a separator: the segments of `a/b` are those
/// of `a` followed by those of `b`.
pub proof fn lemma_segments_of_joined(a: Seq<char>, b: Seq<char>)
    ensures
        segments(a + seq!['/'] + b) =~= segments(a) + segments(b),
    decreases b.len(),
{
    let whole = a + seq!['/'] + b;
    lemma_segments_nonempty(a);
    lemma_segments_nonempty(b);
    if b.len() == 0 {
        assert(whole.drop_last() =~= a);
        assert(whole.last() == '/');
    } else {
        let shorter = a + seq!['/'] + b.drop_last();
        lemma_segments_of_joined(a, b.drop_last());
        lemma_segments_nonempty(b.drop_last());
        assert(whole.drop_last() =~= shorter);
        assert(whole.last() == b.last());
    }
}

/// The empty string is rejected.
pub proof fn lemma_empty_is_rejected()
    ensures
        !is_single_normal_component(Seq::<char>::empty()),
{
    lemma_single_normal_shape(Seq::<char>::empty());
}

/// A single plain token is accepted: a non-empty string without a
/// separator that is neither `.` nor `..`.
pub proof fn lemma_plain_token_is_accepted(s: Seq<char>)
    requires
        s.len() > 0,
        is_token(s),
        !is_current_dir(s),
        !is_parent_dir(s),
    ensures
        is_single_normal_component(s),
{
    lemma_token_is_one_segment(s);
    lemma_single_normal_shape(s);
}

/// A string with more than one path component is rejected: whatever stands
/// before a separator, if an accepted string follows it, the whole is not
/// accepted. With nothing before the separator this is a rooted path.
pub proof fn lemma_joined_is_rejected(a: Seq<char>, b: Seq<char>)
    requires
        is_single_normal_component(b),
    ensures
        !is_single_normal_component(a + seq!['/'] + b),
{
    lemma_segments_of_joined(a, b);
    lemma_segments_nonempty(a);
    lemma_segments_nonempty(b);
    lemma_single_normal_shape(b);
    lemma_single_normal_shape(a + seq!['/'] + b);
    let whole = segments(a + seq!['/'] + b);
    let at = segments(a).len() as int;
    assert(whole[at] == segments(b)[0]);
    assert(!is_skipped_segment(whole[at]));
}

/// A string with a segment `..` is rejected, wherever the segment stands.
pub proof fn lemma_parent_dir_is_rejected(s: Seq<char>, j: int)
    requires
        0 <= j < segments(s).len(),
        is_parent_dir(segments(s)[j]),
    ensures
        !is_single_normal_component(s),
{
    lemma_single_normal_shape(s);
    assert(!is_skipped_segment(segments(s)[j]));
    assert(!is_normal_segment(segments(s)[j]));
}

/// A string in which `..` stands between two separators, or between a
/// separator and an end of the string, is rejected.
pub proof fn lemma_traversal_is_rejected(a: Seq<char>, b: Seq<char>)
    ensures
        !is_single_normal_component(a + seq!['/'] + seq!['.', '.']),
        !is_single_normal_component(seq!['.', '.'] + seq!['/'] + b),
        !is_single_normal_component(a + seq!['/'] + (seq!['.', '.'] + seq!['/'] + b)),
        !is_single_normal_component(seq!['.', '.']),
{
    let up = seq!['.', '.'];
    lemma_token_is_one_segment(up);
    lemma_segments_nonempty(a);
    lemma_segments_nonempty(b);
    lemma_parent_dir_is_rejected(up, 0);
    lemma_segments_of_joined(a, up);
    lemma_parent_dir_is_rejected(a + seq!['/'] + up, segments(a).len() as int);
    lemma_segments_of_joined(up, b);
    lemma_parent_dir_is_rejected(up + seq!['/'] + b, 0);
    lemma_segments_of_joined(a, up + seq!['/'] + b);
    lemma_parent_dir_is_rejected(a + seq!['/'] + (up + seq!['/'] + b), segments(a).len() as int);
}

/// Whether `path` is safe to use as one path segment below the uploads root.
/// One pass over the characters.
pub fn path_is_valid(path: &str) -> (ok: bool)
    ensures
        ok == is_single_normal_component(path@),
{
    broadcast use vstd::string::group_string_axioms;

    let mut rest = path.chars();
    let ghost mut i: int = 0;
    let mut first: bool = true;
    let mut shape: Shape = Shape::Empty;
    let mut ok: bool = true;
    proof {
        assert(path@.take(0) =~= Seq::<char>::empty());
        assert(path@.skip(0) =~= path@);
    }
    loop
        invariant
            0 <= i <= path@.len(),
            rest.remaining() == path@.skip(i),
            segments(path@.take(i)).len() >= 1,
            first == (segments(path@.take(i)).len() == 1),
            shape == shape_of(segments(path@.take(i)).last()),
            ok == single_normal_prefix(segments(path@.take(i)), segments(path@.take(i)).len() - 1),
        ensures
            i == path@.len(),
        decreases path@.len() - i,
    {
        let next: Option<char> = rest.next();
        let c: char = match next {
            Some(c) => c,
            None => {
                break ;
            },
        };
        proof {
            assert(path@.skip(i)[0] == path@[i]);
            assert(path@.skip(i).drop_first() =~= path@.skip(i + 1));
            let prev = path@.take(i);
            let cur = path@.take(i + 1);
            assert(cur.drop_last() =~= prev);
            assert(cur.last() == c);
            let before = segments(prev);
            let after = segments(cur);
            if c == '/' {
                assert(after == before.push(Seq::<char>::empty()));
                assert(forall|j: int| 0 <= j < before.len() ==> after[j] == before[j]);
                assert(after[before.len() - 1] == before.last());
            } else {
                assert(after == before.drop_last().push(before.last().push(c)));
                assert(forall|j: int| 0 <= j < before.len() - 1 ==> after[j] == before[j]);
            }
            i = i + 1;
        }
        if c == '/' {
            let closes_well: bool = if first {
                shape == Shape::Plain
            } else {
                shape == Shape::Empty || shape == Shape::Dot
            };
            ok = ok && closes_well;
            first = false;
            shape = Shape::Empty;
        } else {
            shape = match shape {
                Shape::Empty => if c == '.' {
                    Shape::Dot
                } else {
                    Shape::Plain
                },
                Shape::Dot => if c == '.' {
                    Shape::DotDot
                } else {
                    Shape::Plain
                },
                _ => Shape::Plain,
            };
        }
    }
    proof {
        assert(path@.take(path@.len() as int) =~= path@);
        lemma_single_normal_shape(path@);
    }
    let closes_well: bool = if first {
        shape == Shape::Plain
    } else {
        shape == Shape::Empty || shape == Shape::Dot
    };
    ok && closes_well
}

} // verus!
