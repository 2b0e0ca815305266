//! Path lists: texts such as the value of `PATH`, which hold an ordered list
//! of directories with a separator between them.

use crate::text::text_eq;
use vstd::prelude::*;
use vstd::std_specs::iter::IteratorSpec;

verus! {

/// The character that stands between the segments of a path list.
pub const PATH_LIST_SEPARATOR: char = ':';

/// The segments of the path list `s`, in order. Reading `s` from left to
/// right, a separator closes the current segment and opens a new, empty one,
/// and any other character extends the current segment. There is always at
/// least one segment: the empty text holds one empty segment.
pub open spec fn path_segments(s: Seq<char>) -> Seq<Seq<char>>
    decreases s.len(),
{
    if s.len() == 0 {
        seq![Seq::empty()]
    } else {
        let before = path_segments(s.drop_last());
        if s.last() == PATH_LIST_SEPARATOR {
            before.push(Seq::empty())
        } else {
            before.update(before.len() - 1, before.last().push(s.last()))
        }
    }
}

/// The texts of `parts` one after the other, with `sep` between each two.
pub open spec fn join_with(parts: Seq<Seq<char>>, sep: Seq<char>) -> Seq<char>
    decreases parts.len(),
{
    if parts.len() == 0 {
        Seq::empty()
    } else if parts.len() == 1 {
        parts[0]
    } else {
        join_with(parts.drop_last(), sep) + sep + parts.last()
    }
}

/// The path list that holds `segments`.
pub open spec fn path_list_of(segments: Seq<Seq<char>>) -> Seq<char> {
    join_with(segments, seq![PATH_LIST_SEPARATOR])
}

/// `segment` holds no separator.
pub open spec fn is_segment(segment: Seq<char>) -> bool {
    forall|i: int| 0 <= i < segment.len() ==> #[trigger] segment[i] != PATH_LIST_SEPARATOR
}

/// Every path list has at least one segment, and no segment holds a
/// separator.
pub proof fn lemma_path_segments_shape(s: Seq<char>)
    ensures
        path_segments(s).len() >= 1,
        forall|k: int| 0 <= k < path_segments(s).len() ==> is_segment(#[trigger] path_segments(s)[k]),
    decreases s.len(),
{
    if s.len() > 0 {
        lemma_path_segments_shape(s.drop_last());
    }
}

/// Splitting loses nothing: the segments of `s`, joined by the separator,
/// are `s` again.
pub proof fn lemma_split_then_join(s: Seq<char>)
    ensures
        path_list_of(path_segments(s)) == s,
    decreases s.len(),
{
    if s.len() == 0 {
        assert(path_list_of(path_segments(s)) =~= s);
    } else {
        let t = s.drop_last();
        let before = path_segments(t);
        let after = path_segments(s);
        lemma_path_segments_shape(t);
        lemma_split_then_join(t);
        assert(t.push(s.last()) =~= s);
        if s.last() == PATH_LIST_SEPARATOR {
            assert(after.drop_last() =~= before);
            assert(path_list_of(after) =~= s);
        } else if before.len() == 1 {
            assert(path_list_of(after) =~= s);
        } else {
            assert(after.drop_last() =~= before.drop_last());
            assert(path_list_of(after) =~= s);
        }
    }
}

/// Joining then splitting gives the segments back: a path list made of
/// separator-free segments, at least one, has exactly those segments.
pub proof fn lemma_join_then_split(segments: Seq<Seq<char>>)
    requires
        segments.len() >= 1,
        forall|k: int| 0 <= k < segments.len() ==> is_segment(#[trigger] segments[k]),
    ensures
        path_segments(path_list_of(segments)) == segments,
    decreases segments.len(),
{
    let last = segments.last();
    if segments.len() == 1 {
        lemma_segment_alone(last);
        assert(seq![last] =~= segments);
    } else {
        let front = segments.drop_last();
        lemma_join_then_split(front);
        let head = path_list_of(front) + seq![PATH_LIST_SEPARATOR];
        assert(head.drop_last() =~= path_list_of(front));
        assert(path_segments(head) == front.push(Seq::empty()));
        lemma_segment_appended(head, last);
        assert(front.push(Seq::empty()).update(front.len() as int, Seq::empty() + last)
            =~= segments);
    }
}

/// A separator-free text is a path list of one segment, itself.
proof fn lemma_segment_alone(segment: Seq<char>)
    requires
        is_segment(segment),
    ensures
        path_segments(segment) == seq![segment],
    decreases segment.len(),
{
    if segment.len() == 0 {
        assert(segment =~= Seq::<char>::empty());
    } else {
        lemma_segment_alone(segment.drop_last());
        assert(segment.drop_last().push(segment.last()) =~= segment);
        assert(path_segments(segment) =~= seq![segment]);
    }
}

/// Separator-free text behind a path list extends its last segment.
proof fn lemma_segment_appended(s: Seq<char>, tail: Seq<char>)
    requires
        is_segment(tail),
    ensures
        path_segments(s + tail) == path_segments(s).update(
            path_segments(s).len() - 1,
            path_segments(s).last() + tail,
        ),
    decreases tail.len(),
{
    lemma_path_segments_shape(s);
    let segs = path_segments(s);
    if tail.len() == 0 {
        assert(s + tail =~= s);
        assert(segs.last() + tail =~= segs.last());
        assert(segs.update(segs.len() - 1, segs.last()) =~= segs);
    } else {
        let front = tail.drop_last();
        lemma_segment_appended(s, front);
        assert((s + tail).drop_last() =~= s + front);
        assert((s + tail).last() == tail.last());
        assert((segs.last() + front).push(tail.last()) =~= segs.last() + tail);
        assert(path_segments(s + tail) =~= segs.update(segs.len() - 1, segs.last() + tail));
    }
}

/// Splits the path list `value` into its segments.
pub fn split_path_list(value: &str) -> (segments: Vec<String>)
    ensures
        segments.deep_view() == path_segments(value@),
{
    let mut done: Vec<String> = Vec::new();
    let mut current = String::new();
    let mut chars = value.chars();
    let ghost mut n: int = 0;
    assert(value@.take(0) =~= Seq::<char>::empty());
    assert(done.deep_view().push(current@) =~= seq![Seq::<char>::empty()]);
    loop
        invariant
            chars.obeys_prophetic_iter_laws(),
            0 <= n <= value@.len(),
            chars.remaining() == value@.skip(n),
            done.deep_view().push(current@) == path_segments(value@.take(n)),
        decreases value@.len() - n,
    {
        match chars.next() {
            None => {
                assert(value@.take(n) =~= value@);
                let ghost before = done.deep_view();
                done.push(current);
                assert(done.deep_view() =~= before.push(current@));
                return done;
            },
            Some(ch) => {
                let ghost before = done.deep_view();
                let ghost open = current@;
                proof {
                    assert(ch == value@[n]);
                    assert(value@.skip(n).drop_first() =~= value@.skip(n + 1));
                    assert(value@.take(n + 1).drop_last() =~= value@.take(n));
                    assert(value@.take(n + 1).last() == ch);
                }
                if ch == PATH_LIST_SEPARATOR {
                    done.push(current);
                    current = String::new();
                    assert(done.deep_view() =~= before.push(open));
                    assert(done.deep_view().push(current@) =~= before.push(open).push(
                        Seq::empty(),
                    ));
                } else {
                    current.push(ch);
                    assert(before.push(current@) =~= before.push(open).update(
                        before.len() as int,
                        open.push(ch),
                    ));
                }
                proof {
                    n = n + 1;
                }
            },
        }
    }
}

/// Whether `dir` is one of the segments of the path list `path_list`.
pub fn is_dir_in_path(dir: &str, path_list: &str) -> (found: bool)
    ensures
        found == path_segments(path_list@).contains(dir@),
{
    let segments = split_path_list(path_list);
    let mut i: usize = 0;
    while i < segments.len()
        invariant
            0 <= i <= segments.len(),
            segments.deep_view() == path_segments(path_list@),
            forall|k: int| 0 <= k < i ==> path_segments(path_list@)[k] != dir@,
        decreases segments.len() - i,
    {
        assert(segments.deep_view()[i as int] == segments[i as int]@);
        if text_eq(segments[i].as_str(), dir) {
            return true;
        }
        i += 1;
    }
    assert(segments.deep_view().len() == segments.len());
    false
}

} // verus!
