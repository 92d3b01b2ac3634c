//! Logical locations: a path is the sequence of its segments, root first.

use vstd::prelude::*;
use vstd::std_specs::iter::IteratorSpec;

verus! {

/// The number of characters at the front of `s` that come before its first
/// `/`; all of `s` where it holds none.
pub open spec fn leading_segment_len(s: Seq<char>) -> nat
    decreases s.len(),
{
    if s.len() == 0 || s[0] == '/' {
        0
    } else {
        1 + leading_segment_len(s.skip(1))
    }
}

/// The segments of a path string: the maximal runs of characters between
/// separators, in order. Empty runs (a leading, trailing or doubled `/`) give
/// no segment.
pub open spec fn split_segments(s: Seq<char>) -> Seq<Seq<char>>
    decreases s.len(),
{
    if s.len() == 0 {
        Seq::empty()
    } else {
        let n = leading_segment_len(s);
        if n == 0 {
            split_segments(s.skip(1))
        } else if n >= s.len() {
            seq![s]
        } else {
            seq![s.take(n as int)] + split_segments(s.skip(n as int + 1))
        }
    }
}

/// Every segment behind its own `/`, one after the other.
pub open spec fn slashed_segments(segments: Seq<Seq<char>>) -> Seq<char>
    decreases segments.len(),
{
    if segments.len() == 0 {
        Seq::empty()
    } else {
        slashed_segments(segments.drop_last()) + seq!['/'] + segments.last()
    }
}

/// The string form of a path: `/` alone for the root, else each segment
/// behind a `/`.
pub open spec fn render_segments(segments: Seq<Seq<char>>) -> Seq<char> {
    if segments.len() == 0 {
        seq!['/']
    } else {
        slashed_segments(segments)
    }
}

/// The views of a vector of strings, element by element.
pub open spec fn string_views(strings: Seq<String>) -> Seq<Seq<char>> {
    strings.map_values(|s: String| s@)
}

/// Where the first `k` characters of `s` hold no separator and a separator or
/// the end of `s` follows them, the leading segment has length `k`.
pub proof fn lemma_leading_segment_len_is(s: Seq<char>, k: int)
    requires
        0 <= k <= s.len(),
        forall|i: int| 0 <= i < k ==> s[i] != '/',
        k < s.len() ==> s[k] == '/',
    ensures
        leading_segment_len(s) == k,
    decreases k,
{
    if k > 0 {
        let t = s.skip(1);
        assert forall|i: int| 0 <= i < k - 1 implies t[i] != '/' by {
            assert(t[i] == s[i + 1]);
        }
        lemma_leading_segment_len_is(t, k - 1);
    }
}

/// Splitting at the first separator: what stands before it is the first
/// segment, unless it is empty, and the rest is split in the same way.
pub proof fn lemma_split_at_separator(s: Seq<char>, k: int)
    requires
        0 <= k < s.len(),
        forall|i: int| 0 <= i < k ==> s[i] != '/',
        s[k] == '/',
    ensures
        k == 0 ==> split_segments(s) == split_segments(s.skip(1)),
        k > 0 ==> split_segments(s) == seq![s.take(k)] + split_segments(s.skip(k + 1)),
{
    lemma_leading_segment_len_is(s, k);
}

/// A string without a separator is one segment, or none where it is empty.
pub proof fn lemma_split_without_separator(s: Seq<char>)
    requires
        !s.contains('/'),
    ensures
        s.len() == 0 ==> split_segments(s) == Seq::<Seq<char>>::empty(),
        s.len() > 0 ==> split_segments(s) == seq![s],
{
    lemma_leading_segment_len_is(s, s.len() as int);
}

/// No segment is empty and none holds a separator: the segments are such as
/// reading a string gives them.
pub open spec fn clean_segments(segments: Seq<Seq<char>>) -> bool {
    forall|i: int|
        0 <= i < segments.len() ==> (#[trigger] segments[i]).len() > 0 && !segments[i].contains(
            '/',
        )
}

/// Reading a string gives clean segments.
pub proof fn lemma_split_is_clean(s: Seq<char>)
    ensures
        clean_segments(split_segments(s)),
    decreases s.len(),
{
    if s.len() > 0 {
        let n = leading_segment_len(s);
        lemma_leading_segment_prefix(s);
        if n == 0 {
            lemma_split_is_clean(s.skip(1));
        } else if n >= s.len() {
            assert(s.take(n as int) =~= s);
        } else {
            lemma_split_is_clean(s.skip(n as int + 1));
        }
    }
}

/// The leading segment lies within the string and holds no separator; where
/// it is not all of the string, a separator follows it.
pub proof fn lemma_leading_segment_prefix(s: Seq<char>)
    ensures
        leading_segment_len(s) <= s.len(),
        !s.take(leading_segment_len(s) as int).contains('/'),
        leading_segment_len(s) < s.len() ==> s[leading_segment_len(s) as int] == '/',
    decreases s.len(),
{
    if s.len() == 0 || s[0] == '/' {
        assert(s.take(0) =~= Seq::<char>::empty());
    } else {
        let t = s.skip(1);
        lemma_leading_segment_prefix(t);
        let n = leading_segment_len(s) as int;
        let head = s.take(n);
        let rest = t.take(n - 1);
        assert forall|i: int| 0 <= i < head.len() implies head[i] != '/' by {
            if i > 0 {
                assert(head[i] == rest[i - 1]);
            }
        }
        if n < s.len() {
            assert(t[n - 1] == s[n]);
        }
    }
}

/// The string form, taken from the front: a separator, the first segment,
/// and the string form of the rest.
pub proof fn lemma_slashed_segments_front(segments: Seq<Seq<char>>)
    requires
        segments.len() > 0,
    ensures
        slashed_segments(segments) == seq!['/'] + segments[0] + slashed_segments(
            segments.drop_first(),
        ),
    decreases segments.len(),
{
    let init = segments.drop_last();
    if init.len() == 0 {
        assert(segments.drop_first() =~= Seq::<Seq<char>>::empty());
        assert(slashed_segments(init) =~= Seq::<char>::empty());
        assert(segments.last() == segments[0]);
        assert(slashed_segments(segments) =~= seq!['/'] + segments[0] + slashed_segments(
            segments.drop_first(),
        ));
    } else {
        lemma_slashed_segments_front(init);
        let tail = segments.drop_first();
        assert(tail.drop_last() =~= init.drop_first());
        assert(tail.last() == segments.last());
        assert(init[0] == segments[0]);
        assert(slashed_segments(segments) =~= seq!['/'] + segments[0] + slashed_segments(tail));
    }
}

/// A path with clean segments is read back from its string form as it was.
pub proof fn lemma_render_then_split(segments: Seq<Seq<char>>)
    requires
        clean_segments(segments),
    ensures
        split_segments(render_segments(segments)) == segments,
    decreases segments.len(),
{
    if segments.len() == 0 {
        let root = seq!['/'];
        lemma_split_at_separator(root, 0);
        assert(root.skip(1) =~= Seq::<char>::empty());
    } else {
        let first = segments[0];
        let tail = segments.drop_first();
        let rest = slashed_segments(tail);
        let whole = slashed_segments(segments);
        lemma_slashed_segments_front(segments);
        lemma_split_at_separator(whole, 0);
        let named = first + rest;
        assert(whole.skip(1) =~= named);
        assert(forall|i: int| 0 <= i < first.len() ==> named[i] == first[i]);
        if tail.len() == 0 {
            assert(named =~= first);
            lemma_split_without_separator(first);
            assert(segments =~= seq![first]);
        } else {
            assert(clean_segments(tail)) by {
                assert forall|i: int| 0 <= i < tail.len() implies (#[trigger] tail[i]).len() > 0
                    && !tail[i].contains('/') by {
                    assert(tail[i] == segments[i + 1]);
                }
            }
            lemma_render_then_split(tail);
            lemma_slashed_segments_front(tail);
            assert(rest[0] == '/');
            assert(named[first.len() as int] == rest[0]);
            lemma_split_at_separator(named, first.len() as int);
            assert(named.take(first.len() as int) =~= first);
            assert(named.skip(first.len() as int + 1) =~= rest.skip(1));
            lemma_split_at_separator(rest, 0);
            assert(segments =~= seq![first] + tail);
        }
    }
}

/// A location in the storage tree.
#[derive(Debug)]
pub struct StoragePath {
    segments: Vec<String>,
}

impl View for StoragePath {
    type V = Seq<Seq<char>>;

    /// The path's segments, root first; the root itself has none.
    closed spec fn view(&self) -> Seq<Seq<char>> {
        string_views(self.segments@)
    }
}

impl StoragePath {
    /// Reads a path from its string form. Separators are `/`; empty segments
    /// are dropped, so `"/a//b/"` and `"a/b"` name the same path.
    pub fn from_string(path: &str) -> (p: StoragePath)
        ensures
            p@ == split_segments(path@),
    {
        let total = path.unicode_len();
        let mut segments: Vec<String> = Vec::new();
        let mut start: usize = 0;
        let mut pos: usize = 0;
        let mut chars = path.chars();
        assert(string_views(segments@) =~= Seq::<Seq<char>>::empty());
        assert(path@.skip(0) =~= path@);
        loop
            invariant
                start <= pos <= total,
                total == path@.len(),
                chars.remaining() == path@.skip(pos as int),
                forall|i: int| start <= i < pos ==> path@[i] != '/',
                split_segments(path@) == string_views(segments@) + split_segments(
                    path@.skip(start as int),
                ),
            ensures
                pos == total,
            decreases total - pos,
        {
            let ghost before = chars.remaining();
            match chars.next() {
                None => {
                    break ;
                },
                Some(c) => {
                    assert(c == path@[pos as int]);
                    assert(before.drop_first() =~= path@.skip(pos + 1));
                    if c == '/' {
                        let ghost rest = path@.skip(start as int);
                        proof {
                            lemma_split_at_separator(rest, pos - start);
                            assert(rest.skip(pos - start + 1) =~= path@.skip(pos + 1));
                            assert(rest.skip(1) =~= path@.skip(start + 1));
                            assert(rest.take(pos - start) =~= path@.subrange(
                                start as int,
                                pos as int,
                            ));
                        }
                        if start < pos {
                            let ghost held = string_views(segments@);
                            let segment = path.substring_char(start, pos).to_owned();
                            segments.push(segment);
                            assert(string_views(segments@) =~= held + seq![segment@]);
                        }
                        start = pos + 1;
                    }
                    pos = pos + 1;
                },
            }
        }
        proof {
            let rest = path@.skip(start as int);
            lemma_split_without_separator(rest);
            assert(rest =~= path@.subrange(start as int, pos as int));
        }
        if start < pos {
            let ghost held = string_views(segments@);
            let segment = path.substring_char(start, pos).to_owned();
            segments.push(segment);
            assert(string_views(segments@) =~= held + seq![segment@]);
        }
        StoragePath { segments }
    }

    /// Copies of the first `count` segments.
    fn leading_segments(&self, count: usize) -> (copy: Vec<String>)
        requires
            count <= self@.len(),
        ensures
            string_views(copy@) == self@.take(count as int),
    {
        let mut copy: Vec<String> = Vec::new();
        let mut i: usize = 0;
        while i < count
            invariant
                i <= count <= self.segments@.len(),
                string_views(copy@) =~= string_views(self.segments@).take(i as int),
            decreases count - i,
        {
            let ghost held = string_views(copy@);
            let segment = self.segments[i].clone();
            copy.push(segment);
            assert(string_views(copy@) =~= held.push(segment@));
            i = i + 1;
        }
        copy
    }

    /// The path one level below this one, under the given segment. The segment
    /// is taken as it is, with no separator handling.
    pub fn join(&self, segment: &str) -> (child: StoragePath)
        ensures
            child@ == self@.push(segment@),
    {
        let mut segments = self.leading_segments(self.segments.len());
        let ghost held = string_views(segments@);
        assert(held =~= self@);
        let last = segment.to_owned();
        segments.push(last);
        assert(string_views(segments@) =~= held.push(last@));
        StoragePath { segments }
    }

    /// The path one level above this one; the root has none.
    pub fn parent(&self) -> (above: Option<StoragePath>)
        ensures
            self@.len() == 0 ==> above is None,
            self@.len() > 0 ==> above is Some && above.unwrap()@ == self@.drop_last(),
    {
        let depth = self.segments.len();
        if depth == 0 {
            None
        } else {
            let segments = self.leading_segments(depth - 1);
            assert(self@.take(depth - 1) =~= self@.drop_last());
            Some(StoragePath { segments })
        }
    }

    /// The string form of the path.
    pub fn to_string(&self) -> (rendered: String)
        ensures
            rendered@ == render_segments(self@),
    {
        proof {
            reveal_strlit("/");
        }
        assert("/"@ =~= seq!['/']);
        let depth = self.segments.len();
        if depth == 0 {
            return "/".to_owned();
        }
        let mut rendered = String::new();
        let mut i: usize = 0;
        while i < depth
            invariant
                i <= depth == self.segments@.len(),
                "/"@ == seq!['/'],
                rendered@ == slashed_segments(self@.take(i as int)),
            decreases depth - i,
        {
            rendered.append("/");
            rendered.append(self.segments[i].as_str());
            proof {
                let upto = self@.take(i + 1);
                assert(upto.drop_last() =~= self@.take(i as int));
                assert(upto.last() == self.segments@[i as int]@);
            }
            i = i + 1;
        }
        assert(self@.take(depth as int) =~= self@);
        rendered
    }
}

impl Clone for StoragePath {
    fn clone(&self) -> (copy: StoragePath)
        ensures
            copy@ == self@,
    {
        let segments = self.leading_segments(self.segments.len());
        assert(self@.take(self@.len() as int) =~= self@);
        StoragePath { segments }
    }
}

impl PartialEq for StoragePath {
    /// Two paths are equal where they have the same segments.
    fn eq(&self, other: &StoragePath) -> (same: bool) {
        let depth = self.segments.len();
        if depth != other.segments.len() {
            assert(self@.len() != other@.len());
            return false;
        }
        let mut i: usize = 0;
        while i < depth
            invariant
                i <= depth,
                depth == self.segments@.len(),
                depth == other.segments@.len(),
                forall|j: int| 0 <= j < i ==> self.segments@[j]@ == other.segments@[j]@,
            decreases depth - i,
        {
            if !(self.segments[i] == other.segments[i]) {
                assert(self@[i as int] != other@[i as int]);
                return false;
            }
            i = i + 1;
        }
        assert(self@ =~= other@);
        true
    }
}

impl vstd::std_specs::cmp::PartialEqSpecImpl for StoragePath {
    open spec fn obeys_eq_spec() -> bool {
        true
    }

    open spec fn eq_spec(&self, other: &StoragePath) -> bool {
        self@ == other@
    }
}

impl Eq for StoragePath {

}

} // verus!
