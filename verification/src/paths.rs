use vstd::prelude::*;
use vstd::string::StrSliceExecFns;
use vstd::string::StringExecFns;

verus! {

/// A segment is non-empty and free of the separator, so a segment sequence
/// identifies one location and two paths denoting the same location compare
/// equal.
pub open spec fn seg_wf(s: Seq<char>) -> bool {
    s.len() > 0 && !s.contains('/')
}

/// A normalized, absolute, platform-independent path: the sequence of its
/// segments. `/a/b` is held as the segments `a`, `b`; the filesystem root is
/// the empty sequence. Relative components must already be resolved before a
/// path reaches a backend.
pub struct FsPath {
    segments: Vec<String>,
}

impl View for FsPath {
    type V = Seq<Seq<char>>;

    closed spec fn view(&self) -> Seq<Seq<char>> {
        self.segments.deep_view()
    }
}

/// The text of a non-root path: a `/` before each segment.
pub open spec fn text_of_segments(segs: Seq<Seq<char>>) -> Seq<char>
    decreases segs.len(),
{
    if segs.len() == 0 {
        Seq::empty()
    } else {
        text_of_segments(segs.drop_last()).push('/') + segs.last()
    }
}

/// The text of a path: `/` for the root, otherwise a `/` before each segment.
pub open spec fn text_of(segs: Seq<Seq<char>>) -> Seq<char> {
    if segs.len() == 0 {
        seq!['/']
    } else {
        text_of_segments(segs)
    }
}

impl FsPath {
    /// Every segment of the path is well formed.
    pub open spec fn wf(&self) -> bool {
        forall|i: int| 0 <= i < self@.len() ==> seg_wf(#[trigger] self@[i])
    }

    /// The filesystem root, the path with no segments.
    pub fn root() -> (r: FsPath)
        ensures
            r@ == Seq::<Seq<char>>::empty(),
            r.wf(),
    {
        let r = FsPath { segments: Vec::new() };
        proof {
            assert(r@ =~= Seq::<Seq<char>>::empty());
        }
        r
    }

    /// The number of segments.
    pub fn depth(&self) -> (r: usize)
        ensures
            r == self@.len(),
    {
        self.segments.len()
    }

    /// The path one segment deeper, `self` with `seg` appended.
    pub fn child(&self, seg: String) -> (r: FsPath)
        ensures
            r@ == self@.push(seg@),
            self.wf() && seg_wf(seg@) ==> r.wf(),
    {
        let mut segments = clone_segments(&self.segments);
        segments.push(seg);
        let r = FsPath { segments };
        proof {
            assert(r@ =~= self@.push(seg@));
        }
        r
    }

    /// The parent directory: the path without its last segment, or nothing
    /// at the filesystem root.
    pub fn parent(&self) -> (r: Option<FsPath>)
        ensures
            match r {
                Some(p) => self@.len() > 0 && p@ == self@.drop_last() && (self.wf() ==> p.wf()),
                None => self@.len() == 0,
            },
    {
        if self.segments.len() == 0 {
            None
        } else {
            let mut segments = clone_segments(&self.segments);
            segments.pop();
            let p = FsPath { segments };
            proof {
                assert(p@ =~= self@.drop_last());
            }
            Some(p)
        }
    }

    /// An owned copy of the path.
    pub fn duplicate(&self) -> (r: FsPath)
        ensures
            r@ == self@,
    {
        FsPath { segments: clone_segments(&self.segments) }
    }

    /// The text of the location one segment deeper, without building the
    /// deeper path: what `self.child(name).to_text()` would be.
    pub fn child_text(&self, name: &str) -> (r: String)
        ensures
            r@ == text_of(self@.push(name@)),
    {
        let mut r = if self.segments.len() == 0 {
            String::new()
        } else {
            self.to_text()
        };
        r.append("/");
        r.append(name);
        proof {
            reveal_strlit("/");
            let whole = self@.push(name@);
            assert(whole.drop_last() =~= self@);
            assert(r@ =~= text_of_segments(whole.drop_last()).push('/') + name@);
        }
        r
    }

    /// The owned, comparable text of the path, used as the key a store files
    /// it under.
    pub fn to_text(&self) -> (r: String)
        ensures
            r@ == text_of(self@),
    {
        if self.segments.len() == 0 {
            let r = String::from_str("/");
            proof {
                reveal_strlit("/");
                assert(r@ =~= seq!['/']);
            }
            return r;
        }
        let mut r = String::new();
        let mut i: usize = 0;
        proof {
            assert(self@.take(0) =~= Seq::<Seq<char>>::empty());
        }
        while i < self.segments.len()
            invariant
                i <= self.segments.len(),
                self.segments.deep_view() == self@,
                r@ == text_of_segments(self@.take(i as int)),
            decreases self.segments.len() - i,
        {
            r.append("/");
            r.append(self.segments[i].as_str());
            proof {
                reveal_strlit("/");
                let pre = self@.take(i as int);
                let cur = self@.take(i + 1);
                assert(cur.drop_last() =~= pre);
                assert(cur.last() == self@[i as int]);
                assert(r@ =~= text_of_segments(pre).push('/') + self@[i as int]);
            }
            i = i + 1;
        }
        proof {
            assert(self@.take(self.segments.len() as int) =~= self@);
        }
        r
    }
}

/// If one text both ends in a separator-free suffix after a separator and
/// ends in another such suffix, the suffixes and what precedes them agree.
proof fn lemma_separator_split(x1: Seq<char>, s1: Seq<char>, x2: Seq<char>, s2: Seq<char>)
    requires
        !s1.contains('/'),
        !s2.contains('/'),
        x1.push('/') + s1 == x2.push('/') + s2,
    ensures
        s1 == s2,
        x1 == x2,
{
    let t = x1.push('/') + s1;
    assert(t.len() == x1.len() + 1 + s1.len());
    assert(t.len() == x2.len() + 1 + s2.len());
    if s1.len() < s2.len() {
        let p = x1.len() as int;
        assert(t[p] == '/');
        assert(t[p] == s2[p - x2.len() - 1]);
        assert(s2.contains('/')) by {
            assert(0 <= p - x2.len() - 1 < s2.len() && s2[p - x2.len() - 1] == '/');
        }
        assert(false);
    }
    if s2.len() < s1.len() {
        let q = x2.len() as int;
        assert(t[q] == '/');
        assert(t[q] == s1[q - x1.len() - 1]);
        assert(s1.contains('/')) by {
            assert(0 <= q - x1.len() - 1 < s1.len() && s1[q - x1.len() - 1] == '/');
        }
        assert(false);
    }
    assert(s1.len() == s2.len());
    assert(x1.len() == x2.len());
    assert forall|i: int| 0 <= i < s1.len() implies s1[i] == s2[i] by {
        assert(t[x1.len() + 1 + i] == s1[i]);
        assert(t[x2.len() + 1 + i] == s2[i]);
    }
    assert(s1 =~= s2);
    assert forall|i: int| 0 <= i < x1.len() implies x1[i] == x2[i] by {
        assert(t[i] == x1[i]);
        assert(t[i] == x2[i]);
    }
    assert(x1 =~= x2);
}

/// The texts of two well-formed segment sequences agree only when the
/// sequences do.
proof fn lemma_segments_text_injective(a: Seq<Seq<char>>, b: Seq<Seq<char>>)
    requires
        forall|i: int| 0 <= i < a.len() ==> seg_wf(#[trigger] a[i]),
        forall|i: int| 0 <= i < b.len() ==> seg_wf(#[trigger] b[i]),
        text_of_segments(a) == text_of_segments(b),
    ensures
        a == b,
    decreases a.len(),
{
    if a.len() == 0 {
        assert(text_of_segments(a).len() == 0);
        if b.len() > 0 {
            assert(text_of_segments(b).len() > 0);
        }
        assert(a =~= b);
    } else if b.len() == 0 {
        assert(text_of_segments(b).len() == 0);
        assert(text_of_segments(a).len() > 0);
    } else {
        lemma_separator_split(
            text_of_segments(a.drop_last()),
            a.last(),
            text_of_segments(b.drop_last()),
            b.last(),
        );
        assert forall|i: int| 0 <= i < a.drop_last().len() implies seg_wf(
            #[trigger] a.drop_last()[i],
        ) by {
            assert(a.drop_last()[i] == a[i]);
        }
        assert forall|i: int| 0 <= i < b.drop_last().len() implies seg_wf(
            #[trigger] b.drop_last()[i],
        ) by {
            assert(b.drop_last()[i] == b[i]);
        }
        lemma_segments_text_injective(a.drop_last(), b.drop_last());
        assert(a.len() == b.len());
        assert forall|i: int| 0 <= i < a.len() implies a[i] == b[i] by {
            if i < a.len() - 1 {
                assert(a.drop_last()[i] == a[i]);
                assert(b.drop_last()[i] == b[i]);
            } else {
                assert(a.last() == b.last());
            }
        }
        assert(a =~= b);
    }
}

/// Law: on well-formed paths the text is injective — two paths whose texts
/// agree denote the same location. A store keyed by path text therefore
/// cannot conflate distinct locations.
pub proof fn lemma_text_of_injective(a: Seq<Seq<char>>, b: Seq<Seq<char>>)
    requires
        forall|i: int| 0 <= i < a.len() ==> seg_wf(#[trigger] a[i]),
        forall|i: int| 0 <= i < b.len() ==> seg_wf(#[trigger] b[i]),
        text_of(a) == text_of(b),
    ensures
        a == b,
{
    if a.len() == 0 && b.len() == 0 {
        assert(a =~= b);
    } else if a.len() == 0 {
        assert(text_of(b) == text_of_segments(b));
        assert(text_of_segments(b).len() >= 2) by {
            assert(b.last().len() > 0);
        }
        assert(text_of(a).len() == 1);
    } else if b.len() == 0 {
        assert(text_of(a) == text_of_segments(a));
        assert(text_of_segments(a).len() >= 2) by {
            assert(a.last().len() > 0);
        }
        assert(text_of(b).len() == 1);
    } else {
        lemma_segments_text_injective(a, b);
    }
}

/// An element-by-element copy of a segment vector.
fn clone_segments(v: &Vec<String>) -> (r: Vec<String>)
    ensures
        r@ == v@,
{
    let mut r: Vec<String> = Vec::new();
    let mut i: usize = 0;
    while i < v.len()
        invariant
            i <= v.len(),
            r@ =~= v@.take(i as int),
        decreases v.len() - i,
    {
        r.push(v[i].clone());
        proof {
            assert(r@ =~= v@.take(i + 1));
        }
        i = i + 1;
    }
    proof {
        assert(r@ =~= v@);
    }
    r
}

} // verus!
