use vstd::prelude::*;

verus! {

/// The components of `s` separated by `/`, empty ones included, left to right.
/// There is always at least one component.
pub open spec fn split_slash(s: Seq<char>) -> Seq<Seq<char>>
    decreases s.len(),
{
    if s.len() == 0 {
        seq![Seq::empty()]
    } else {
        let prev = split_slash(s.drop_last());
        if s.last() == '/' {
            prev.push(Seq::empty())
        } else {
            prev.update(prev.len() - 1, prev.last().push(s.last()))
        }
    }
}

pub open spec fn dot() -> Seq<char> {
    seq!['.']
}

pub open spec fn dot_dot() -> Seq<char> {
    seq!['.', '.']
}

/// A raw component that survives normalization: not empty and not `.`.
pub open spec fn kept(c: Seq<char>) -> bool {
    c.len() > 0 && c != dot()
}

/// A component of a normalized path.
pub open spec fn valid_segment(c: Seq<char>) -> bool {
    kept(c) && c != dot_dot()
}

pub open spec fn keep_components(cs: Seq<Seq<char>>) -> Seq<Seq<char>>
    decreases cs.len(),
{
    if cs.len() == 0 {
        Seq::empty()
    } else {
        let prev = keep_components(cs.drop_last());
        if kept(cs.last()) {
            prev.push(cs.last())
        } else {
            prev
        }
    }
}

/// A raw path is a traversal attempt when any of its components is `..`.
pub open spec fn has_parent_ref(s: Seq<char>) -> bool {
    split_slash(s).contains(dot_dot())
}

/// The segments of a raw path that holds no `..` component.
pub open spec fn segments_of(s: Seq<char>) -> Seq<Seq<char>> {
    keep_components(split_slash(s))
}

pub open spec fn all_valid(segs: Seq<Seq<char>>) -> bool {
    forall|i: int| 0 <= i < segs.len() ==> valid_segment(#[trigger] segs[i])
}

/// The reason a raw path is refused.
#[derive(Clone, Copy, Debug, PartialEq, Eq)]
pub enum TraversalError {
    ParentReference,
}

/// A client path as a sequence of normalized segments: none is empty, `.` or `..`.
#[derive(Debug)]
pub struct PathSegments {
    segs: Vec<String>,
}

impl View for PathSegments {
    type V = Seq<Seq<char>>;

    closed spec fn view(&self) -> Seq<Seq<char>> {
        self.segs@.map_values(|s: String| s@)
    }
}

pub proof fn lemma_keep_components_valid(cs: Seq<Seq<char>>)
    requires
        !cs.contains(dot_dot()),
    ensures
        all_valid(keep_components(cs)),
    decreases cs.len(),
{
    if cs.len() > 0 {
        assert(!cs.drop_last().contains(dot_dot())) by {
            if cs.drop_last().contains(dot_dot()) {
                let j = choose|j: int| 0 <= j < cs.drop_last().len() && cs.drop_last()[j] == dot_dot();
                assert(cs[j] == dot_dot());
            }
        }
        lemma_keep_components_valid(cs.drop_last());
        assert(cs[cs.len() - 1] == cs.last());
    }
}

/// Whether the string `s` is exactly the literal `lit`.
pub fn str_is(s: &str, lit: &str) -> (r: bool)
    ensures
        r == (s@ == lit@),
{
    let a = s.to_owned();
    let b = lit.to_owned();
    a == b
}

impl PathSegments {
    pub open spec fn wf(&self) -> bool {
        all_valid(self@)
    }

    pub fn empty() -> (r: PathSegments)
        ensures
            r@ == Seq::<Seq<char>>::empty(),
            r.wf(),
    {
        let r = PathSegments { segs: Vec::new() };
        assert(r@ =~= Seq::<Seq<char>>::empty());
        r
    }

    pub fn len(&self) -> (r: usize)
        ensures
            r == self@.len(),
    {
        self.segs.len()
    }

    pub fn get(&self, i: usize) -> (r: &String)
        requires
            i < self@.len(),
        ensures
            r@ == self@[i as int],
    {
        &self.segs[i]
    }

    /// The segments as strings, in order.
    pub fn to_strings(&self) -> (r: Vec<String>)
        ensures
            r@.map_values(|s: String| s@) == self@,
    {
        let mut out: Vec<String> = Vec::new();
        let mut i: usize = 0;
        while i < self.segs.len()
            invariant
                i <= self@.len(),
                self.segs@.len() == self@.len(),
                out@.map_values(|s: String| s@) =~= self@.take(i as int),
            decreases self@.len() - i,
        {
            let ghost before = out@;
            let item = self.segs[i].clone();
            out.push(item);
            proof {
                assert(self.segs@.map_values(|s: String| s@)[i as int] == self@[i as int]);
                assert(out@.map_values(|s: String| s@) =~= before.map_values(|s: String| s@).push(self@[i as int]));
            }
            i = i + 1;
        }
        assert(self@.take(self@.len() as int) =~= self@);
        out
    }

    /// Whether segment `i` exists and is exactly `lit`.
    pub fn segment_is(&self, i: usize, lit: &str) -> (r: bool)
        ensures
            r == (i < self@.len() && self@[i as int] == lit@),
    {
        if i < self.segs.len() {
            str_is(self.segs[i].as_str(), lit)
        } else {
            false
        }
    }

    /// The first `n` segments.
    pub fn prefix(&self, n: usize) -> (r: PathSegments)
        requires
            self.wf(),
            n <= self@.len(),
        ensures
            r@ == self@.take(n as int),
            r.wf(),
    {
        let mut segs: Vec<String> = Vec::new();
        let mut i: usize = 0;
        while i < n
            invariant
                i <= n <= self@.len(),
                segs@.map_values(|s: String| s@) =~= self@.take(i as int),
            decreases n - i,
        {
            let ghost before = segs@;
            let item = self.segs[i].clone();
            segs.push(item);
            proof {
                assert(self.segs@.map_values(|s: String| s@)[i as int] == self@[i as int]);
                assert(segs@.map_values(|s: String| s@) =~= before.map_values(|s: String| s@).push(self@[i as int]));
            }
            i = i + 1;
            assert(segs@.map_values(|s: String| s@) =~= self@.take(i as int));
        }
        let r = PathSegments { segs };
        assert forall|k: int| 0 <= k < r@.len() implies valid_segment(#[trigger] r@[k]) by {
            assert(r@[k] == self@[k]);
        }
        r
    }

    /// The path with its first `n` segments removed.
    pub fn strip_prefix(&self, n: usize) -> (r: PathSegments)
        requires
            self.wf(),
        ensures
            r@ == (if n <= self@.len() { self@.skip(n as int) } else { Seq::<Seq<char>>::empty() }),
            r.wf(),
    {
        let mut segs: Vec<String> = Vec::new();
        let len = self.segs.len();
        let start: usize = if n <= len { n } else { len };
        let mut i: usize = start;
        while i < len
            invariant
                start <= i <= len,
                len == self@.len(),
                start == (if n <= len { n } else { len }),
                segs@.map_values(|s: String| s@) =~= self@.subrange(start as int, i as int),
            decreases len - i,
        {
            let ghost before = segs@;
            let item = self.segs[i].clone();
            segs.push(item);
            proof {
                assert(self.segs@.map_values(|s: String| s@)[i as int] == self@[i as int]);
                assert(segs@.map_values(|s: String| s@) =~= before.map_values(|s: String| s@).push(self@[i as int]));
            }
            i = i + 1;
            assert(segs@.map_values(|s: String| s@) =~= self@.subrange(start as int, i as int));
        }
        let r = PathSegments { segs };
        assert(r@ =~= (if n <= self@.len() { self@.skip(n as int) } else { Seq::<Seq<char>>::empty() }));
        assert forall|k: int| 0 <= k < r@.len() implies valid_segment(#[trigger] r@[k]) by {
            assert(r@[k] == self@[k + start]);
        }
        r
    }

    /// `self` with the one segment `seg` in front.
    pub fn prepend(&self, seg: &String) -> (r: PathSegments)
        requires
            self.wf(),
            valid_segment(seg@),
        ensures
            r@ == seq![seg@] + self@,
            r.wf(),
    {
        let mut segs: Vec<String> = Vec::new();
        segs.push(seg.clone());
        let mut i: usize = 0;
        while i < self.segs.len()
            invariant
                i <= self@.len(),
                self.segs@.len() == self@.len(),
                segs@.map_values(|s: String| s@) =~= seq![seg@] + self@.take(i as int),
            decreases self@.len() - i,
        {
            let ghost before = segs@;
            let item = self.segs[i].clone();
            segs.push(item);
            proof {
                assert(self.segs@.map_values(|s: String| s@)[i as int] == self@[i as int]);
                assert(segs@.map_values(|s: String| s@) =~= before.map_values(|s: String| s@).push(self@[i as int]));
            }
            i = i + 1;
            assert(segs@.map_values(|s: String| s@) =~= seq![seg@] + self@.take(i as int));
        }
        let r = PathSegments { segs };
        assert(self@.take(self@.len() as int) =~= self@);
        assert forall|k: int| 0 <= k < r@.len() implies valid_segment(#[trigger] r@[k]) by {
            if k > 0 {
                assert(r@[k] == self@[k - 1]);
            }
        }
        r
    }

    /// Every prefix of the path, shortest first: the empty path first, the whole path last.
    pub fn ancestors(&self) -> (r: Vec<PathSegments>)
        requires
            self.wf(),
        ensures
            r@.len() == self@.len() + 1,
            forall|k: int| 0 <= k < r@.len() ==> (#[trigger] r@[k])@ == self@.take(k) && r@[k].wf(),
    {
        let mut out: Vec<PathSegments> = Vec::new();
        out.push(self.prefix(0));
        let mut k: usize = 0;
        while k < self.segs.len()
            invariant
                k <= self@.len(),
                self.segs@.len() == self@.len(),
                self.wf(),
                out@.len() == k + 1,
                forall|j: int| 0 <= j <= k ==> (#[trigger] out@[j])@ == self@.take(j) && out@[j].wf(),
            decreases self@.len() - k,
        {
            k = k + 1;
            let p = self.prefix(k);
            out.push(p);
        }
        out
    }

    /// Normalizes a raw `/`-separated path: empty components and `.` are dropped; a `..`
    /// component anywhere refuses the whole path.
    pub fn normalize(raw: &str) -> (r: Result<PathSegments, TraversalError>)
        ensures
            match r {
                Ok(p) => !has_parent_ref(raw@) && p@ == segments_of(raw@) && p.wf(),
                Err(_) => has_parent_ref(raw@),
            },
    {
        let n = raw.unicode_len();
        let mut segs: Vec<String> = Vec::new();
        let ghost mut done: Seq<Seq<char>> = Seq::empty();
        let mut found: bool = false;
        let mut start: usize = 0;
        let mut i: usize = 0;
        proof {
            assert(raw@.subrange(0, 0) =~= Seq::<char>::empty());
            assert(done.push(raw@.subrange(0, 0)) =~= seq![Seq::<char>::empty()]);
            assert(segs@.map_values(|s: String| s@) =~= Seq::<Seq<char>>::empty());
        }
        while i < n
            invariant
                n == raw@.len(),
                start <= i <= n,
                split_slash(raw@.subrange(0, i as int)) == done.push(raw@.subrange(start as int, i as int)),
                segs@.map_values(|s: String| s@) == keep_components(done),
                found == done.contains(dot_dot()),
            decreases n - i,
        {
            let c = raw.get_char(i);
            proof {
                let s = raw@.subrange(0, i as int + 1);
                assert(s.drop_last() =~= raw@.subrange(0, i as int));
                assert(s.last() == c);
            }
            if c == '/' {
                let piece = raw.substring_char(start, i);
                let piece_s = piece.to_owned();
                let is_dd = str_is(piece, "..");
                let is_d = str_is(piece, ".");
                proof {
                    reveal_strlit("..");
                    reveal_strlit(".");
                    assert(".."@ =~= dot_dot());
                    assert("."@ =~= dot());
                }
                let ghost old_done = done;
                proof {
                    done = done.push(raw@.subrange(start as int, i as int));
                    assert(done.drop_last() =~= old_done);
                    assert(done.last() == piece@);
                }
                if is_dd {
                    found = true;
                    assert(done.contains(dot_dot())) by {
                        assert(done[done.len() - 1] == dot_dot());
                    }
                } else {
                    assert(done.contains(dot_dot()) == old_done.contains(dot_dot())) by {
                        if done.contains(dot_dot()) {
                            let j = choose|j: int| 0 <= j < done.len() && done[j] == dot_dot();
                            if j < old_done.len() {
                                assert(old_done[j] == dot_dot());
                            }
                        }
                        if old_done.contains(dot_dot()) {
                            let j = choose|j: int| 0 <= j < old_done.len() && old_done[j] == dot_dot();
                            assert(done[j] == dot_dot());
                        }
                    }
                }
                if !piece.is_empty() && !is_d {
                    let ghost before = segs@;
                    segs.push(piece_s);
                    assert(segs@.map_values(|s: String| s@) =~= before.map_values(|s: String| s@).push(piece@));
                }
                start = i + 1;
                proof {
                    assert(raw@.subrange(start as int, i as int + 1) =~= Seq::<char>::empty());
                }
            } else {
                proof {
                    assert(raw@.subrange(start as int, i as int + 1) =~= raw@.subrange(start as int, i as int).push(c));
                    let s = raw@.subrange(0, i as int + 1);
                    let prev = split_slash(s.drop_last());
                    assert(prev.last() == raw@.subrange(start as int, i as int));
                    assert(prev.update(prev.len() - 1, prev.last().push(s.last())) =~= done.push(raw@.subrange(start as int, i as int + 1)));
                }
            }
            i = i + 1;
        }
        proof {
            assert(raw@.subrange(0, n as int) =~= raw@);
        }
        let piece = raw.substring_char(start, n);
        let piece_s = piece.to_owned();
        let is_dd = str_is(piece, "..");
        let is_d = str_is(piece, ".");
        proof {
            reveal_strlit("..");
            reveal_strlit(".");
            assert(".."@ =~= dot_dot());
            assert("."@ =~= dot());
        }
        let ghost all = done.push(raw@.subrange(start as int, n as int));
        proof {
            assert(all.drop_last() =~= done);
            assert(all.last() == piece@);
            assert(all.contains(dot_dot()) == (done.contains(dot_dot()) || piece@ == dot_dot())) by {
                if all.contains(dot_dot()) {
                    let j = choose|j: int| 0 <= j < all.len() && all[j] == dot_dot();
                    if j < done.len() {
                        assert(done[j] == dot_dot());
                    }
                }
                if done.contains(dot_dot()) {
                    let j = choose|j: int| 0 <= j < done.len() && done[j] == dot_dot();
                    assert(all[j] == dot_dot());
                }
                if piece@ == dot_dot() {
                    assert(all[all.len() - 1] == dot_dot());
                }
            }
        }
        if found || is_dd {
            return Err(TraversalError::ParentReference);
        }
        if !piece.is_empty() && !is_d {
            let ghost before = segs@;
            segs.push(piece_s);
            assert(segs@.map_values(|s: String| s@) =~= before.map_values(|s: String| s@).push(piece@));
        }
        let r = PathSegments { segs };
        proof {
            lemma_keep_components_valid(all);
        }
        Ok(r)
    }
}

} // verus!
