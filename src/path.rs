//! Slash-separated paths, compared component by component.
//!
//! A path is absolute when it starts with `/`. Its components are the pieces
//! between slashes, with empty pieces and `.` pieces left out; a relative path
//! whose first piece is `.` keeps that leading `.` as a component of its own.
use vstd::prelude::*;

verus! {

/// The pieces of `s` between slashes, empty pieces included.
pub open spec fn segments(s: Seq<char>) -> Seq<Seq<char>>
    decreases s.len(),
{
    if s.len() == 0 {
        seq![Seq::<char>::empty()]
    } else {
        let prev = segments(s.drop_last());
        if s.last() == '/' {
            prev.push(Seq::<char>::empty())
        } else {
            prev.update(prev.len() - 1, prev.last().push(s.last()))
        }
    }
}

/// A piece that names a component: neither empty nor `.`.
pub open spec fn is_name(seg: Seq<char>) -> bool {
    seg.len() > 0 && seg != seq!['.']
}

/// The pieces of `segs` that name components, in order.
pub open spec fn names_of(segs: Seq<Seq<char>>) -> Seq<Seq<char>>
    decreases segs.len(),
{
    if segs.len() == 0 {
        Seq::empty()
    } else if is_name(segs.last()) {
        names_of(segs.drop_last()).push(segs.last())
    } else {
        names_of(segs.drop_last())
    }
}

pub open spec fn path_absolute(s: Seq<char>) -> bool {
    s.len() > 0 && s[0] == '/'
}

pub open spec fn path_leading_dot(s: Seq<char>) -> bool {
    !path_absolute(s) && segments(s)[0] == seq!['.']
}

pub open spec fn path_names(s: Seq<char>) -> Seq<Seq<char>> {
    names_of(segments(s))
}

/// `path` begins with every component of `base`, in the same places.
pub open spec fn path_starts_with(path: Seq<char>, base: Seq<char>) -> bool {
    &&& path_absolute(path) == path_absolute(base)
    &&& path_leading_dot(path) == path_leading_dot(base)
    &&& path_names(base).len() <= path_names(path).len()
    &&& path_names(path).take(path_names(base).len() as int) == path_names(base)
}

/// `a` and `b` have the same components.
pub open spec fn path_equal(a: Seq<char>, b: Seq<char>) -> bool {
    &&& path_absolute(a) == path_absolute(b)
    &&& path_leading_dot(a) == path_leading_dot(b)
    &&& path_names(a) == path_names(b)
}

/// Names joined with single slashes.
pub open spec fn join_names(ns: Seq<Seq<char>>) -> Seq<char>
    decreases ns.len(),
{
    if ns.len() == 0 {
        Seq::empty()
    } else if ns.len() == 1 {
        ns[0]
    } else {
        join_names(ns.drop_last()) + seq!['/'] + ns.last()
    }
}

/// What is left of `path` once the components of `base` are taken off its front.
pub open spec fn path_rest(path: Seq<char>, base: Seq<char>) -> Seq<char> {
    join_names(path_names(path).skip(path_names(base).len() as int))
}

/// `rel` placed under `root`, with one slash between them where needed.
pub open spec fn path_join(root: Seq<char>, rel: Seq<char>) -> Seq<char> {
    if path_absolute(rel) {
        rel
    } else if root.len() == 0 || root.last() == '/' {
        root + rel
    } else {
        root + seq!['/'] + rel
    }
}

pub proof fn lemma_segments_nonempty(s: Seq<char>)
    ensures
        segments(s).len() >= 1,
    decreases s.len(),
{
    if s.len() > 0 {
        lemma_segments_nonempty(s.drop_last());
    }
}

/// The components of a path, as computed.
pub struct PathShape {
    pub absolute: bool,
    pub leading_dot: bool,
    pub names: Vec<String>,
}

pub open spec fn string_views(v: Seq<String>) -> Seq<Seq<char>> {
    v.map_values(|x: String| x@)
}

impl PathShape {
    pub open spec fn describes(&self, s: Seq<char>) -> bool {
        &&& self.absolute == path_absolute(s)
        &&& self.leading_dot == path_leading_dot(s)
        &&& string_views(self.names@) == path_names(s)
    }
}

/// Splits `s` at each slash.
fn split_segments(s: &str) -> (r: Vec<String>)
    ensures
        string_views(r@) == segments(s@),
{
    let n = s.unicode_len();
    let mut segs: Vec<String> = Vec::new();
    let mut start: usize = 0;
    let mut i: usize = 0;
    proof {
        assert(s@.take(0) =~= Seq::<char>::empty());
        assert(string_views(segs@) =~= Seq::<Seq<char>>::empty());
        assert(s@.subrange(0, 0) =~= Seq::<char>::empty());
        assert(segments(Seq::<char>::empty()) =~= seq![Seq::<char>::empty()]);
    }
    while i < n
        invariant
            n == s@.len(),
            start <= i <= n,
            string_views(segs@).push(s@.subrange(start as int, i as int)) == segments(
                s@.take(i as int),
            ),
        decreases n - i,
    {
        let c = s.get_char(i);
        proof {
            assert(s@.take(i + 1).drop_last() =~= s@.take(i as int));
            assert(s@.take(i + 1).last() == c);
            lemma_segments_nonempty(s@.take(i as int));
        }
        if c == '/' {
            let piece = s.substring_char(start, i).to_owned();
            let ghost before = segs@;
            segs.push(piece);
            start = i + 1;
            proof {
                assert(string_views(segs@) =~= string_views(before).push(piece@));
                assert(s@.subrange(start as int, (i + 1) as int) =~= Seq::<char>::empty());
            }
        } else {
            proof {
                assert(s@.subrange(start as int, i + 1) =~= s@.subrange(start as int, i as int).push(c));
            }
        }
        i = i + 1;
    }
    let last = s.substring_char(start, n).to_owned();
    let ghost before = segs@;
    segs.push(last);
    proof {
        assert(s@.take(n as int) =~= s@);
        assert(string_views(segs@) =~= string_views(before).push(last@));
    }
    segs
}

/// Whether the piece `p` is exactly `.`.
fn piece_is_dot(p: &str) -> (r: bool)
    ensures
        r == (p@ == seq!['.']),
{
    if p.unicode_len() == 1 {
        let c = p.get_char(0);
        if c == '.' {
            assert(p@ =~= seq!['.']);
            true
        } else {
            assert(p@[0] != seq!['.'][0]);
            false
        }
    } else {
        assert(p@.len() != seq!['.'].len());
        false
    }
}

/// Whether the piece `p` names a component.
fn piece_is_name(p: &str) -> (r: bool)
    ensures
        r == is_name(p@),
{
    if p.unicode_len() == 0 {
        false
    } else {
        !piece_is_dot(p)
    }
}

/// The pieces of `segs` that name components.
fn name_pieces(segs: &Vec<String>) -> (r: Vec<String>)
    ensures
        string_views(r@) == names_of(string_views(segs@)),
{
    let mut out: Vec<String> = Vec::new();
    let mut j: usize = 0;
    proof {
        assert(string_views(segs@).take(0) =~= Seq::<Seq<char>>::empty());
        assert(string_views(out@) =~= Seq::<Seq<char>>::empty());
    }
    while j < segs.len()
        invariant
            j <= segs.len(),
            string_views(out@) == names_of(string_views(segs@).take(j as int)),
        decreases segs.len() - j,
    {
        let seg = &segs[j];
        proof {
            assert(string_views(segs@).take(j + 1).drop_last() =~= string_views(segs@).take(
                j as int,
            ));
            assert(string_views(segs@).take(j + 1).last() == seg@);
        }
        if piece_is_name(seg.as_str()) {
            let ghost before = out@;
            out.push(seg.clone());
            proof {
                assert(string_views(out@) =~= string_views(before).push(seg@));
            }
        }
        j = j + 1;
    }
    proof {
        assert(string_views(segs@).take(segs@.len() as int) =~= string_views(segs@));
    }
    out
}

/// The components of `s`.
pub fn path_shape(s: &str) -> (r: PathShape)
    ensures
        r.describes(s@),
{
    let segs = split_segments(s);
    proof {
        lemma_segments_nonempty(s@);
    }
    let absolute = s.unicode_len() > 0 && s.get_char(0) == '/';
    let leading_dot = !absolute && piece_is_dot(segs[0].as_str());
    let names = name_pieces(&segs);
    PathShape { absolute, leading_dot, names }
}

/// Whether `a` and `b` hold the same names, in order.
fn same_names(a: &Vec<String>, b: &Vec<String>) -> (r: bool)
    ensures
        r == (string_views(a@) == string_views(b@)),
{
    if a.len() != b.len() {
        assert(string_views(a@).len() != string_views(b@).len());
        return false;
    }
    let mut k: usize = 0;
    while k < a.len()
        invariant
            a.len() == b.len(),
            k <= a.len(),
            forall|t: int| 0 <= t < k ==> a@[t]@ == b@[t]@,
        decreases a.len() - k,
    {
        if a[k] != b[k] {
            assert(string_views(a@)[k as int] != string_views(b@)[k as int]);
            return false;
        }
        k = k + 1;
    }
    assert(string_views(a@) =~= string_views(b@));
    true
}

/// Whether the first `b.len()` names of `a` are the names of `b`.
fn names_start_with(a: &Vec<String>, b: &Vec<String>) -> (r: bool)
    ensures
        r == (b@.len() <= a@.len() && string_views(a@).take(b@.len() as int) == string_views(
            b@,
        )),
{
    if b.len() > a.len() {
        return false;
    }
    let mut k: usize = 0;
    while k < b.len()
        invariant
            b.len() <= a.len(),
            k <= b.len(),
            forall|t: int| 0 <= t < k ==> a@[t]@ == b@[t]@,
        decreases b.len() - k,
    {
        if a[k] != b[k] {
            assert(string_views(a@).take(b@.len() as int)[k as int] != string_views(b@)[k as int]);
            return false;
        }
        k = k + 1;
    }
    assert(string_views(a@).take(b@.len() as int) =~= string_views(b@));
    true
}

/// Whether `path` begins with the components of `base`.
pub fn starts_with(path: &str, base: &str) -> (r: bool)
    ensures
        r == path_starts_with(path@, base@),
{
    let p = path_shape(path);
    let b = path_shape(base);
    p.absolute == b.absolute && p.leading_dot == b.leading_dot && names_start_with(
        &p.names,
        &b.names,
    )
}

/// Whether `a` and `b` have the same components.
pub fn same_path(a: &str, b: &str) -> (r: bool)
    ensures
        r == path_equal(a@, b@),
{
    let x = path_shape(a);
    let y = path_shape(b);
    x.absolute == y.absolute && x.leading_dot == y.leading_dot && same_names(&x.names, &y.names)
}

/// The names of `names` from index `start` on, joined with slashes.
fn join_from(names: &Vec<String>, start: usize) -> (r: String)
    requires
        start <= names@.len(),
    ensures
        r@ == join_names(string_views(names@).skip(start as int)),
{
    let mut r = String::new();
    let mut k: usize = start;
    proof {
        assert(string_views(names@).subrange(start as int, start as int) =~= Seq::<
            Seq<char>,
        >::empty());
    }
    while k < names.len()
        invariant
            start <= k <= names@.len(),
            r@ == join_names(string_views(names@).subrange(start as int, k as int)),
        decreases names.len() - k,
    {
        let ghost ns = string_views(names@).subrange(start as int, k + 1);
        proof {
            assert(ns.drop_last() =~= string_views(names@).subrange(start as int, k as int));
            assert(ns.last() == names@[k as int]@);
        }
        if k > start {
            r.append("/");
            proof {
                reveal_strlit("/");
            }
        } else {
            assert(ns.len() == 1);
        }
        r.append(names[k].as_str());
        k = k + 1;
    }
    assert(string_views(names@).subrange(start as int, names@.len() as int) =~= string_views(
        names@,
    ).skip(start as int));
    r
}

/// What is left of `path` once the components of `base` are taken off its front.
pub fn rest_after(path: &str, base: &str) -> (r: String)
    requires
        path_starts_with(path@, base@),
    ensures
        r@ == path_rest(path@, base@),
{
    let p = path_shape(path);
    let b = path_shape(base);
    join_from(&p.names, b.names.len())
}

/// `rel` placed under `root`: `rel` itself when it is absolute.
pub fn join_path(root: &str, rel: &str) -> (r: String)
    ensures
        r@ == path_join(root@, rel@),
{
    if rel.unicode_len() > 0 && rel.get_char(0) == '/' {
        return rel.to_owned();
    }
    let n = root.unicode_len();
    let mut r = root.to_owned();
    if n > 0 && root.get_char(n - 1) != '/' {
        r.append("/");
        proof {
            reveal_strlit("/");
        }
    }
    r.append(rel);
    r
}

} // verus!
