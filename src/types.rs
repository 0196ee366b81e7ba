//! Namespaces and qualified names, and the text helpers they rest on.

use vstd::prelude::*;
use vstd::string::*;

verus! {

/// The view of a list of strings.
pub open spec fn strs_view(v: Seq<String>) -> Seq<Seq<char>> {
    v.map_values(|s: String| s@)
}

/// The view of an optional string.
pub open spec fn opt_view(o: Option<String>) -> Option<Seq<char>> {
    match o {
        Some(s) => Some(s@),
        None => None,
    }
}

/// `segs` joined with `::` between each two.
pub open spec fn join_path(segs: Seq<Seq<char>>) -> Seq<char>
    decreases segs.len(),
{
    if segs.len() == 0 {
        Seq::empty()
    } else if segs.len() == 1 {
        segs[0]
    } else {
        join_path(segs.drop_last()) + seq![':', ':'] + segs.last()
    }
}

/// `s` ends with `p`.
pub open spec fn has_suffix(s: Seq<char>, p: Seq<char>) -> bool {
    p.len() <= s.len() && s.subrange(s.len() - p.len(), s.len() as int) == p
}

/// `s` starts with `p`.
pub open spec fn has_prefix(s: Seq<char>, p: Seq<char>) -> bool {
    p.len() <= s.len() && s.subrange(0, p.len() as int) == p
}

/// `s` holds `::`.
pub open spec fn holds_path_separator(s: Seq<char>) -> bool {
    exists|i: int| 0 <= i < s.len() - 1 && s[i] == ':' && #[trigger] s[i + 1] == ':'
}

/// Whether `s` ends with `p`.
pub fn ends_with(s: &str, p: &str) -> (r: bool)
    ensures
        r == has_suffix(s@, p@),
{
    let n = s.unicode_len();
    let m = p.unicode_len();
    if m > n {
        return false;
    }
    let off: usize = n - m;
    let mut i: usize = 0;
    while i < m
        invariant
            n == s@.len(),
            m == p@.len(),
            m <= n,
            off == n - m,
            i <= m,
            forall|j: int| 0 <= j < i ==> s@[off + j] == p@[j],
        decreases m - i,
    {
        if s.get_char(off + i) != p.get_char(i) {
            assert(s@.subrange(off as int, n as int)[i as int] != p@[i as int]);
            return false;
        }
        i = i + 1;
    }
    assert(s@.subrange(off as int, n as int) =~= p@);
    true
}

/// Whether `s` starts with `p`.
pub fn starts_with(s: &str, p: &str) -> (r: bool)
    ensures
        r == has_prefix(s@, p@),
{
    let n = s.unicode_len();
    let m = p.unicode_len();
    if m > n {
        return false;
    }
    let mut i: usize = 0;
    while i < m
        invariant
            n == s@.len(),
            m == p@.len(),
            m <= n,
            i <= m,
            forall|j: int| 0 <= j < i ==> s@[j] == p@[j],
        decreases m - i,
    {
        if s.get_char(i) != p.get_char(i) {
            assert(s@.subrange(0, m as int)[i as int] != p@[i as int]);
            return false;
        }
        i = i + 1;
    }
    assert(s@.subrange(0, m as int) =~= p@);
    true
}

/// Whether `s` holds two `_` in a row.
pub fn has_double_underscore(s: &str) -> (r: bool)
    ensures
        r == exists|i: int| 0 <= i < s@.len() - 1 && s@[i] == '_' && #[trigger] s@[i + 1] == '_',
{
    let n = s.unicode_len();
    let mut i: usize = 1;
    while i < n
        invariant
            n == s@.len(),
            1 <= i,
            forall|j: int| 0 <= j < i - 1 && j < n - 1 ==> !(s@[j] == '_' && #[trigger] s@[j + 1] == '_'),
        decreases n - i,
    {
        if s.get_char(i - 1) == '_' && s.get_char(i) == '_' {
            assert(s@[(i - 1) as int] == '_' && s@[(i - 1) + 1] == '_');
            return true;
        }
        i = i + 1;
    }
    false
}

/// Whether `s` holds `::`.
pub fn has_path_separator(s: &str) -> (r: bool)
    ensures
        r == holds_path_separator(s@),
{
    let n = s.unicode_len();
    let mut i: usize = 1;
    while i < n
        invariant
            n == s@.len(),
            1 <= i,
            forall|j: int| 0 <= j < i - 1 && j < n - 1 ==> !(s@[j] == ':' && #[trigger] s@[j + 1] == ':'),
        decreases n - i,
    {
        if s.get_char(i - 1) == ':' && s.get_char(i) == ':' {
            assert(s@[(i - 1) as int] == ':' && s@[(i - 1) + 1] == ':');
            return true;
        }
        i = i + 1;
    }
    false
}

/// A copy of each string of `v`.
pub fn copy_strings(v: &Vec<String>) -> (r: Vec<String>)
    ensures
        r@ == v@,
        strs_view(r@) == strs_view(v@),
{
    let mut r: Vec<String> = Vec::new();
    let mut i: usize = 0;
    while i < v.len()
        invariant
            i <= v.len(),
            r@ == v@.subrange(0, i as int),
        decreases v.len() - i,
    {
        r.push(v[i].clone());
        assert(r@ =~= v@.subrange(0, i + 1));
        i = i + 1;
    }
    assert(r@ =~= v@);
    r
}

/// Whether `v` holds a string equal to `s`.
pub fn strings_contain(v: &Vec<String>, s: &String) -> (r: bool)
    ensures
        r == strs_view(v@).contains(s@),
{
    let mut i: usize = 0;
    while i < v.len()
        invariant
            i <= v.len(),
            forall|j: int| 0 <= j < i ==> v@[j]@ != s@,
        decreases v.len() - i,
    {
        if v[i] == *s {
            assert(strs_view(v@)[i as int] == s@);
            return true;
        }
        i = i + 1;
    }
    assert forall|j: int| 0 <= j < strs_view(v@).len() implies strs_view(v@)[j] != s@ by {
        assert(v@[j]@ != s@);
    }
    false
}

/// `segs` joined with `::` between each two.
pub fn join_with_separator(segs: &Vec<String>) -> (r: String)
    ensures
        r@ == join_path(strs_view(segs@)),
{
    let mut r = String::new();
    let mut i: usize = 0;
    while i < segs.len()
        invariant
            i <= segs.len(),
            r@ == join_path(strs_view(segs@.subrange(0, i as int))),
        decreases segs.len() - i,
    {
        let ghost before = strs_view(segs@.subrange(0, i as int));
        let ghost after = strs_view(segs@.subrange(0, i + 1));
        assert(after.drop_last() =~= before);
        assert(after.last() == segs@[i as int]@);
        if i > 0 {
            proof {
                reveal_strlit("::");
            }
            r.append("::");
        }
        r.append(segs[i].as_str());
        assert(r@ =~= join_path(after));
        i = i + 1;
    }
    assert(segs@.subrange(0, segs.len() as int) == segs@);
    r
}

/// A C++ namespace: the segments of its path, outermost first.
#[derive(Debug, PartialEq)]
pub struct Namespace {
    pub segs: Vec<String>,
}

impl View for Namespace {
    type V = Seq<Seq<char>>;

    open spec fn view(&self) -> Seq<Seq<char>> {
        strs_view(self.segs@)
    }
}

impl Namespace {
    /// The root namespace.
    pub fn new() -> (r: Namespace)
        ensures
            r@ == Seq::<Seq<char>>::empty(),
    {
        let r = Namespace { segs: Vec::new() };
        assert(r@ =~= Seq::<Seq<char>>::empty());
        r
    }

    /// The namespace nested in this one under `seg`.
    pub fn push(&self, seg: String) -> (r: Namespace)
        ensures
            r@ == self@.push(seg@),
    {
        let mut segs = copy_strings(&self.segs);
        segs.push(seg);
        let r = Namespace { segs };
        assert(r@ =~= self@.push(seg@));
        r
    }

    /// Whether this is the root namespace.
    pub fn is_empty(&self) -> (r: bool)
        ensures
            r == (self@.len() == 0),
    {
        self.segs.len() == 0
    }

    /// A copy of this namespace.
    pub fn copy(&self) -> (r: Namespace)
        ensures
            r@ == self@,
    {
        Namespace { segs: copy_strings(&self.segs) }
    }
}

/// The view of a qualified name: namespace and final identifier.
pub type QualifiedNameView = (Seq<Seq<char>>, Seq<char>);

/// The C++ spelling of a qualified name: all its segments joined by `::`.
pub open spec fn cpp_name_of(q: QualifiedNameView) -> Seq<char> {
    join_path(q.0.push(q.1))
}

/// An identifier within a namespace.
#[derive(Debug, PartialEq)]
pub struct QualifiedName {
    pub ns: Namespace,
    pub id: String,
}

impl View for QualifiedName {
    type V = QualifiedNameView;

    open spec fn view(&self) -> QualifiedNameView {
        (self.ns@, self.id@)
    }
}

impl QualifiedName {
    /// `id` within `ns`.
    pub fn new(ns: &Namespace, id: String) -> (r: QualifiedName)
        ensures
            r@ == (ns@, id@),
    {
        QualifiedName { ns: ns.copy(), id }
    }

    /// The name whose path is `segs`, the last of which is the identifier.
    pub fn from_segments(segs: &Vec<String>) -> (r: QualifiedName)
        requires
            segs@.len() > 0,
        ensures
            r@ == (strs_view(segs@).drop_last(), segs@.last()@),
    {
        let mut outer = copy_strings(segs);
        let id = outer.pop().unwrap();
        assert(outer@ == segs@.drop_last());
        let r = QualifiedName { ns: Namespace { segs: outer }, id };
        assert(r.ns@ =~= strs_view(segs@).drop_last());
        r
    }

    /// The name that a C++ path such as `a::b::C` spells.
    pub fn new_from_cpp_name(s: &str) -> (r: QualifiedName)
        ensures
            r@ == (split_path(s@).drop_last(), split_path(s@).last()),
    {
        let segs = split_cpp_path(s);
        QualifiedName::from_segments(&segs)
    }

    /// The C++ spelling of this name.
    pub fn to_cpp_name(&self) -> (r: String)
        ensures
            r@ == cpp_name_of(self@),
    {
        let mut segs = copy_strings(&self.ns.segs);
        segs.push(self.id.clone());
        assert(strs_view(segs@) =~= self.ns@.push(self.id@));
        join_with_separator(&segs)
    }

    /// Whether two names are equal.
    pub fn same_as(&self, other: &QualifiedName) -> (r: bool)
        ensures
            r == (self@ == other@),
    {
        if !(self.id == other.id) || self.ns.segs.len() != other.ns.segs.len() {
            assert(self.ns@.len() != other.ns@.len() || self.id@ != other.id@);
            return false;
        }
        let mut i: usize = 0;
        while i < self.ns.segs.len()
            invariant
                i <= self.ns.segs.len(),
                self.ns.segs.len() == other.ns.segs.len(),
                forall|j: int| 0 <= j < i ==> self.ns.segs@[j]@ == other.ns.segs@[j]@,
            decreases self.ns.segs.len() - i,
        {
            if !(self.ns.segs[i] == other.ns.segs[i]) {
                assert(self.ns@[i as int] != other.ns@[i as int]);
                return false;
            }
            i = i + 1;
        }
        assert(self.ns@ =~= other.ns@);
        true
    }
}

} // verus!

verus! {

/// Whether `v` holds a name whose view is `q`.
pub open spec fn names_hold(v: Seq<QualifiedName>, q: QualifiedNameView) -> bool {
    exists|i: int| 0 <= i < v.len() && #[trigger] v[i]@ == q
}

/// Whether `v` holds a name equal to `q`.
pub fn names_contain(v: &Vec<QualifiedName>, q: &QualifiedName) -> (r: bool)
    ensures
        r == names_hold(v@, q@),
{
    let mut i: usize = 0;
    while i < v.len()
        invariant
            i <= v.len(),
            forall|j: int| 0 <= j < i ==> #[trigger] v@[j]@ != q@,
        decreases v.len() - i,
    {
        if v[i].same_as(q) {
            return true;
        }
        i = i + 1;
    }
    false
}

/// Whether two strings are equal.
pub fn str_equal(a: &str, b: &str) -> (r: bool)
    ensures
        r == (a@ == b@),
{
    let n = a.unicode_len();
    if n != b.unicode_len() {
        return false;
    }
    let mut i: usize = 0;
    while i < n
        invariant
            n == a@.len(),
            n == b@.len(),
            i <= n,
            forall|j: int| 0 <= j < i ==> a@[j] == b@[j],
        decreases n - i,
    {
        if a.get_char(i) != b.get_char(i) {
            return false;
        }
        i = i + 1;
    }
    assert(a@ =~= b@);
    true
}

} // verus!

verus! {

/// The segments of `s` between its `::` separators, the leftmost separator
/// first; a text without separator is one segment.
pub open spec fn split_path(s: Seq<char>) -> Seq<Seq<char>>
    decreases s.len(),
{
    if s.len() == 0 {
        seq![Seq::empty()]
    } else if s.len() >= 2 && s[0] == ':' && s[1] == ':' {
        seq![Seq::<char>::empty()] + split_path(s.subrange(2, s.len() as int))
    } else {
        let r = split_path(s.subrange(1, s.len() as int));
        r.update(0, seq![s[0]] + r[0])
    }
}

/// A text always has at least one segment.
pub proof fn lemma_split_path_nonempty(s: Seq<char>)
    ensures
        split_path(s).len() >= 1,
    decreases s.len(),
{
    if s.len() >= 2 && s[0] == ':' && s[1] == ':' {
        lemma_split_path_nonempty(s.subrange(2, s.len() as int));
    } else if s.len() > 0 {
        lemma_split_path_nonempty(s.subrange(1, s.len() as int));
    }
}

/// The segments of a C++ path such as `a::b::C`.
pub fn split_cpp_path(s: &str) -> (r: Vec<String>)
    ensures
        strs_view(r@) == split_path(s@),
        r@.len() >= 1,
{
    let n = s.unicode_len();
    let mut segs: Vec<String> = Vec::new();
    let mut start: usize = 0;
    let mut i: usize = 0;
    proof {
        lemma_split_path_nonempty(s@);
        assert(s@.subrange(0, n as int) =~= s@);
        assert(s@.subrange(0, 0) =~= Seq::<char>::empty());
    }
    while i < n
        invariant
            n == s@.len(),
            start <= i <= n,
            split_path(s@.subrange(i as int, n as int)).len() >= 1,
            strs_view(segs@) + seq![
                s@.subrange(start as int, i as int) + split_path(s@.subrange(i as int, n as int))[0],
            ] + split_path(s@.subrange(i as int, n as int)).drop_first() == split_path(s@),
        decreases n - i,
    {
        let ghost rest = s@.subrange(i as int, n as int);
        let ghost cur = s@.subrange(start as int, i as int);
        if i + 1 < n && s.get_char(i) == ':' && s.get_char(i + 1) == ':' {
            let seg = String::from_str(s.substring_char(start, i));
            let ghost next = s@.subrange(i + 2, n as int);
            assert(rest.subrange(2, rest.len() as int) =~= next);
            assert(split_path(rest) == seq![Seq::<char>::empty()] + split_path(next));
            proof {
                lemma_split_path_nonempty(next);
            }
            let ghost before = segs@;
            segs.push(seg);
            assert(strs_view(segs@) =~= strs_view(before).push(cur));
            assert(cur + split_path(rest)[0] =~= cur);
            assert(split_path(rest).drop_first() =~= split_path(next));
            assert(s@.subrange(i + 2, i + 2) =~= Seq::<char>::empty());
            assert(Seq::<char>::empty() + split_path(next)[0] =~= split_path(next)[0]);
            assert(seq![split_path(next)[0]] + split_path(next).drop_first() =~= split_path(next));
            assert(strs_view(segs@) + seq![s@.subrange(i + 2, i + 2) + split_path(next)[0]]
                + split_path(next).drop_first() =~= strs_view(before) + seq![cur + split_path(rest)[0]]
                + split_path(rest).drop_first());
            start = i + 2;
            i = i + 2;
        } else {
            let ghost next = s@.subrange(i + 1, n as int);
            assert(rest.subrange(1, rest.len() as int) =~= next);
            assert(rest[0] == s@[i as int]);
            proof {
                lemma_split_path_nonempty(next);
            }
            let ghost r = split_path(next);
            assert(split_path(rest) == r.update(0, seq![s@[i as int]] + r[0]));
            assert(s@.subrange(start as int, i + 1) =~= cur.push(s@[i as int]));
            assert(cur + split_path(rest)[0] =~= s@.subrange(start as int, i + 1) + r[0]);
            assert(split_path(rest).drop_first() =~= r.drop_first());
            i = i + 1;
        }
    }
    let seg = String::from_str(s.substring_char(start, n));
    let ghost before = segs@;
    segs.push(seg);
    proof {
        assert(s@.subrange(n as int, n as int) =~= Seq::<char>::empty());
        assert(split_path(Seq::<char>::empty()) == seq![Seq::<char>::empty()]);
        assert(s@.subrange(start as int, n as int) + Seq::<char>::empty() =~= s@.subrange(start as int, n as int));
        assert(strs_view(segs@) =~= strs_view(before) + seq![s@.subrange(start as int, n as int)]);
        assert(seq![Seq::<char>::empty()].drop_first() =~= Seq::<Seq<char>>::empty());
        assert(strs_view(segs@) =~= split_path(s@));
    }
    segs
}

} // verus!
