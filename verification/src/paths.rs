//! Unix paths held as text: joining, splitting into components and
//! component-wise prefix tests, with the meaning that `std::path` gives them.

use vstd::prelude::*;
use crate::text::{chars_of, range_is, lemma_split_nonempty, push_char, push_text, split_bounds, split_on, string_of};

verus! {

/// `rel` appended to `base` as `PathBuf::push` does on Unix: an absolute
/// `rel` replaces `base`; otherwise a separator is put between them unless
/// `base` is empty or already ends with one.
pub open spec fn join_path(base: Seq<char>, rel: Seq<char>) -> Seq<char> {
    if rel.len() > 0 && rel[0] == '/' {
        rel
    } else if base.len() == 0 || base.last() == '/' {
        base + rel
    } else {
        base + seq!['/'] + rel
    }
}

/// The normal components among `segs`: empty pieces and `.` are dropped.
pub open spec fn kept_segments(segs: Seq<Seq<char>>) -> Seq<Seq<char>>
    decreases segs.len(),
{
    if segs.len() == 0 {
        Seq::empty()
    } else {
        let r = kept_segments(segs.drop_last());
        if segs.last().len() == 0 || segs.last() == seq!['.'] {
            r
        } else {
            r.push(segs.last())
        }
    }
}

/// The components of a path as `Path::components` yields them on Unix: the
/// root (written `/`) for an absolute path, a leading `.` for a path that
/// starts with the current directory, then every other piece between
/// separators except empty pieces and `.`.
pub open spec fn path_components(p: Seq<char>) -> Seq<Seq<char>> {
    let segs = split_on(p, '/');
    if p.len() > 0 && p[0] == '/' {
        seq![seq!['/']] + kept_segments(segs)
    } else if segs[0] == seq!['.'] {
        seq![seq!['.']] + kept_segments(segs)
    } else {
        kept_segments(segs)
    }
}

/// `Path::starts_with`: the components of `base` are a prefix of those of `p`.
pub open spec fn path_starts_with(p: Seq<char>, base: Seq<char>) -> bool {
    let a = path_components(p);
    let b = path_components(base);
    b.len() <= a.len() && a.take(b.len() as int) == b
}

/// Some component of `p` is `..`.
pub open spec fn has_parent_component(p: Seq<char>) -> bool {
    path_components(p).contains(seq!['.', '.'])
}

/// `base` joined with `rel`.
pub fn join(base: &str, rel: &str) -> (r: String)
    ensures
        r@ == join_path(base@, rel@),
{
    let rv = chars_of(rel);
    if rv.len() > 0 && rv[0] == '/' {
        return string_of(&rv);
    }
    let bv = chars_of(base);
    let mut r = string_of(&bv);
    if bv.len() > 0 && bv[bv.len() - 1] != '/' {
        push_char(&mut r, '/');
    }
    push_text(&mut r, rel);
    proof {
        if bv@.len() > 0 {
            assert(bv@.last() == bv@[bv@.len() - 1]);
        }
    }
    r
}

proof fn lemma_kept_step(segs: Seq<Seq<char>>, i: int)
    requires
        0 <= i < segs.len(),
    ensures
        kept_segments(segs.take(i + 1)) == (if segs[i].len() == 0 || segs[i] == seq!['.'] {
            kept_segments(segs.take(i))
        } else {
            kept_segments(segs.take(i)).push(segs[i])
        }),
{
    assert(segs.take(i + 1).drop_last() =~= segs.take(i));
}

/// The components of the path `p`, each as its characters.
pub fn components(p: &str) -> (r: Vec<Vec<char>>)
    ensures
        r@.len() == path_components(p@).len(),
        forall|k: int| 0 <= k < r@.len() ==> (#[trigger] r@[k])@ == path_components(p@)[k],
{
    let v = chars_of(p);
    let segs = split_bounds(&v, 0, v.len(), '/');
    assert(v@.subrange(0, v@.len() as int) =~= p@);
    let ghost sp = split_on(p@, '/');
    proof {
        lemma_split_nonempty(p@, '/');
    }
    proof {
        reveal_strlit(".");
        assert("."@ =~= seq!['.']);
    }
    let mut r: Vec<Vec<char>> = Vec::new();
    let ghost mut head: Seq<Seq<char>> = Seq::empty();
    if v.len() > 0 && v[0] == '/' {
        let mut root: Vec<char> = Vec::new();
        root.push('/');
        r.push(root);
        proof {
            head = seq![seq!['/']];
        }
    } else {
        let (a, b) = segs[0];
        if range_is(&v, a, b, ".") {
            let mut cur: Vec<char> = Vec::new();
            cur.push('.');
            r.push(cur);
            proof {
                reveal_strlit(".");
                head = seq![seq!['.']];
            }
        }
        proof {
            reveal_strlit(".");
        }
    }
    assert(path_components(p@) == head + kept_segments(sp)) by {
        reveal_strlit(".");
    }
    let mut k: usize = 0;
    assert(sp.take(0) =~= Seq::<Seq<char>>::empty());
    while k < segs.len()
        invariant
            v@ == p@,
            sp == split_on(p@, '/'),
            segs@.len() == sp.len(),
            forall|j: int|
                0 <= j < segs@.len() ==> (#[trigger] segs@[j]).0 <= segs@[j].1 <= v@.len()
                    && v@.subrange(segs@[j].0 as int, segs@[j].1 as int) == sp[j],
            k <= segs@.len(),
            r@.len() == head.len() + kept_segments(sp.take(k as int)).len(),
            forall|j: int|
                0 <= j < r@.len() ==> (#[trigger] r@[j])@ == (head + kept_segments(
                    sp.take(k as int),
                ))[j],
        decreases segs@.len() - k,
    {
        let (a, b) = segs[k];
        proof {
            lemma_kept_step(sp, k as int);
            reveal_strlit(".");
            assert("."@ =~= seq!['.']);
        }
        if a < b && !range_is(&v, a, b, ".") {
            let mut cur: Vec<char> = Vec::new();
            let mut i = a;
            while i < b
                invariant
                    a <= i <= b <= v@.len(),
                    cur@ == v@.subrange(a as int, i as int),
                decreases b - i,
            {
                cur.push(v[i]);
                i += 1;
                assert(cur@ =~= v@.subrange(a as int, i as int));
            }
            r.push(cur);
            assert(v@.subrange(a as int, b as int) != seq!['.']);
        } else {
            proof {
                if a < b {
                    assert(v@.subrange(a as int, b as int) == seq!['.']);
                }
            }
        }
        k += 1;
        assert forall|j: int| 0 <= j < r@.len() implies (#[trigger] r@[j])@ == (head
            + kept_segments(sp.take(k as int)))[j] by {}
    }
    assert(sp.take(segs@.len() as int) =~= sp);
    r
}

/// Whether two character sequences are equal.
fn same_chars(a: &Vec<char>, b: &Vec<char>) -> (r: bool)
    ensures
        r == (a@ == b@),
{
    if a.len() != b.len() {
        return false;
    }
    let mut i: usize = 0;
    while i < a.len()
        invariant
            a@.len() == b@.len(),
            i <= a@.len(),
            forall|j: int| 0 <= j < i ==> a@[j] == b@[j],
        decreases a@.len() - i,
    {
        if a[i] != b[i] {
            return false;
        }
        i += 1;
    }
    assert(a@ =~= b@);
    true
}

/// Whether the path `p` starts with the path `base`, component by component.
pub fn starts_with_path(p: &str, base: &str) -> (r: bool)
    ensures
        r == path_starts_with(p@, base@),
{
    let a = components(p);
    let b = components(base);
    let ghost ca = path_components(p@);
    let ghost cb = path_components(base@);
    if b.len() > a.len() {
        return false;
    }
    let mut i: usize = 0;
    while i < b.len()
        invariant
            ca == path_components(p@),
            cb == path_components(base@),
            a@.len() == ca.len(),
            b@.len() == cb.len(),
            b@.len() <= a@.len(),
            forall|k: int| 0 <= k < a@.len() ==> (#[trigger] a@[k])@ == ca[k],
            forall|k: int| 0 <= k < b@.len() ==> (#[trigger] b@[k])@ == cb[k],
            i <= b@.len(),
            forall|j: int| 0 <= j < i ==> ca[j] == cb[j],
        decreases b@.len() - i,
    {
        assert(a@[i as int]@ == ca[i as int]);
        assert(b@[i as int]@ == cb[i as int]);
        if !same_chars(&a[i], &b[i]) {
            assert(ca.take(cb.len() as int)[i as int] != cb[i as int]);
            return false;
        }
        i += 1;
    }
    assert(ca.take(cb.len() as int) =~= cb);
    true
}

/// Whether some component of `p` is `..`.
pub fn has_parent_dir(p: &str) -> (r: bool)
    ensures
        r == has_parent_component(p@),
{
    let c = components(p);
    let ghost cs = path_components(p@);
    let mut dots: Vec<char> = Vec::new();
    dots.push('.');
    dots.push('.');
    assert(dots@ =~= seq!['.', '.']);
    let mut i: usize = 0;
    while i < c.len()
        invariant
            cs == path_components(p@),
            c@.len() == cs.len(),
            forall|k: int| 0 <= k < c@.len() ==> (#[trigger] c@[k])@ == cs[k],
            dots@ == seq!['.', '.'],
            i <= c@.len(),
            forall|j: int| 0 <= j < i ==> cs[j] != seq!['.', '.'],
        decreases c@.len() - i,
    {
        assert(c@[i as int]@ == cs[i as int]);
        if same_chars(&c[i], &dots) {
            assert(cs[i as int] == seq!['.', '.']);
            return true;
        }
        i += 1;
    }
    assert(!cs.contains(seq!['.', '.']));
    false
}

/// Whether two paths have the same components (`Path` equality).
pub fn same_path(p: &str, q: &str) -> (r: bool)
    ensures
        r == (path_components(p@) == path_components(q@)),
{
    let a = components(p);
    let b = components(q);
    let ghost ca = path_components(p@);
    let ghost cb = path_components(q@);
    if a.len() != b.len() {
        return false;
    }
    let mut i: usize = 0;
    while i < a.len()
        invariant
            ca == path_components(p@),
            cb == path_components(q@),
            a@.len() == ca.len(),
            b@.len() == cb.len(),
            a@.len() == b@.len(),
            forall|k: int| 0 <= k < a@.len() ==> (#[trigger] a@[k])@ == ca[k],
            forall|k: int| 0 <= k < b@.len() ==> (#[trigger] b@[k])@ == cb[k],
            i <= a@.len(),
            forall|j: int| 0 <= j < i ==> ca[j] == cb[j],
        decreases a@.len() - i,
    {
        assert(a@[i as int]@ == ca[i as int]);
        assert(b@[i as int]@ == cb[i as int]);
        if !same_chars(&a[i], &b[i]) {
            return false;
        }
        i += 1;
    }
    assert(ca =~= cb);
    true
}

/// The last component of `p` when it is a name (`Path::file_name`): not the
/// root, `.` or `..`.
pub open spec fn file_name_of(p: Seq<char>) -> Option<Seq<char>> {
    let c = path_components(p);
    if c.len() > 0 && c.last() != seq!['/'] && c.last() != seq!['.'] && c.last() != seq!['.', '.'] {
        Some(c.last())
    } else {
        None
    }
}

/// The file name of `p`, if its last component is a name.
pub fn file_name(p: &str) -> (r: Option<String>)
    ensures
        r matches Some(s) ==> file_name_of(p@) == Some(s@),
        r is None ==> file_name_of(p@) is None,
{
    let c = components(p);
    if c.len() == 0 {
        return None;
    }
    let last = &c[c.len() - 1];
    let ghost lc = path_components(p@).last();
    assert(last@ == lc);
    let mut root: Vec<char> = Vec::new();
    root.push('/');
    let mut dot: Vec<char> = Vec::new();
    dot.push('.');
    let mut dots: Vec<char> = Vec::new();
    dots.push('.');
    dots.push('.');
    assert(root@ =~= seq!['/']);
    assert(dot@ =~= seq!['.']);
    assert(dots@ =~= seq!['.', '.']);
    if same_chars(last, &root) || same_chars(last, &dot) || same_chars(last, &dots) {
        return None;
    }
    Some(string_of(last.as_slice()))
}

} // verus!
