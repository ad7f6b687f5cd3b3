//! A model of Unix paths as `std::path` reads them: a path is a string, split into
//! components at `'/'`; equality and prefix tests go by components.
use vstd::prelude::*;

use crate::text::{chars_of, chars_eq, push_char, push_chars, string_of};

verus! {

/// One component of a path, as a mathematical value.
pub enum SpecComponent {
    RootDir,
    CurDir,
    ParentDir,
    Normal(Seq<char>),
}

/// One component of a path.
pub enum Component {
    RootDir,
    CurDir,
    ParentDir,
    Normal(Vec<char>),
}

impl Component {
    pub open spec fn view(&self) -> SpecComponent {
        match self {
            Component::RootDir => SpecComponent::RootDir,
            Component::CurDir => SpecComponent::CurDir,
            Component::ParentDir => SpecComponent::ParentDir,
            Component::Normal(v) => SpecComponent::Normal(v@),
        }
    }
}

/// The views of a sequence of components.
pub open spec fn comps_view(v: Seq<Component>) -> Seq<SpecComponent> {
    v.map_values(|c: Component| c.view())
}

/// Length of the first segment of `s`: the position of its first `'/'`, or its length.
pub open spec fn seg_end(s: Seq<char>) -> nat
    decreases s.len(),
{
    if s.len() == 0 {
        0
    } else if s[0] == '/' {
        0
    } else {
        1 + seg_end(s.drop_first())
    }
}

proof fn lemma_seg_end_bound(s: Seq<char>)
    ensures
        seg_end(s) <= s.len(),
        seg_end(s) < s.len() ==> s[seg_end(s) as int] == '/',
    decreases s.len(),
{
    if s.len() > 0 && s[0] != '/' {
        lemma_seg_end_bound(s.drop_first());
    }
}

/// The pieces of `s` between its `'/'` separators (empty pieces included).
pub open spec fn split_slash(s: Seq<char>) -> Seq<Seq<char>>
    decreases s.len(),
{
    let k = seg_end(s);
    if k >= s.len() {
        seq![s]
    } else {
        seq![s.subrange(0, k as int)] + split_slash(s.subrange(k as int + 1, s.len() as int))
    }
}

/// The segment `"."`.
pub open spec fn dot() -> Seq<char> {
    seq!['.']
}

/// The segment `".."`.
pub open spec fn dot_dot() -> Seq<char> {
    seq!['.', '.']
}

/// The component a segment stands for, if any: empty and `"."` segments stand for none.
pub open spec fn seg_comps(segs: Seq<Seq<char>>) -> Seq<SpecComponent>
    decreases segs.len(),
{
    if segs.len() == 0 {
        Seq::empty()
    } else {
        let h = segs[0];
        let rest = seg_comps(segs.drop_first());
        if h.len() == 0 || h == dot() {
            rest
        } else if h == dot_dot() {
            seq![SpecComponent::ParentDir] + rest
        } else {
            seq![SpecComponent::Normal(h)] + rest
        }
    }
}

/// The components of a path (`Path::components` on Unix): a leading `'/'` gives the
/// root, a leading `"."` segment of a relative path gives the current directory, `".."`
/// gives the parent directory, and empty or other `"."` segments are skipped.
pub open spec fn components(s: Seq<char>) -> Seq<SpecComponent> {
    let segs = split_slash(s);
    if s.len() > 0 && s[0] == '/' {
        seq![SpecComponent::RootDir] + seg_comps(segs)
    } else if segs[0] == dot() {
        seq![SpecComponent::CurDir] + seg_comps(segs.drop_first())
    } else {
        seg_comps(segs)
    }
}

/// Path equality (`Path == Path`): the components agree.
pub open spec fn path_eq(a: Seq<char>, b: Seq<char>) -> bool {
    components(a) == components(b)
}

/// `Path::starts_with`: the components of `base` are a prefix of those of `p`.
pub open spec fn path_starts_with(p: Seq<char>, base: Seq<char>) -> bool {
    components(base).is_prefix_of(components(p))
}

/// `PathBuf::join` on Unix: an absolute `p` replaces `base`; otherwise `p` is appended,
/// after a `'/'` unless `base` is empty or already ends in one.
pub open spec fn join(base: Seq<char>, p: Seq<char>) -> Seq<char> {
    if p.len() > 0 && p[0] == '/' {
        p
    } else if base.len() == 0 || base.last() == '/' {
        base + p
    } else {
        base.push('/') + p
    }
}

/// `Path::file_name`: the last component, when it is a normal one.
pub open spec fn file_name(s: Seq<char>) -> Option<Seq<char>> {
    let c = components(s);
    if c.len() > 0 && c.last() is Normal {
        Some(c.last()->Normal_0)
    } else {
        None
    }
}

/// The position of the first `'/'` at or after `from`, or the length of `v`.
fn next_slash(v: &Vec<char>, from: usize) -> (r: usize)
    requires
        from <= v.len(),
    ensures
        from <= r <= v.len(),
        r - from == seg_end(v@.subrange(from as int, v.len() as int)),
{
    let mut i: usize = from;
    while i < v.len() && v[i] != '/'
        invariant
            from <= i <= v.len(),
            seg_end(v@.subrange(from as int, v.len() as int)) == (i - from) + seg_end(
                v@.subrange(i as int, v.len() as int),
            ),
        decreases v.len() - i,
    {
        assert(v@.subrange(i as int, v.len() as int).drop_first() =~= v@.subrange(
            i + 1,
            v.len() as int,
        ));
        i = i + 1;
    }
    i
}

/// Whether `v[from..to]` is the segment `"."`.
fn is_dot(v: &Vec<char>, from: usize, to: usize) -> (r: bool)
    requires
        from <= to <= v.len(),
    ensures
        r == (v@.subrange(from as int, to as int) == dot()),
{
    let ghost seg = v@.subrange(from as int, to as int);
    assert(dot().len() == 1 && dot()[0] == '.');
    if to - from == 1 && v[from] == '.' {
        assert(seg =~= dot());
        true
    } else {
        if to - from == 1 {
            assert(seg[0] == v@[from as int]);
            assert(seg[0] != dot()[0]);
        } else {
            assert(seg.len() != dot().len());
        }
        false
    }
}

/// Whether `v[from..to]` is the segment `".."`.
fn is_dot_dot(v: &Vec<char>, from: usize, to: usize) -> (r: bool)
    requires
        from <= to <= v.len(),
    ensures
        r == (v@.subrange(from as int, to as int) == dot_dot()),
{
    let ghost seg = v@.subrange(from as int, to as int);
    assert(dot_dot().len() == 2 && dot_dot()[0] == '.' && dot_dot()[1] == '.');
    if to - from != 2 {
        assert(seg.len() != dot_dot().len());
        return false;
    }
    assert(seg[0] == v@[from as int] && seg[1] == v@[from + 1]);
    if v[from] == '.' && v[from + 1] == '.' {
        assert(seg =~= dot_dot());
        true
    } else {
        false
    }
}

/// The components of the segments of `v[from..]`, appended to `out`.
fn push_seg_comps(v: &Vec<char>, from: usize, out: &mut Vec<Component>)
    requires
        from <= v.len(),
    ensures
        comps_view(final(out)@) == comps_view(old(out)@) + seg_comps(
            split_slash(v@.subrange(from as int, v.len() as int)),
        ),
{
    let mut i: usize = from;
    let mut done = false;
    while !done
        invariant
            from <= i <= v.len(),
            !done ==> comps_view(old(out)@) + seg_comps(
                split_slash(v@.subrange(from as int, v.len() as int)),
            ) == comps_view(out@) + seg_comps(split_slash(v@.subrange(i as int, v.len() as int))),
            done ==> comps_view(old(out)@) + seg_comps(
                split_slash(v@.subrange(from as int, v.len() as int)),
            ) == comps_view(out@),
        decreases v.len() - i + (if done { 0int } else { 1int }),
    {
        let ghost rest = v@.subrange(i as int, v.len() as int);
        let ghost before = comps_view(out@);
        let k = next_slash(v, i);
        proof {
            lemma_seg_end_bound(rest);
        }
        let seg_is_empty = k == i;
        let seg_is_dot = is_dot(v, i, k);
        let seg_is_dot_dot = is_dot_dot(v, i, k);
        let ghost seg = v@.subrange(i as int, k as int);
        if seg_is_empty || seg_is_dot {
        } else if seg_is_dot_dot {
            out.push(Component::ParentDir);
        } else {
            let mut name: Vec<char> = Vec::new();
            let mut j: usize = i;
            while j < k
                invariant
                    i <= j <= k <= v.len(),
                    name@ == v@.subrange(i as int, j as int),
                decreases k - j,
            {
                name.push(v[j]);
                j = j + 1;
                assert(name@ =~= v@.subrange(i as int, j as int));
            }
            out.push(Component::Normal(name));
        }
        let ghost head = if seg.len() == 0 || seg == dot() {
            Seq::<SpecComponent>::empty()
        } else if seg == dot_dot() {
            seq![SpecComponent::ParentDir]
        } else {
            seq![SpecComponent::Normal(seg)]
        };
        assert(comps_view(out@) =~= before + head);
        if k == v.len() {
            assert(rest.subrange(0, (k - i) as int) =~= seg);
            assert(split_slash(rest) == seq![rest]);
            assert(rest =~= seg);
            assert(seq![rest].drop_first() =~= Seq::<Seq<char>>::empty());
            assert(seg_comps(Seq::<Seq<char>>::empty()) =~= Seq::<SpecComponent>::empty());
            assert(seq![rest][0] == seg);
            assert(seg_comps(seq![rest]) =~= head + seg_comps(seq![rest].drop_first()));
            assert(seg_comps(split_slash(rest)) =~= head);
            done = true;
        } else {
            assert(rest.subrange(0, (k - i) as int) =~= seg);
            assert(rest.subrange((k - i) + 1, rest.len() as int) =~= v@.subrange(
                k + 1,
                v.len() as int,
            ));
            let ghost tail = split_slash(v@.subrange(k + 1, v.len() as int));
            assert(split_slash(rest) == seq![seg] + tail);
            assert((seq![seg] + tail).drop_first() =~= tail);
            assert(seg_comps(split_slash(rest)) =~= head + seg_comps(tail));
            i = k + 1;
        }
    }
}

/// The components of a path.
pub fn components_of(v: &Vec<char>) -> (out: Vec<Component>)
    ensures
        comps_view(out@) == components(v@),
{
    let mut out: Vec<Component> = Vec::new();
    assert(v@.subrange(0, v.len() as int) =~= v@);
    if v.len() > 0 && v[0] == '/' {
        out.push(Component::RootDir);
        assert(comps_view(out@) =~= seq![SpecComponent::RootDir]);
        push_seg_comps(v, 0, &mut out);
        return out;
    }
    let k = next_slash(v, 0);
    proof {
        lemma_seg_end_bound(v@);
    }
    let first_is_dot = is_dot(v, 0, k);
    proof {
        if k >= v.len() {
            assert(split_slash(v@)[0] == v@);
        } else {
            assert(split_slash(v@)[0] == v@.subrange(0, k as int));
        }
        assert(split_slash(v@)[0] =~= v@.subrange(0, k as int));
    }
    if first_is_dot {
        out.push(Component::CurDir);
        assert(comps_view(out@) =~= seq![SpecComponent::CurDir]);
        if k == v.len() {
            assert(split_slash(v@) == seq![v@]);
            assert(seq![v@].drop_first() =~= Seq::<Seq<char>>::empty());
            assert(comps_view(out@) =~= seq![SpecComponent::CurDir] + Seq::<SpecComponent>::empty());
        } else {
            assert(split_slash(v@) == seq![v@.subrange(0, k as int)] + split_slash(
                v@.subrange(k + 1, v.len() as int),
            ));
            assert((seq![v@.subrange(0, k as int)] + split_slash(
                v@.subrange(k + 1, v.len() as int),
            )).drop_first() =~= split_slash(v@.subrange(k + 1, v.len() as int)));
            push_seg_comps(v, k + 1, &mut out);
        }
        return out;
    }
    push_seg_comps(v, 0, &mut out);
    out
}

/// Whether two components are equal.
pub fn component_eq(a: &Component, b: &Component) -> (r: bool)
    ensures
        r == (a.view() == b.view()),
{
    match (a, b) {
        (Component::RootDir, Component::RootDir) => true,
        (Component::CurDir, Component::CurDir) => true,
        (Component::ParentDir, Component::ParentDir) => true,
        (Component::Normal(x), Component::Normal(y)) => chars_eq(x, y),
        _ => false,
    }
}

/// Whether the components `b` are a prefix of the components `a`.
pub fn comps_prefix(a: &Vec<Component>, b: &Vec<Component>) -> (r: bool)
    ensures
        r == comps_view(b@).is_prefix_of(comps_view(a@)),
{
    if b.len() > a.len() {
        return false;
    }
    let mut i: usize = 0;
    while i < b.len()
        invariant
            b.len() <= a.len(),
            0 <= i <= b.len(),
            forall|k: int| 0 <= k < i ==> a@[k].view() == b@[k].view(),
        decreases b.len() - i,
    {
        if !component_eq(&a[i], &b[i]) {
            assert(comps_view(a@).subrange(0, b.len() as int)[i as int] != comps_view(b@)[i as int]);
            return false;
        }
        i = i + 1;
    }
    assert(comps_view(b@) =~= comps_view(a@).subrange(0, b.len() as int));
    true
}

/// Path equality (`Path == Path`).
pub fn path_eq_exec(a: &str, b: &str) -> (r: bool)
    ensures
        r == path_eq(a@, b@),
{
    let ca = components_of(&chars_of(a));
    let cb = components_of(&chars_of(b));
    let r = ca.len() == cb.len() && comps_prefix(&ca, &cb);
    proof {
        if r {
            assert(comps_view(cb@) =~= comps_view(ca@));
        } else if comps_view(ca@) == comps_view(cb@) {
            assert(comps_view(ca@).len() == ca@.len());
            assert(comps_view(cb@).len() == cb@.len());
        }
    }
    r
}

/// `Path::starts_with`.
pub fn path_starts_with_exec(p: &str, base: &str) -> (r: bool)
    ensures
        r == path_starts_with(p@, base@),
{
    let cp = components_of(&chars_of(p));
    let cb = components_of(&chars_of(base));
    comps_prefix(&cp, &cb)
}

/// `PathBuf::join`.
pub fn join_exec(base: &str, p: &str) -> (out: String)
    ensures
        out@ == join(base@, p@),
{
    let vb = chars_of(base);
    let vp = chars_of(p);
    if vp.len() > 0 && vp[0] == '/' {
        return string_of(&vp, 0, vp.len());
    }
    let mut out = string_of(&vb, 0, vb.len());
    if !(vb.len() == 0 || vb[vb.len() - 1] == '/') {
        push_char(&mut out, '/');
    }
    push_chars(&mut out, &vp, 0, vp.len());
    proof {
        assert(vb@.subrange(0, vb.len() as int) =~= vb@);
        assert(vp@.subrange(0, vp.len() as int) =~= vp@);
    }
    out
}

/// `Path::file_name`.
pub fn file_name_exec(s: &str) -> (out: Option<String>)
    ensures
        out matches Some(n) ==> file_name(s@) == Some(n@),
        out is None ==> file_name(s@) is None,
{
    let mut c = components_of(&chars_of(s));
    let n = c.len();
    if n == 0 {
        return None;
    }
    let ghost cv = comps_view(c@);
    assert(cv.last() == c@[n - 1].view());
    match c.pop() {
        Some(Component::Normal(v)) => Some(string_of(&v, 0, v.len())),
        _ => None,
    }
}

/// The position of the last `c` in `s`, or `-1` when there is none.
pub open spec fn last_index_of(s: Seq<char>, c: char) -> int
    decreases s.len(),
{
    if s.len() == 0 {
        -1
    } else if s.last() == c {
        s.len() - 1
    } else {
        last_index_of(s.drop_last(), c)
    }
}

/// `Path::extension`: what follows the last `'.'` of the file name, when that dot is not
/// the name's first character.
pub open spec fn extension(path: Seq<char>) -> Option<Seq<char>> {
    match file_name(path) {
        Some(n) => {
            let i = last_index_of(n, '.');
            if i > 0 {
                Some(n.subrange(i + 1, n.len() as int))
            } else {
                None
            }
        },
        None => None,
    }
}

/// `Path::extension`.
pub fn extension_exec(s: &str) -> (out: Option<String>)
    ensures
        match out {
            Some(e) => extension(s@) == Some(e@),
            None => extension(s@) is None,
        },
{
    match file_name_exec(s) {
        None => None,
        Some(n) => {
            let v = chars_of(n.as_str());
            let ghost nv = v@;
            let mut j: usize = v.len();
            assert(nv.take(j as int) =~= nv);
            while j > 0 && v[j - 1] != '.'
                invariant
                    j <= v.len(),
                    nv == v@,
                    last_index_of(nv, '.') == last_index_of(nv.take(j as int), '.'),
                decreases j,
            {
                assert(nv.take(j as int).drop_last() =~= nv.take(j - 1));
                j = j - 1;
            }
            proof {
                if j == 0 {
                    assert(nv.take(0) =~= Seq::<char>::empty());
                } else {
                    assert(nv.take(j as int).last() == '.');
                }
            }
            if j > 1 {
                Some(string_of(&v, j, v.len()))
            } else {
                None
            }
        },
    }
}

} // verus!
