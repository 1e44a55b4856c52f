//! Unix path arithmetic on path text: components, prefix by components, and
//! joining, as `std::path` defines them.

use vstd::prelude::*;
use crate::text::{chars_of, concat, owned, push_all, string_from_range, str_eq};

verus! {

/// The index of the first `'/'` of `s` at or after `i`, or `s.len()`.
pub open spec fn slash_from(s: Seq<char>, i: int) -> int
    decreases s.len() - i,
{
    if i < 0 || i >= s.len() {
        s.len() as int
    } else if s[i] == '/' {
        i
    } else {
        slash_from(s, i + 1)
    }
}

/// Where `slash_from` points.
pub proof fn lemma_slash_from(s: Seq<char>, i: int)
    requires
        0 <= i <= s.len(),
    ensures
        i <= slash_from(s, i) <= s.len(),
        slash_from(s, i) < s.len() ==> s[slash_from(s, i)] == '/',
        forall|j: int| i <= j < slash_from(s, i) ==> s[j] != '/',
    decreases s.len() - i,
{
    if i < s.len() && s[i] != '/' {
        lemma_slash_from(s, i + 1);
    }
}

/// The components of `s` from index `i` on: the texts between slashes,
/// without empty ones and without `"."`.
pub open spec fn parts_from(s: Seq<char>, i: int) -> Seq<Seq<char>>
    decreases s.len() - i,
{
    if i < 0 || i >= s.len() {
        Seq::empty()
    } else {
        let e = slash_from(s, i);
        proof {
            lemma_slash_from(s, i);
        }
        let g = s.subrange(i, e);
        let rest = if e < s.len() {
            parts_from(s, e + 1)
        } else {
            Seq::empty()
        };
        if g.len() == 0 || g == "."@ {
            rest
        } else {
            seq![g] + rest
        }
    }
}

/// A path names the current directory first: `"."` or `"./..."`.
pub open spec fn starts_here(s: Seq<char>) -> bool {
    s.len() > 0 && s[0] == '.' && (s.len() == 1 || s[1] == '/')
}

/// The components of a Unix path, as `Path::components` yields them: `"/"`
/// for the root, `"."` for a leading current directory, then the names and
/// `".."`s between slashes; empty names and inner `"."`s are skipped.
pub open spec fn components(s: Seq<char>) -> Seq<Seq<char>> {
    if s.len() > 0 && s[0] == '/' {
        seq!["/"@] + parts_from(s, 1)
    } else if starts_here(s) {
        seq!["."@] + parts_from(s, 1)
    } else {
        parts_from(s, 0)
    }
}

/// `Path::starts_with`: the components of `base` begin the components of
/// `p`.
pub open spec fn path_starts_with(p: Seq<char>, base: Seq<char>) -> bool {
    let a = components(p);
    let b = components(base);
    b.len() <= a.len() && a.subrange(0, b.len() as int) == b
}

/// A path is relative when it does not begin with `'/'`.
pub open spec fn is_relative(p: Seq<char>) -> bool {
    !(p.len() > 0 && p[0] == '/')
}

/// `Path::join`: an absolute `p` replaces `base`; otherwise `p` follows
/// `base`, with a slash between unless `base` is empty or ends in one.
pub open spec fn join_path(base: Seq<char>, p: Seq<char>) -> Seq<char> {
    if !is_relative(p) {
        p
    } else if base.len() > 0 && base.last() != '/' {
        base + "/"@ + p
    } else {
        base + p
    }
}

fn parts_of(v: &Vec<char>, from: usize) -> (r: Vec<String>)
    requires
        from <= v@.len(),
    ensures
        r@.len() == parts_from(v@, from as int).len(),
        forall|k: int| 0 <= k < r@.len() ==> #[trigger] r@[k]@ == parts_from(v@, from as int)[k],
{
    let n = v.len();
    let mut r: Vec<String> = Vec::new();
    let ghost mut done: Seq<Seq<char>> = Seq::empty();
    let mut i = from;
    let ghost all = parts_from(v@, from as int);
    while i < n
        invariant
            n == v@.len(),
            from <= i <= n,
            all == parts_from(v@, from as int),
            done + parts_from(v@, i as int) == all,
            r@.len() == done.len(),
            forall|k: int| 0 <= k < r@.len() ==> #[trigger] r@[k]@ == done[k],
        decreases n - i,
    {
        let mut e = i;
        while e < n && v[e] != '/'
            invariant
                i <= e <= n == v@.len(),
                slash_from(v@, i as int) == slash_from(v@, e as int),
            decreases n - e,
        {
            e = e + 1;
        }
        proof {
            lemma_slash_from(v@, e as int);
            lemma_slash_from(v@, i as int);
        }
        let g = string_from_range(v.as_slice(), i, e);
        let ghost rest = if e < n {
            parts_from(v@, e + 1)
        } else {
            Seq::<Seq<char>>::empty()
        };
        if !(g.as_str().is_empty() || str_eq(g.as_str(), ".")) {
            r.push(g);
            proof {
                assert(done + parts_from(v@, i as int) =~= done.push(g@) + rest);
                done = done.push(g@);
            }
        } else {
            assert(done + parts_from(v@, i as int) =~= done + rest);
        }
        if e < n {
            i = e + 1;
        } else {
            i = n;
            assert(parts_from(v@, n as int) =~= Seq::<Seq<char>>::empty());
            assert(done + rest =~= done + parts_from(v@, i as int));
        }
    }
    assert(parts_from(v@, i as int) =~= Seq::<Seq<char>>::empty());
    assert(done =~= all);
    r
}

/// The components of a Unix path, as `Path::components` yields them.
pub fn path_components(s: &str) -> (r: Vec<String>)
    ensures
        r@.len() == components(s@).len(),
        forall|k: int| 0 <= k < r@.len() ==> #[trigger] r@[k]@ == components(s@)[k],
{
    let v = chars_of(s);
    if v.len() > 0 && v[0] == '/' {
        let rest = parts_of(&v, 1);
        let mut r: Vec<String> = Vec::new();
        r.push(owned("/"));
        let mut k: usize = 0;
        while k < rest.len()
            invariant
                r@.len() == k + 1,
                k <= rest@.len(),
                r@[0]@ == "/"@,
                forall|j: int| 0 <= j < k ==> #[trigger] r@[j + 1]@ == rest@[j]@,
            decreases rest@.len() - k,
        {
            r.push(rest[k].clone());
            k = k + 1;
        }
        proof {
            let c = components(s@);
            assert forall|j: int| 0 <= j < r@.len() implies #[trigger] r@[j]@ == c[j] by {
                if j > 0 {
                    assert(r@[(j - 1) + 1]@ == rest@[j - 1]@);
                }
            }
        }
        r
    } else if v.len() > 0 && v[0] == '.' && (v.len() == 1 || v[1] == '/') {
        let rest = parts_of(&v, 1);
        let mut r: Vec<String> = Vec::new();
        r.push(owned("."));
        let mut k: usize = 0;
        while k < rest.len()
            invariant
                r@.len() == k + 1,
                k <= rest@.len(),
                r@[0]@ == "."@,
                forall|j: int| 0 <= j < k ==> #[trigger] r@[j + 1]@ == rest@[j]@,
            decreases rest@.len() - k,
        {
            r.push(rest[k].clone());
            k = k + 1;
        }
        proof {
            let c = components(s@);
            assert forall|j: int| 0 <= j < r@.len() implies #[trigger] r@[j]@ == c[j] by {
                if j > 0 {
                    assert(r@[(j - 1) + 1]@ == rest@[j - 1]@);
                }
            }
        }
        r
    } else {
        parts_of(&v, 0)
    }
}

/// `Path::starts_with`: whether the components of `base` begin those of `p`.
pub fn starts_with_path(p: &str, base: &str) -> (b: bool)
    ensures
        b == path_starts_with(p@, base@),
{
    let a = path_components(p);
    let c = path_components(base);
    if c.len() > a.len() {
        return false;
    }
    let n = c.len();
    for k in 0..n
        invariant
            n == c@.len() <= a@.len(),
            a@.len() == components(p@).len(),
            c@.len() == components(base@).len(),
            forall|j: int| 0 <= j < a@.len() ==> #[trigger] a@[j]@ == components(p@)[j],
            forall|j: int| 0 <= j < c@.len() ==> #[trigger] c@[j]@ == components(base@)[j],
            forall|j: int| 0 <= j < k ==> components(p@)[j] == components(base@)[j],
    {
        if !str_eq(a[k].as_str(), c[k].as_str()) {
            assert(a@[k as int]@ == components(p@)[k as int]);
            assert(components(p@).subrange(0, n as int)[k as int] != components(base@)[k as int]);
            return false;
        }
    }
    assert(components(p@).subrange(0, n as int) =~= components(base@));
    true
}

/// The texts of a list of strings.
pub open spec fn part_texts(v: Seq<String>) -> Seq<Seq<char>> {
    v.map_values(|s: String| s@)
}

/// `a` begins with the components `b`.
pub open spec fn parts_start_with(a: Seq<Seq<char>>, b: Seq<Seq<char>>) -> bool {
    b.len() <= a.len() && a.subrange(0, b.len() as int) == b
}

/// One step of lexical normalization over the components read so far:
/// `"."` is dropped; `".."` removes the last name, stays at the root, and
/// is kept when a relative path has no name left to remove; any other
/// component is appended.
pub open spec fn normal_step(stack: Seq<Seq<char>>, c: Seq<char>) -> Seq<Seq<char>> {
    if c == "."@ {
        stack
    } else if c == ".."@ {
        if stack.len() > 0 && stack.last() == "/"@ {
            stack
        } else if stack.len() > 0 && stack.last() != ".."@ {
            stack.drop_last()
        } else {
            stack.push(c)
        }
    } else {
        stack.push(c)
    }
}

/// The normal form of a list of components, read from the left.
pub open spec fn normal_fold(cs: Seq<Seq<char>>) -> Seq<Seq<char>>
    decreases cs.len(),
{
    if cs.len() == 0 {
        Seq::empty()
    } else {
        normal_step(normal_fold(cs.drop_last()), cs.last())
    }
}

/// The components of a path with `"."` and `".."` worked out by the text
/// alone, without the file system.
pub open spec fn normal_components(p: Seq<char>) -> Seq<Seq<char>> {
    normal_fold(components(p))
}

/// The components of `s` with `"."` and `".."` worked out.
pub fn normal_path_components(s: &str) -> (r: Vec<String>)
    ensures
        part_texts(r@) == normal_components(s@),
{
    let cs = path_components(s);
    let ghost cv = components(s@);
    let mut r: Vec<String> = Vec::new();
    let n = cs.len();
    assert(cv.take(0) =~= Seq::<Seq<char>>::empty());
    assert(part_texts(r@) =~= normal_fold(cv.take(0)));
    for k in 0..n
        invariant
            n == cs@.len() == cv.len(),
            cv == components(s@),
            forall|j: int| 0 <= j < cs@.len() ==> #[trigger] cs@[j]@ == cv[j],
            part_texts(r@) == normal_fold(cv.take(k as int)),
    {
        let c = &cs[k];
        let ghost before = part_texts(r@);
        proof {
            assert(cv.take(k + 1).drop_last() =~= cv.take(k as int));
            assert(cv.take(k + 1).last() == cv[k as int]);
            assert(c@ == cv[k as int]);
        }
        if str_eq(c.as_str(), ".") {
        } else if str_eq(c.as_str(), "..") {
            let m = r.len();
            if m > 0 && str_eq(r[m - 1].as_str(), "/") {
                assert(before.last() == r@[m - 1]@);
            } else if m > 0 && !str_eq(r[m - 1].as_str(), "..") {
                assert(before.last() == r@[m - 1]@);
                r.pop();
                assert(part_texts(r@) =~= before.drop_last());
            } else {
                if m > 0 {
                    assert(before.last() == r@[m - 1]@);
                }
                r.push(c.clone());
                assert(part_texts(r@) =~= before.push(c@));
            }
        } else {
            r.push(c.clone());
            assert(part_texts(r@) =~= before.push(c@));
        }
    }
    assert(cv.take(n as int) =~= cv);
    r
}

/// Whether the components `a` begin with the components `b`.
pub fn parts_begin_with(a: &Vec<String>, b: &Vec<String>) -> (r: bool)
    ensures
        r == parts_start_with(part_texts(a@), part_texts(b@)),
{
    if b.len() > a.len() {
        return false;
    }
    let n = b.len();
    for k in 0..n
        invariant
            n == b@.len() <= a@.len(),
            forall|j: int| 0 <= j < k ==> a@[j]@ == b@[j]@,
    {
        if !str_eq(a[k].as_str(), b[k].as_str()) {
            assert(part_texts(a@).subrange(0, n as int)[k as int] != part_texts(b@)[k as int]);
            return false;
        }
    }
    assert(part_texts(a@).subrange(0, n as int) =~= part_texts(b@));
    true
}

/// `p` lies under `base` once `"."` and `".."` are worked out in both.
pub open spec fn lies_under(p: Seq<char>, base: Seq<char>) -> bool {
    parts_start_with(normal_components(p), normal_components(base))
}

/// Whether `p` lies under `base` once `"."` and `".."` are worked out.
pub fn is_under(p: &str, base: &str) -> (b: bool)
    ensures
        b == lies_under(p@, base@),
{
    let a = normal_path_components(p);
    let c = normal_path_components(base);
    parts_begin_with(&a, &c)
}

/// The decision of a path sandbox. `resolved` is an absolute path whose
/// first `existing` components name something on disk, whose canonical
/// form is `canonical`; the rest do not exist yet. The path stays inside
/// `base` when that canonical form lies under it and no later component
/// climbs with `".."`: what does not exist yet holds no link, so it can
/// only descend from the canonical form.
pub open spec fn stays_inside(base: Seq<char>, resolved: Seq<char>, existing: nat, canonical: Seq<char>) -> bool {
    let cs = components(resolved);
    &&& existing <= cs.len()
    &&& lies_under(canonical, base)
    &&& forall|j: int| existing <= j < cs.len() ==> cs[j] != ".."@
}

/// Whether the path stays inside `base` (`stays_inside`).
pub fn is_inside(base: &str, resolved: &str, existing: usize, canonical: &str) -> (b: bool)
    ensures
        b == stays_inside(base@, resolved@, existing as nat, canonical@),
{
    let cs = path_components(resolved);
    if existing > cs.len() {
        return false;
    }
    if !is_under(canonical, base) {
        return false;
    }
    let n = cs.len();
    let mut j = existing;
    while j < n
        invariant
            existing <= j <= n == cs@.len() == components(resolved@).len(),
            forall|k: int| 0 <= k < cs@.len() ==> #[trigger] cs@[k]@ == components(resolved@)[k],
            forall|k: int| existing <= k < j ==> components(resolved@)[k] != ".."@,
        decreases n - j,
    {
        if str_eq(cs[j].as_str(), "..") {
            assert(cs@[j as int]@ == components(resolved@)[j as int]);
            return false;
        }
        j = j + 1;
    }
    true
}

/// `Path::join`: an absolute `p` replaces `base`; otherwise `p` follows
/// `base` after a slash.
pub fn join_paths(base: &str, p: &str) -> (r: String)
    ensures
        r@ == join_path(base@, p@),
{
    let pv = chars_of(p);
    if pv.len() > 0 && pv[0] == '/' {
        return owned(p);
    }
    let bv = chars_of(base);
    let mut r = owned(base);
    if bv.len() > 0 && bv[bv.len() - 1] != '/' {
        push_all(&mut r, "/");
    }
    push_all(&mut r, p);
    r
}

} // verus!
