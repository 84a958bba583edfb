//! What holds of paths: how they are joined, and what is left of a path without its root.
use crate::file_provider::{module_stem, submodule_path};
use crate::paths::{
    component_text, component_texts, components, components_to, file_name_of, is_rust_file,
    lemma_component_end, lemma_components_to, lemma_part_start, part_counts, part_start, path_after,
    relative_to, starts_with_path,
};
use vstd::prelude::*;

verus! {

/// `root` with `sub` behind it; `sub` alone where it begins with `/`.
pub open spec fn joined(root: Seq<char>, sub: Seq<char>) -> Seq<char> {
    if sub.len() > 0 && sub[0] == '/' {
        sub
    } else if root.len() == 0 || root.last() == '/' {
        root + sub
    } else {
        root.push('/') + sub
    }
}

/// Whether two texts are the same path: they have the same components.
pub open spec fn same_path(a: Seq<char>, b: Seq<char>) -> bool {
    component_texts(a) == component_texts(b)
}

/// Whether `sub` is empty or begins with a component other than `/` and `.`.
pub open spec fn continues(sub: Seq<char>) -> bool {
    sub.len() > 0 ==> {
        &&& sub[0] != '/'
        &&& sub[0] == '.' ==> sub.len() > 1 && sub[1] != '/'
    }
}

/// Spans that lie `by` further on.
spec fn shifted(c: Seq<(int, int)>, by: int) -> Seq<(int, int)> {
    Seq::new(c.len(), |i: int| (c[i].0 + by, c[i].1 + by))
}

/// Where a part begins depends on what stands before its end.
proof fn lemma_same_start(s: Seq<char>, t: Seq<char>, b: int)
    requires
        0 <= b <= s.len(),
        b <= t.len(),
        forall|i: int| 0 <= i < b ==> s[i] == t[i],
    ensures
        part_start(s, b) == part_start(t, b),
    decreases b,
{
    if b > 0 {
        lemma_same_start(s, t, b - 1);
    }
}

/// Two texts that agree up to `b`, where a part ends in both or in neither, have the same components
/// up to there.
proof fn lemma_same_head(s: Seq<char>, t: Seq<char>, b: int)
    requires
        0 <= b <= s.len(),
        b <= t.len(),
        forall|i: int| 0 <= i < b ==> s[i] == t[i],
        (b == s.len() || s[b] == '/') == (b == t.len() || t[b] == '/'),
        (s.len() > 0 && s[0] == '/') == (t.len() > 0 && t[0] == '/'),
    ensures
        components_to(s, b) == components_to(t, b),
    decreases b,
{
    lemma_same_start(s, t, b);
    lemma_part_start(s, b);
    if b > 0 {
        assert(s[b - 1] == t[b - 1]);
        lemma_same_head(s, t, b - 1);
    } else {
        assert(components_to(s, -1) == components_to(t, -1));
    }
}

/// A part behind a `/` begins where it does in the text behind that `/`.
proof fn lemma_tail_start(s: Seq<char>, k: int, b: int)
    requires
        0 <= k < s.len(),
        s[k] == '/',
        0 <= b <= s.len() - k - 1,
    ensures
        part_start(s, k + 1 + b) == k + 1 + part_start(s.skip(k + 1), b),
    decreases b,
{
    if b > 0 {
        assert(s.skip(k + 1)[b - 1] == s[k + b]);
        lemma_tail_start(s, k, b - 1);
    }
}

/// The components behind a `/` are those of the text behind it.
proof fn lemma_tail_to(s: Seq<char>, k: int, b: int)
    requires
        0 <= k < s.len(),
        s[k] == '/',
        continues(s.skip(k + 1)),
        -1 <= b <= s.len() - k - 1,
    ensures
        components_to(s, k + 1 + b) == components_to(s, k) + shifted(
            components_to(s.skip(k + 1), b),
            k + 1,
        ),
    decreases b + 1,
{
    let v = s.skip(k + 1);
    let first = components_to(s, k);
    if b < 0 {
        assert(components_to(v, b) =~= Seq::empty());
        assert(first + shifted(components_to(v, b), k + 1) =~= first);
    } else {
        let e = k + 1 + b;
        let before = components_to(v, b - 1);
        lemma_tail_to(s, k, b - 1);
        lemma_tail_start(s, k, b);
        lemma_part_start(v, b);
        let a = part_start(v, b);
        if b < v.len() {
            assert(v[b] == s[e]);
        }
        if a < b {
            assert(v[a] == s[k + 1 + a]);
        }
        assert(part_counts(s, e) == part_counts(v, b));
        if part_counts(v, b) {
            assert(shifted(before.push((a, b)), k + 1) =~= shifted(before, k + 1).push(
                (k + 1 + a, e),
            ));
            assert(first + shifted(before.push((a, b)), k + 1) =~= (first + shifted(
                before,
                k + 1,
            )).push((k + 1 + a, e)));
        }
    }
}

/// The components of a text are those up to a `/` and those of the text behind it.
proof fn lemma_tail(s: Seq<char>, k: int)
    requires
        0 <= k < s.len(),
        s[k] == '/',
        continues(s.skip(k + 1)),
    ensures
        components(s) == components_to(s, k) + shifted(components(s.skip(k + 1)), k + 1),
{
    lemma_tail_to(s, k, s.len() - k - 1);
}

/// A path joined with one that continues it has the components of both.
proof fn lemma_joined(root: Seq<char>, sub: Seq<char>)
    requires
        root.len() > 0,
        continues(sub),
    ensures
        component_texts(joined(root, sub)) == component_texts(root) + component_texts(sub),
        components(joined(root, sub)).len() == components(root).len() + components(sub).len(),
{
    let s = joined(root, sub);
    let k = if root.last() == '/' {
        root.len() - 1
    } else {
        root.len() as int
    };
    assert(s[k] == '/');
    assert(s.skip(k + 1) =~= sub);
    lemma_tail(s, k);
    assert forall|i: int| 0 <= i < k implies s[i] == root[i] by {}
    assert(s[0] == root[0]);
    lemma_same_head(s, root, k);
    assert(components_to(root, k) == components(root)) by {
        if root.last() == '/' {
            assert(!part_counts(root, root.len() as int));
        }
    }
    let c = components(s);
    let r = components(root);
    let d = components(sub);
    lemma_components_to(root, root.len() as int);
    lemma_components_to(sub, sub.len() as int);
    assert forall|i: int| 0 <= i < c.len() implies #[trigger] component_texts(s)[i] == (
    component_texts(root) + component_texts(sub))[i] by {
        if i < r.len() {
            assert(c[i] == r[i]);
            assert(component_text(s, c[i]) =~= component_text(root, r[i]));
        } else {
            let j = i - r.len();
            assert(c[i] == (d[j].0 + k + 1, d[j].1 + k + 1));
            assert forall|x: int| d[j].0 <= x < d[j].1 implies s[x + k + 1] == sub[x] by {
                assert(s.skip(k + 1)[x] == sub[x]);
            }
            assert(component_text(s, c[i]) =~= component_text(sub, d[j]));
        }
    }
    assert(component_texts(s) =~= component_texts(root) + component_texts(sub));
}

/// Behind the last component nothing counts.
proof fn lemma_nothing_behind(s: Seq<char>, b: int)
    requires
        components(s).len() > 0,
        components(s).last().1 <= b <= s.len(),
        !(components(s).last() == (0int, 1int) && s[0] == '/'),
    ensures
        components_to(s, b) == components(s),
    decreases s.len() - b,
{
    if b < s.len() {
        lemma_nothing_behind(s, b + 1);
        if part_counts(s, b + 1) {
            assert(components(s).last().1 == b + 1);
        }
    }
}

/// Without what follows its last component a path has the same components.
proof fn lemma_trimmed(s: Seq<char>)
    requires
        components(s).len() > 0,
    ensures
        0 < components(s).last().1 <= s.len(),
        components(s.take(components(s).last().1)) == components(s),
{
    let c = components(s);
    let e = c.last().1;
    let t = s.take(e);
    lemma_components_to(s, s.len() as int);
    lemma_component_end(s, s.len() as int, c.len() - 1);
    assert(c[c.len() - 1] == c.last());
    if c.last() == (0int, 1int) && s[0] == '/' {
        if c.len() > 1 {
            assert(c[0].1 <= c[c.len() - 1].0);
        }
        assert(t =~= seq!['/']);
        assert(components_to(t, -1) =~= seq![(0int, 1int)]);
        assert(components_to(t, 0) =~= seq![(0int, 1int)]);
        assert(part_start(t, 1) == 1);
        assert(components_to(t, 1) =~= seq![(0int, 1int)]);
        assert(c =~= components(t));
    } else {
        lemma_nothing_behind(s, e);
        assert(t[0] == s[0]);
        lemma_same_head(s, t, e);
    }
}

/// A component that is not the first begins behind a `/`, and it is neither `/` nor `.`.
proof fn lemma_component_start(s: Seq<char>, b: int, i: int)
    requires
        -1 <= b <= s.len(),
        0 < i < components_to(s, b).len(),
    ensures
        ({
            let c = components_to(s, b)[i];
            &&& 0 < c.0 < c.1 <= s.len()
            &&& s[c.0 - 1] == '/'
            &&& s[c.0] != '/'
            &&& s[c.0] == '.' ==> c.0 + 1 < s.len() && s[c.0 + 1] != '/'
        }),
    decreases b + 1,
{
    lemma_components_to(s, b);
    let all = components_to(s, b);
    assert(all[0].1 <= all[i].0);
    assert(all[0].0 < all[0].1);
    if b >= 0 {
        lemma_part_start(s, b);
        if part_counts(s, b) && i == components_to(s, b - 1).len() {
            let a = part_start(s, b);
            assert(all[i] == (a, b));
            lemma_behind_separator(s, b);
            if s[a] == '.' {
                assert(b > a + 1);
                assert(s[a + 1] != '/');
            }
        } else {
            assert(all[i] == components_to(s, b - 1)[i]);
            lemma_component_start(s, b - 1, i);
        }
    }
}

/// A part that does not begin at the start of the text begins behind a `/`.
proof fn lemma_behind_separator(s: Seq<char>, b: int)
    requires
        0 <= b <= s.len(),
    ensures
        part_start(s, b) > 0 ==> s[part_start(s, b) - 1] == '/',
    decreases b,
{
    if b > 0 && s[b - 1] != '/' {
        lemma_behind_separator(s, b - 1);
    }
}

/// What follows the first `n` components of a path has the components that follow them.
proof fn lemma_after(path: Seq<char>, n: int)
    requires
        0 <= n < components(path).len(),
    ensures
        n > 0 ==> continues(path_after(path, n)),
        components(path_after(path, n)).len() == components(path).len() - n,
        forall|i: int|
            0 <= i < components(path).len() - n ==> #[trigger] components(path_after(path, n))[i]
                == (
                components(path)[n + i].0 - components(path)[n].0,
                components(path)[n + i].1 - components(path)[n].0,
            ),
        components(path)[n].0 < components(path).last().1 <= path.len(),
        0 <= components(path)[n].0,
        n == 0 ==> components(path)[0].0 == 0,
{
    let c = components(path);
    let e = c.last().1;
    let x = c[n].0;
    lemma_components_to(path, path.len() as int);
    lemma_trimmed(path);
    assert(c[n].1 <= c[c.len() - 1].1);
    let t = path.take(e);
    let rest = path_after(path, n);
    if n == 0 {
        lemma_first(path, path.len() as int);
        assert(rest =~= t);
    } else {
        let k = x - 1;
        lemma_component_start(path, path.len() as int, n);
        assert(t[k] == '/');
        assert(t.skip(k + 1) =~= rest);
        assert(c[n].1 <= e);
        lemma_component_end(path, path.len() as int, n);
        assert(rest[0] == path[x]);
        if rest[0] == '.' {
            // The component is longer than the `.` it begins with.
            lemma_not_dot(path, path.len() as int, n);
            assert(rest[1] == path[x + 1]);
        }
        lemma_tail(t, k);
        let first = components_to(t, k);
        let d = components(rest);
        lemma_components_to(t, k);
        lemma_components_to(rest, rest.len() as int);
        assert(c == first + shifted(d, x));
        if n < first.len() {
            assert(c[n] == first[n]);
            assert(false);
        }
        if n > first.len() {
            let m = first.len() as int;
            assert(c[m] == (d[0].0 + x, d[0].1 + x));
            assert(c[m].1 <= c[n].0);
        }
        assert forall|i: int| 0 <= i < c.len() - n implies #[trigger] d[i] == (
            c[n + i].0 - x,
            c[n + i].1 - x,
        ) by {
            assert(c[n + i] == shifted(d, x)[i]);
        }
    }
}

/// A component that is not the first is longer than a `.` that it begins with.
proof fn lemma_not_dot(s: Seq<char>, b: int, i: int)
    requires
        -1 <= b <= s.len(),
        0 < i < components_to(s, b).len(),
        s[components_to(s, b)[i].0] == '.',
    ensures
        components_to(s, b)[i].0 + 1 < components_to(s, b)[i].1,
    decreases b + 1,
{
    lemma_components_to(s, b);
    let all = components_to(s, b);
    assert(all[0].1 <= all[i].0);
    assert(all[0].0 < all[0].1);
    if b >= 0 {
        if part_counts(s, b) && i == components_to(s, b - 1).len() {
        } else {
            assert(all[i] == components_to(s, b - 1)[i]);
            lemma_not_dot(s, b - 1, i);
        }
    }
}

/// The first component begins at the start of the text.
proof fn lemma_first(s: Seq<char>, b: int)
    requires
        -1 <= b <= s.len(),
    ensures
        components_to(s, b).len() > 0 ==> components_to(s, b)[0].0 == 0,
        components_to(s, b).len() == 0 ==> forall|i: int| 0 <= i < b ==> s[i] != '/',
        components_to(s, b).len() == 0 ==> b <= 0 || b < s.len() && s[b] != '/',
    decreases b + 1,
{
    if b >= 0 {
        lemma_first(s, b - 1);
        if components_to(s, b - 1).len() == 0 {
            if b > 0 {
                assert(s[0] != '/') by {
                    if s[0] == '/' {
                        lemma_leading(s, b - 1);
                    }
                }
                assert forall|i: int| 0 <= i < b implies s[i] != '/' by {
                    if i == b - 1 && b - 1 > 0 {
                        assert(s[b - 1] != '/');
                    }
                }
                lemma_no_separator(s, b);
            }
        }
    }
}

/// A leading `/` is a component.
proof fn lemma_leading(s: Seq<char>, b: int)
    requires
        s.len() > 0,
        s[0] == '/',
        -1 <= b,
    ensures
        components_to(s, b).len() > 0,
        components_to(s, b)[0] == (0int, 1int),
    decreases b + 1,
{
    if b >= 0 {
        lemma_leading(s, b - 1);
    }
}

/// A part with no `/` before its end begins at the start of the text.
proof fn lemma_no_separator(s: Seq<char>, b: int)
    requires
        0 <= b <= s.len(),
        forall|i: int| 0 <= i < b ==> s[i] != '/',
    ensures
        part_start(s, b) == 0,
    decreases b,
{
    if b > 0 {
        lemma_no_separator(s, b - 1);
    }
}

/// Only the empty text has no component.
proof fn lemma_some_component(s: Seq<char>)
    ensures
        components(s).len() == 0 <==> s.len() == 0,
{
    lemma_first(s, s.len() as int);
    if s.len() == 0 {
        assert(components_to(s, -1) =~= Seq::empty());
        assert(!part_counts(s, 0));
    }
}

/// The components of what follows the first `n` components of a path, as texts.
proof fn lemma_after_texts(path: Seq<char>, n: int)
    requires
        0 <= n <= components(path).len(),
    ensures
        component_texts(path_after(path, n)) == component_texts(path).skip(n),
        n > 0 ==> continues(path_after(path, n)),
{
    let c = components(path);
    let rest = path_after(path, n);
    if n < c.len() {
        lemma_after(path, n);
        lemma_components_to(path, path.len() as int);
        let d = components(rest);
        assert forall|i: int| 0 <= i < d.len() implies #[trigger] component_texts(rest)[i]
            == component_texts(path).skip(n)[i] by {
            assert(c[n + i].0 >= c[n].0) by {
                if i > 0 {
                    assert(c[n].1 <= c[n + i].0);
                }
            }
            assert(c[n + i].1 <= c.last().1) by {
                if n + i < c.len() - 1 {
                    assert(c[n + i].1 <= c[c.len() - 1].0);
                }
            }
            assert(component_text(rest, d[i]) =~= component_text(path, c[n + i]));
        }
        assert(component_texts(rest) =~= component_texts(path).skip(n));
    } else {
        lemma_some_component(rest);
        assert(component_texts(rest) =~= component_texts(path).skip(n));
    }
}

/// That a path starts with a root, over the texts of their components.
proof fn lemma_starts(path: Seq<char>, root: Seq<char>)
    ensures
        starts_with_path(path, root) <==> components(root).len() <= components(path).len()
            && component_texts(path).take(components(root).len() as int) == component_texts(root),
{
    let n = components(root).len() as int;
    let c = components(path);
    let p = component_texts(path);
    let r = component_texts(root);
    if starts_with_path(path, root) {
        assert forall|i: int| 0 <= i < n implies p.take(n)[i] == r[i] by {
            assert(component_text(path, c[i]) == component_text(root, components(root)[i]));
        }
        assert(p.take(n) =~= r);
    }
    if n <= c.len() && p.take(n) == r {
        assert forall|i: int| 0 <= i < n implies component_text(path, #[trigger] c[i])
            == component_text(root, components(root)[i]) by {
            assert(p.take(n)[i] == r[i]);
        }
    }
}

/// Where no root is given, a path stays as it is.
pub proof fn no_root_keeps_path(path: Seq<char>)
    ensures
        relative_to(path, None) == path,
{
}

/// A path that does not lie below the root stays as it is.
pub proof fn path_elsewhere_is_kept(path: Seq<char>, root: Seq<char>)
    requires
        !starts_with_path(path, root),
    ensures
        relative_to(path, Some(root)) == path,
{
}

/// The root as seen from itself is the empty path.
pub proof fn root_is_empty_from_itself(root: Seq<char>)
    ensures
        relative_to(root, Some(root)) == Seq::<char>::empty(),
{
}

/// A path below the root becomes the part of it that follows the root: it ends where the last
/// component of the path ends, and begins where the first component behind the root begins.
pub proof fn path_below_root(path: Seq<char>, root: Seq<char>)
    requires
        starts_with_path(path, root),
        components(root).len() < components(path).len(),
    ensures
        relative_to(path, Some(root)) == path.subrange(
            components(path)[components(root).len() as int].0,
            components(path).last().1,
        ),
        relative_to(path, Some(root)).len() > 0,
{
    lemma_components_to(path, path.len() as int);
    let c = components(path);
    let n = components(root).len() as int;
    assert(c[n].0 < c[n].1 <= path.len());
    if n < c.len() - 1 {
        assert(c[n].1 <= c[c.len() - 1].0);
    }
    assert(c[c.len() - 1].0 < c[c.len() - 1].1 <= path.len());
}

/// What is left of a path without its root, joined on to the root, is the path again.
pub proof fn joined_root_gives_path(path: Seq<char>, root: Seq<char>)
    requires
        starts_with_path(path, root),
    ensures
        same_path(joined(root, relative_to(path, Some(root))), path),
{
    let n = components(root).len() as int;
    let rest = path_after(path, n);
    lemma_starts(path, root);
    lemma_after_texts(path, n);
    lemma_some_component(root);
    if root.len() == 0 {
        assert(joined(root, rest) =~= rest);
        assert(component_texts(path).skip(0) =~= component_texts(path));
    } else {
        lemma_joined(root, rest);
        assert(component_texts(path).take(n) + component_texts(path).skip(n) =~= component_texts(
            path,
        ));
    }
}

/// A path without `root`, and what is left of that without `sub`, is the path without the two
/// joined. Behind a root that is not empty, `sub` is a path that can follow it: one that begins
/// neither with `/` nor with a `.` of its own.
pub proof fn two_roots_are_one(path: Seq<char>, root: Seq<char>, sub: Seq<char>)
    requires
        root.len() == 0 || continues(sub),
        starts_with_path(path, joined(root, sub)),
    ensures
        starts_with_path(path, root),
        starts_with_path(relative_to(path, Some(root)), sub),
        relative_to(relative_to(path, Some(root)), Some(sub)) == relative_to(
            path,
            Some(joined(root, sub)),
        ),
{
    let whole = joined(root, sub);
    let n = components(root).len() as int;
    let m = components(sub).len() as int;
    let p = component_texts(path);
    let c = components(path);
    lemma_some_component(root);
    if root.len() == 0 {
        assert(whole =~= sub);
        assert(component_texts(root) + component_texts(sub) =~= component_texts(sub));
    } else {
        lemma_joined(root, sub);
    }
    assert(component_texts(whole) == component_texts(root) + component_texts(sub));
    lemma_starts(path, whole);
    assert(p.take(n) =~= component_texts(root)) by {
        assert(p.take(n) =~= p.take(n + m).take(n));
    }
    lemma_starts(path, root);
    let rest = path_after(path, n);
    lemma_after_texts(path, n);
    assert(p.skip(n).take(m) =~= component_texts(sub)) by {
        assert(p.skip(n).take(m) =~= p.take(n + m).skip(n));
    }
    assert(component_texts(rest).len() == components(rest).len());
    assert(components(rest).len() == c.len() - n);
    lemma_starts(rest, sub);
    assert(starts_with_path(rest, sub));
    assert(relative_to(path, Some(root)) == rest);
    if n + m < c.len() {
        lemma_after(path, n);
        lemma_after(path, n + m);
        lemma_components_to(path, path.len() as int);
        let d = components(rest);
        assert(d[m] == (c[n + m].0 - c[n].0, c[n + m].1 - c[n].0));
        assert(d[d.len() - 1].1 == c.last().1 - c[n].0);
        if m > 0 {
            assert(c[n].1 <= c[n + m].0);
        }
        assert(path_after(rest, m) =~= path_after(path, n + m));
    } else {
        assert(path_after(rest, m) =~= path_after(path, n + m));
    }
}

/// A root that begins with `/` is stripped once: what is left does not start with it any more, so
/// stripping it again changes nothing.
pub proof fn absolute_root_is_stripped_once(path: Seq<char>, root: Seq<char>)
    requires
        root.len() > 0,
        root[0] == '/',
    ensures
        starts_with_path(path, root) ==> !starts_with_path(relative_to(path, Some(root)), root),
        relative_to(relative_to(path, Some(root)), Some(root)) == relative_to(path, Some(root)),
{
    let n = components(root).len() as int;
    let rest = path_after(path, n);
    lemma_leading(root, root.len() as int);
    if starts_with_path(path, root) && starts_with_path(rest, root) {
        lemma_after_texts(path, n);
        lemma_some_component(rest);
        lemma_first(rest, rest.len() as int);
        lemma_components_to(rest, rest.len() as int);
        let c = components(rest)[0];
        assert(component_text(rest, c) == component_text(root, components(root)[0]));
        assert(component_text(rest, c)[0] == rest[0]);
        assert(component_text(root, components(root)[0])[0] == '/');
    }
}

/// A text in which no `/` stands is one component.
proof fn lemma_one_component(name: Seq<char>)
    requires
        name.len() > 0,
        !name.contains('/'),
    ensures
        components(name) == seq![(0int, name.len() as int)],
        component_texts(name) == seq![name],
{
    assert forall|i: int| 0 <= i < name.len() implies name[i] != '/' by {
        assert(name.contains(name[i]));
    }
    lemma_none_before_the_end(name, name.len() - 1);
    lemma_no_separator(name, name.len() as int);
    assert(components(name) =~= seq![(0int, name.len() as int)]);
    assert(component_text(name, (0int, name.len() as int)) =~= name);
    assert(component_texts(name) =~= seq![name]);
}

proof fn lemma_none_before_the_end(s: Seq<char>, b: int)
    requires
        -1 <= b < s.len(),
        forall|i: int| 0 <= i < s.len() ==> s[i] != '/',
    ensures
        components_to(s, b).len() == 0,
    decreases b + 1,
{
    if b >= 0 {
        lemma_none_before_the_end(s, b - 1);
        assert(s[b] != '/');
    }
}

/// A name that is put behind a directory is the file name of the whole.
pub proof fn name_behind_a_directory_is_the_file_name(directory: Seq<char>, name: Seq<char>)
    requires
        name.len() > 0,
        !name.contains('/'),
        name != seq!['.'],
        name != seq!['.', '.'],
    ensures
        file_name_of(joined(directory, name)) == Some(name),
{
    let whole = joined(directory, name);
    assert(name[0] != '/') by {
        assert(name.contains(name[0]));
    }
    if name[0] == '.' {
        if name.len() == 1 {
            assert(name =~= seq!['.']);
        }
        assert(name.contains(name[1]));
    }
    lemma_one_component(name);
    if directory.len() == 0 {
        assert(whole =~= name);
    } else {
        lemma_joined(directory, name);
    }
    let texts = component_texts(whole);
    assert(texts.last() == name) by {
        if directory.len() > 0 {
            let first = component_texts(directory);
            assert((first + seq![name]).last() == name);
        }
    }
    assert(component_text(whole, components(whole).last()) == texts[texts.len() - 1]);
    reveal_strlit("/");
    reveal_strlit(".");
    reveal_strlit("..");
    if name == "/"@ {
        assert(name[0] == '/');
    }
    if name == "."@ {
        assert(name =~= seq!['.']);
    }
    if name == ".."@ {
        assert(name =~= seq!['.', '.']);
    }
}

/// The file name of a path depends on its components alone; the last of them is the file name, unless
/// it is `/`, `.` or `..`.
pub proof fn same_path_has_the_same_file_name(a: Seq<char>, b: Seq<char>)
    ensures
        same_path(a, b) ==> file_name_of(a) == file_name_of(b),
        component_texts(a).len() == 0 ==> file_name_of(a) is None,
        file_name_of(a) matches Some(name) ==> component_texts(a).len() > 0 && name
            == component_texts(a).last(),
{
    let c = components(a);
    let d = components(b);
    if c.len() > 0 {
        assert(component_texts(a)[c.len() - 1] == component_text(a, c.last()));
    }
    if same_path(a, b) {
        assert(c.len() == component_texts(a).len());
        assert(d.len() == component_texts(b).len());
        if c.len() > 0 {
            assert(component_texts(b)[d.len() - 1] == component_text(b, d.last()));
        }
    }
}

/// `stem.rs`.
pub open spec fn rust_name(stem: Seq<char>) -> Seq<char> {
    stem + seq!['.', 'r', 's']
}

/// A path is that of a Rust source file exactly where its file name is something and `.rs`.
pub proof fn rust_file_is_told_by_its_name(path: Seq<char>)
    ensures
        is_rust_file(path) <==> exists|stem: Seq<char>|
            stem.len() > 0 && file_name_of(path) == Some(#[trigger] rust_name(stem)),
{
    if is_rust_file(path) {
        let n = file_name_of(path)->0;
        let stem = n.take(n.len() - 3);
        assert(n =~= stem + n.skip(n.len() - 3));
        assert(file_name_of(path) == Some(rust_name(stem)));
    }
    if exists|stem: Seq<char>|
        stem.len() > 0 && file_name_of(path) == Some(#[trigger] rust_name(stem)) {
        let stem = choose|stem: Seq<char>|
            stem.len() > 0 && file_name_of(path) == Some(#[trigger] rust_name(stem));
        let n = rust_name(stem);
        assert(n.skip(n.len() - 3) =~= seq!['.', 'r', 's']);
    }
}

/// A file `stem.rs` in a directory is a Rust source file, and a file of another ending is none.
pub proof fn rust_file_in_a_directory(directory: Seq<char>, stem: Seq<char>, other: Seq<char>)
    requires
        stem.len() > 0,
        !stem.contains('/'),
        other.len() > 3,
        !other.contains('/'),
        other.skip(other.len() - 3) != seq!['.', 'r', 's'],
    ensures
        is_rust_file(joined(directory, stem + seq!['.', 'r', 's'])),
        !is_rust_file(joined(directory, other)),
{
    let ending = seq!['.', 'r', 's'];
    let name = stem + ending;
    assert(!name.contains('/')) by {
        if name.contains('/') {
            let i = choose|i: int| 0 <= i < name.len() && name[i] == '/';
            if i < stem.len() {
                assert(stem[i] == '/');
                assert(stem.contains('/'));
            } else {
                assert(name[i] == ending[i - stem.len()]);
            }
        }
    }
    assert(name.len() > 3);
    name_behind_a_directory_is_the_file_name(directory, name);
    assert(name.skip(name.len() - 3) =~= ending);
    name_behind_a_directory_is_the_file_name(directory, other);
}

/// Where the file of a module is looked for: for a module `name` of the file `stem.rs` in a
/// directory, it is `name.rs` or else `name/mod.rs`, in that directory where the stem is `lib`, `main`
/// or `mod`, and else in the directory named like the stem. What is found is always a file that there
/// is.
pub proof fn module_file_is_looked_for_below(
    directory: Seq<char>,
    stem: Seq<char>,
    name: Seq<char>,
    files: Map<Seq<char>, Seq<char>>,
)
    requires
        !stem.contains('/'),
    ensures
        ({
            let path = directory.push('/') + stem + seq!['.', 'r', 's'];
            let base = if stem == seq!['l', 'i', 'b'] || stem == seq!['m', 'a', 'i', 'n'] || stem
                == seq!['m', 'o', 'd'] {
                directory.push('/')
            } else {
                (directory.push('/') + stem).push('/')
            };
            let flat = base + name + seq!['.', 'r', 's'];
            let nested = base + name + seq!['/', 'm', 'o', 'd', '.', 'r', 's'];
            &&& files.contains_key(flat) ==> submodule_path(path, name, files) == Some(flat)
            &&& !files.contains_key(flat) && files.contains_key(nested) ==> submodule_path(
                path,
                name,
                files,
            ) == Some(nested)
            &&& !files.contains_key(flat) && !files.contains_key(nested) ==> submodule_path(
                path,
                name,
                files,
            ) is None
        }),
{
    let ending = seq!['.', 'r', 's'];
    let d = directory.push('/');
    let path = d + stem + ending;
    reveal_strlit(".rs");
    reveal_strlit("/mod.rs");
    reveal_strlit("/");
    reveal_strlit("lib");
    reveal_strlit("main");
    reveal_strlit("mod");
    assert(".rs"@ =~= ending);
    assert("/mod.rs"@ =~= seq!['/', 'm', 'o', 'd', '.', 'r', 's']);
    assert("/"@ =~= seq!['/']);
    assert("lib"@ =~= seq!['l', 'i', 'b']);
    assert("main"@ =~= seq!['m', 'a', 'i', 'n']);
    assert("mod"@ =~= seq!['m', 'o', 'd']);
    lemma_start_behind(path, d.len() as int, path.len() as int);
    let file = path.skip(d.len() as int);
    assert(file =~= stem + ending);
    assert(file.skip(file.len() - 3) =~= ending);
    assert(file.take(file.len() - 3) =~= stem);
    assert(module_stem(path) == stem);
    assert(crate::file_provider::directory(path) =~= d);
    assert(d + stem + "/"@ =~= (d + stem).push('/'));
}

/// The last part of a text begins behind its last `/`.
proof fn lemma_start_behind(s: Seq<char>, k: int, b: int)
    requires
        0 < k <= b <= s.len(),
        s[k - 1] == '/',
        forall|i: int| k <= i < b ==> s[i] != '/',
    ensures
        part_start(s, b) == k,
    decreases b,
{
    if b > k {
        lemma_start_behind(s, k, b - 1);
    }
}

} // verus!
