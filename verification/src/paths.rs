//! File paths as on Unix: texts whose parts are separated by `/`, and by nothing else.
use crate::text::{chars_of, opt_str, same_text, text_of};
use vstd::prelude::*;

verus! {

/// Where the part of `s` that ends before `b` begins: behind the last `/`, or at the start.
pub open spec fn part_start(s: Seq<char>, b: int) -> int
    decreases b,
{
    if b <= 0 || s[b - 1] == '/' {
        b
    } else {
        part_start(s, b - 1)
    }
}

/// Whether the part of `s` that ends before `b` counts: it does not when it is empty, nor when it is
/// `.` anywhere but at the start.
pub open spec fn part_counts(s: Seq<char>, b: int) -> bool {
    let a = part_start(s, b);
    &&& b == s.len() || s[b] == '/'
    &&& a < b
    &&& !(a > 0 && b == a + 1 && s[a] == '.')
}

/// The spans of the components of `s` that end at `b` at the latest; the leading `/` is one.
pub open spec fn components_to(s: Seq<char>, b: int) -> Seq<(int, int)>
    decreases b + 1,
{
    if b < 0 {
        if s.len() > 0 && s[0] == '/' {
            seq![(0, 1)]
        } else {
            Seq::empty()
        }
    } else if part_counts(s, b) {
        components_to(s, b - 1).push((part_start(s, b), b))
    } else {
        components_to(s, b - 1)
    }
}

/// The spans of the components of the path `s`.
pub open spec fn components(s: Seq<char>) -> Seq<(int, int)> {
    components_to(s, s.len() as int)
}

/// The text of one component.
pub open spec fn component_text(s: Seq<char>, c: (int, int)) -> Seq<char> {
    s.subrange(c.0, c.1)
}

/// The texts of the components of the path `s`.
pub open spec fn component_texts(s: Seq<char>) -> Seq<Seq<char>> {
    Seq::new(components(s).len(), |i: int| component_text(s, components(s)[i]))
}

/// The last component of `path` where it is a name: not `/`, not `.` and not `..`.
pub open spec fn file_name_of(path: Seq<char>) -> Option<Seq<char>> {
    let c = components(path);
    if c.len() == 0 {
        None
    } else {
        let name = component_text(path, c.last());
        if name == "/"@ || name == "."@ || name == ".."@ {
            None
        } else {
            Some(name)
        }
    }
}

/// The file name of `path`, empty where it has none.
pub open spec fn file_name_text(path: Seq<char>) -> Seq<char> {
    match file_name_of(path) {
        Some(n) => n,
        None => Seq::empty(),
    }
}

/// Whether the components of `root` are the first components of `path`.
pub open spec fn starts_with_path(path: Seq<char>, root: Seq<char>) -> bool {
    let c = components(path);
    let r = components(root);
    &&& r.len() <= c.len()
    &&& forall|i: int|
        0 <= i < r.len() ==> component_text(path, #[trigger] c[i]) == component_text(root, r[i])
}

/// What of `path` follows its first `n` components, up to the end of the last one.
pub open spec fn path_after(path: Seq<char>, n: int) -> Seq<char> {
    let c = components(path);
    if n < c.len() {
        path.subrange(c[n].0, c.last().1)
    } else {
        Seq::empty()
    }
}

/// `path` without `root` before it, where it starts with `root`; else `path` as it is.
pub open spec fn relative_to(path: Seq<char>, root: Option<Seq<char>>) -> Seq<char> {
    match root {
        Some(r) => if starts_with_path(path, r) {
            path_after(path, components(r).len() as int)
        } else {
            path
        },
        None => path,
    }
}

/// Whether the file name of `path` has the extension `rs`: something, then `.rs`.
pub open spec fn is_rust_file(path: Seq<char>) -> bool {
    let n = file_name_text(path);
    n.len() > 3 && n.skip(n.len() - 3) == seq!['.', 'r', 's']
}

pub(crate) proof fn lemma_part_start(s: Seq<char>, b: int)
    requires
        0 <= b <= s.len(),
    ensures
        0 <= part_start(s, b) <= b,
        forall|i: int| part_start(s, b) <= i < b ==> s[i] != '/',
    decreases b,
{
    if b > 0 && s[b - 1] != '/' {
        lemma_part_start(s, b - 1);
    }
}

/// The spans of components lie within the text, one behind the other.
pub(crate) proof fn lemma_components_to(s: Seq<char>, b: int)
    requires
        -1 <= b <= s.len(),
    ensures
        forall|i: int|
            0 <= i < components_to(s, b).len() ==> {
                let c = #[trigger] components_to(s, b)[i];
                0 <= c.0 < c.1 <= s.len() && (c.1 <= b || (c == (0int, 1int) && s[0] == '/'))
            },
        forall|i: int, j: int|
            0 <= i < j < components_to(s, b).len() ==> (#[trigger] components_to(s, b)[i]).1 <= (
            #[trigger] components_to(s, b)[j]).0,
    decreases b + 1,
{
    if b >= 0 {
        lemma_components_to(s, b - 1);
        lemma_part_start(s, b);
        let before = components_to(s, b - 1);
        let all = components_to(s, b);
        if part_counts(s, b) {
            let a = part_start(s, b);
            assert(all == before.push((a, b)));
            assert forall|i: int| 0 <= i < before.len() implies (#[trigger] before[i]).1 <= a by {
                let c = before[i];
                lemma_component_end(s, b - 1, i);
                if c == (0int, 1int) && s[0] == '/' {
                    if a == 0 {
                        assert(s[0] != '/');
                    }
                } else if c.1 > a {
                    assert(s[c.1] != '/');
                }
            }
        }
        assert forall|i: int| 0 <= i < all.len() implies {
            let c = #[trigger] all[i];
            0 <= c.0 < c.1 <= s.len() && (c.1 <= b || (c == (0int, 1int) && s[0] == '/'))
        } by {
            if i < before.len() {
                assert(all[i] == before[i]);
            }
        }
        assert forall|i: int, j: int| 0 <= i < j < all.len() implies (#[trigger] all[i]).1 <= (
        #[trigger] all[j]).0 by {
            assert(all[i] == before[i]);
            if j < before.len() {
                assert(all[j] == before[j]);
            }
        }
    }
}

/// Behind a component stands a `/` or the end of the text, but for the leading `/`.
pub(crate) proof fn lemma_component_end(s: Seq<char>, b: int, i: int)
    requires
        -1 <= b <= s.len(),
        0 <= i < components_to(s, b).len(),
    ensures
        components_to(s, b)[i].1 <= b || (components_to(s, b)[i] == (0int, 1int) && s[0] == '/'),
        components_to(s, b)[i] == (0int, 1int) && s[0] == '/' || components_to(s, b)[i].1 == s.len()
            || s[components_to(s, b)[i].1] == '/',
    decreases b + 1,
{
    if b >= 0 {
        if part_counts(s, b) && i == components_to(s, b - 1).len() {
        } else {
            lemma_component_end(s, b - 1, i);
        }
    }
}

/// The spans of the components of the path `v`.
pub fn split_path(v: &Vec<char>) -> (r: Vec<(usize, usize)>)
    ensures
        r@.len() == components(v@).len(),
        forall|i: int|
            0 <= i < r@.len() ==> {
                &&& (#[trigger] r@[i]).0 as int == components(v@)[i].0
                &&& r@[i].1 as int == components(v@)[i].1
                &&& r@[i].0 < r@[i].1 <= v@.len()
            },
        forall|i: int, j: int|
            0 <= i < j < r@.len() ==> (#[trigger] r@[i]).1 <= (#[trigger] r@[j]).0,
{
    let mut r: Vec<(usize, usize)> = Vec::new();
    if v.len() > 0 && v[0] == '/' {
        r.push((0, 1));
    }
    let n: usize = v.len();
    let mut a: usize = 0;
    let mut b: usize = 0;
    while b <= n
        invariant
            n == v@.len(),
            b <= n,
            a as int == part_start(v@, b as int),
            a <= n,
            r@.len() == components_to(v@, b - 1).len(),
            forall|i: int|
                0 <= i < r@.len() ==> {
                    &&& (#[trigger] r@[i]).0 as int == components_to(v@, b - 1)[i].0
                    &&& r@[i].1 as int == components_to(v@, b - 1)[i].1
                },
        decreases n + 1 - b,
    {
        proof {
            lemma_part_start(v@, b as int);
        }
        let ends = b == n || v[b] == '/';
        if ends && a < b && !(a > 0 && b == a + 1 && v[a] == '.') {
            r.push((a, b));
        }
        if b == n {
            proof {
                lemma_components_to(v@, n as int);
                assert forall|i: int, j: int| 0 <= i < j < r@.len() implies (#[trigger] r@[i]).1 <= (
                #[trigger] r@[j]).0 by {
                    assert(components_to(v@, n as int)[i].1 <= components_to(v@, n as int)[j].0);
                }
                assert forall|i: int| 0 <= i < r@.len() implies (#[trigger] r@[i]).0 < r@[i].1
                    <= v@.len() by {
                    assert(components_to(v@, n as int)[i].0 < components_to(v@, n as int)[i].1);
                }
            }
            return r;
        }
        if v[b] == '/' {
            a = b + 1;
        }
        b += 1;
    }
    r
}

/// The last component of `path`, taken as on Unix, where it is a name.
pub fn file_name(path: &str) -> (r: Option<String>)
    ensures
        match r {
            Some(n) => file_name_of(path@) == Some(n@),
            None => file_name_of(path@) is None,
        },
{
    let v = chars_of(path);
    let c = split_path(&v);
    if c.len() == 0 {
        return None;
    }
    let k: usize = c.len() - 1;
    let name = text_of(&v, c[k].0, c[k].1);
    assert(name@ == component_text(path@, components(path@).last()));
    if same_text(name.as_str(), "/") || same_text(name.as_str(), ".") || same_text(
        name.as_str(),
        "..",
    ) {
        None
    } else {
        Some(name)
    }
}

/// Whether `path`, taken as on Unix, names a Rust source file.
pub fn has_rust_extension(path: &str) -> (r: bool)
    ensures
        r == is_rust_file(path@),
{
    match file_name(path) {
        Some(name) => {
            let n = chars_of(name.as_str());
            let k: usize = n.len();
            if k > 3 && n[k - 3] == '.' && n[k - 2] == 'r' && n[k - 1] == 's' {
                assert(n@.skip(k - 3) =~= seq!['.', 'r', 's']);
                true
            } else {
                proof {
                    if k > 3 {
                        let tail = n@.skip(k - 3);
                        assert(tail[0] == n@[k - 3] && tail[1] == n@[k - 2]
                            && tail[2] == n@[k - 1]);
                    }
                }
                false
            }
        },
        None => false,
    }
}

/// The path of a file as seen from the root of the project, where it lies below it. Both are taken as
/// on Unix.
pub fn relative_file_path(file_path: &str, project_root: Option<&str>) -> (r: String)
    ensures
        r@ == relative_to(file_path@, opt_str(project_root)),
{
    match project_root {
        Some(root) => {
            let p = chars_of(file_path);
            let q = chars_of(root);
            let c = split_path(&p);
            let d = split_path(&q);
            if d.len() > c.len() {
                return file_path.to_owned();
            }
            for i in 0..d.len()
                invariant
                    project_root == Some(root),
                    p@ == file_path@,
                    q@ == root@,
                    d@.len() <= c@.len(),
                    c@.len() == components(p@).len(),
                    d@.len() == components(q@).len(),
                    forall|j: int|
                        0 <= j < c@.len() ==> {
                            &&& (#[trigger] c@[j]).0 as int == components(p@)[j].0
                            &&& c@[j].1 as int == components(p@)[j].1
                            &&& c@[j].0 < c@[j].1 <= p@.len()
                        },
                    forall|j: int|
                        0 <= j < d@.len() ==> {
                            &&& (#[trigger] d@[j]).0 as int == components(q@)[j].0
                            &&& d@[j].1 as int == components(q@)[j].1
                            &&& d@[j].0 < d@[j].1 <= q@.len()
                        },
                    forall|j: int|
                        0 <= j < i ==> component_text(p@, #[trigger] components(p@)[j])
                            == component_text(q@, components(q@)[j]),
            {
                let x = text_of(&p, c[i].0, c[i].1);
                let y = text_of(&q, d[i].0, d[i].1);
                if !same_text(x.as_str(), y.as_str()) {
                    assert(x@ == component_text(file_path@, components(file_path@)[i as int]));
                    assert(y@ == component_text(root@, components(root@)[i as int]));
                    assert(!starts_with_path(file_path@, root@));
                    return file_path.to_owned();
                }
            }
            assert(starts_with_path(file_path@, root@));
            if d.len() < c.len() {
                let from: usize = c[d.len()].0;
                let last: usize = c.len() - 1;
                proof {
                    if d@.len() < last {
                        assert(c@[d@.len() as int].1 <= c@[last as int].0);
                    }
                }
                text_of(&p, from, c[last].1)
            } else {
                String::new()
            }
        },
        None => file_path.to_owned(),
    }
}

} // verus!
