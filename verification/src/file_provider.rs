//! The source texts at hand, by path, and where the text of a module is looked for. Paths are those of
//! Unix.
use crate::paths::{lemma_part_start, part_start};
use crate::text::{chars_of, is_listed, same_text, text_of, texts};
use vstd::prelude::*;

verus! {

/// A source text and its path.
#[derive(Debug, PartialEq)]
pub struct SourceFile {
    pub path: String,
    pub content: String,
}

/// The source texts at hand. Of two texts with one path, the later counts.
#[derive(Debug, PartialEq)]
pub struct FileProvider {
    files: Vec<SourceFile>,
}

/// The text that each path leads to.
pub open spec fn contents(files: Seq<SourceFile>) -> Map<Seq<char>, Seq<char>>
    decreases files.len(),
{
    if files.len() == 0 {
        Map::empty()
    } else {
        contents(files.drop_last()).insert(files.last().path@, files.last().content@)
    }
}

impl FileProvider {
    /// The text that each path leads to.
    pub closed spec fn view(&self) -> Map<Seq<char>, Seq<char>> {
        contents(self.files@)
    }

    /// No text at all.
    pub fn new() -> (r: FileProvider)
        ensures
            r@ == Map::<Seq<char>, Seq<char>>::empty(),
    {
        FileProvider { files: Vec::new() }
    }

    /// Puts `content` under `path`, in place of what was there.
    pub fn insert(&mut self, path: String, content: String)
        ensures
            final(self)@ == old(self)@.insert(path@, content@),
    {
        self.files.push(SourceFile { path, content });
        assert(self.files@.drop_last() =~= old(self).files@);
    }

    /// The place of the text under `path`.
    fn find(&self, path: &str) -> (r: Option<usize>)
        ensures
            match r {
                Some(i) => {
                    &&& i < self.files@.len()
                    &&& self@.contains_key(path@)
                    &&& self@[path@] == self.files@[i as int].content@
                },
                None => !self@.contains_key(path@),
            },
    {
        let mut i: usize = self.files.len();
        proof {
            assert(self.files@.take(i as int) =~= self.files@);
        }
        while i > 0
            invariant
                i <= self.files@.len(),
                contents(self.files@.take(i as int)).contains_key(path@) == self@.contains_key(
                    path@,
                ),
                self@.contains_key(path@) ==> contents(self.files@.take(i as int))[path@]
                    == self@[path@],
            decreases i,
        {
            i -= 1;
            proof {
                assert(self.files@.take(i + 1).drop_last() =~= self.files@.take(i as int));
            }
            if same_text(self.files[i].path.as_str(), path) {
                return Some(i);
            }
        }
        assert(self.files@.take(0) =~= Seq::<SourceFile>::empty());
        None
    }

    /// The text under `path`.
    pub fn read(&self, path: &str) -> (r: Option<&str>)
        ensures
            match r {
                Some(c) => self@.contains_key(path@) && c@ == self@[path@],
                None => !self@.contains_key(path@),
            },
    {
        match self.find(path) {
            Some(i) => Some(self.files[i].content.as_str()),
            None => None,
        }
    }

    /// The paths under which there is a text, each once.
    pub fn paths(&self) -> (r: Vec<String>)
        ensures
            texts(r@).no_duplicates(),
            texts(r@).to_set() == self@.dom(),
    {
        let mut r: Vec<String> = Vec::new();
        for i in 0..self.files.len()
            invariant
                texts(r@).no_duplicates(),
                forall|k: Seq<char>| #[trigger]
                    texts(r@).contains(k) == contents(self.files@.take(i as int)).contains_key(k),
        {
            let ghost before = r@;
            let ghost path = self.files@[i as int].path@;
            proof {
                assert(self.files@.take(i + 1).drop_last() =~= self.files@.take(i as int));
            }
            if !is_listed(&r, self.files[i].path.as_str()) {
                r.push(self.files[i].path.clone());
                proof {
                    assert(texts(r@) =~= texts(before).push(path));
                    assert forall|k: Seq<char>| #[trigger] texts(r@).contains(k) == (k == path
                        || texts(before).contains(k)) by {
                        if texts(before).contains(k) {
                            let j = choose|j: int|
                                0 <= j < texts(before).len() && texts(before)[j] == k;
                            assert(texts(r@)[j] == k);
                        }
                        assert(texts(r@)[texts(before).len() as int] == path);
                    }
                    assert(!texts(before).contains(path));
                }
            }
        }
        assert(self.files@.take(self.files@.len() as int) =~= self.files@);
        assert(texts(r@).to_set() =~= self@.dom());
        r
    }

    /// Whether there is a text under `path`.
    pub fn holds(&self, path: &str) -> (r: bool)
        ensures
            r == self@.contains_key(path@),
    {
        self.find(path).is_some()
    }
}

/// `path` up to and with its last `/`.
pub open spec fn directory(path: Seq<char>) -> Seq<char> {
    path.take(part_start(path, path.len() as int))
}

/// What of `path` follows the last `/`, without `.rs` at its end.
pub open spec fn module_stem(path: Seq<char>) -> Seq<char> {
    let name = path.skip(part_start(path, path.len() as int));
    if name.len() >= 3 && name.skip(name.len() - 3) == ".rs"@ {
        name.take(name.len() - 3)
    } else {
        name
    }
}

/// Whether the modules of a file with this stem lie beside it.
pub open spec fn is_mod_root(stem: Seq<char>) -> bool {
    stem == "mod"@ || stem == "lib"@ || stem == "main"@
}

/// Where the files of the modules of `path` lie: beside it, or in a directory named like it.
pub open spec fn module_directory(path: Seq<char>) -> Seq<char> {
    if is_mod_root(module_stem(path)) {
        directory(path)
    } else {
        directory(path) + module_stem(path) + "/"@
    }
}

/// The file of module `name` of `path`: `name.rs`, or else `name/mod.rs`.
pub open spec fn submodule_path(
    path: Seq<char>,
    name: Seq<char>,
    files: Map<Seq<char>, Seq<char>>,
) -> Option<Seq<char>> {
    let flat = module_directory(path) + name + ".rs"@;
    let nested = module_directory(path) + name + "/mod.rs"@;
    if files.contains_key(flat) {
        Some(flat)
    } else if files.contains_key(nested) {
        Some(nested)
    } else {
        None
    }
}

/// The directory in which the files of the modules of `file_path` lie, with a `/` at its end.
fn module_directory_of(file_path: &str) -> (r: String)
    ensures
        r@ == module_directory(file_path@),
{
    let v = chars_of(file_path);
    let n: usize = v.len();
    let mut k: usize = n;
    proof {
        lemma_part_start(v@, n as int);
    }
    while k > 0 && v[k - 1] != '/'
        invariant
            k <= n,
            n == v@.len(),
            part_start(v@, k as int) == part_start(v@, n as int),
        decreases k,
    {
        k -= 1;
    }
    let mut r = text_of(&v, 0, k);
    assert(r@ =~= directory(file_path@));
    let mut end: usize = n;
    let ghost name = file_path@.skip(k as int);
    proof {
        reveal_strlit(".rs");
    }
    if n - k >= 3 && v[n - 3] == '.' && v[n - 2] == 'r' && v[n - 1] == 's' {
        end = n - 3;
        assert(name.skip(name.len() - 3) =~= ".rs"@);
    } else {
        proof {
            if name.len() >= 3 {
                let tail = name.skip(name.len() - 3);
                assert(tail[0] == v@[n - 3] && tail[1] == v@[n - 2] && tail[2] == v@[n - 1]);
            }
        }
    }
    let stem = text_of(&v, k, end);
    assert(stem@ =~= module_stem(file_path@));
    if !(same_text(stem.as_str(), "mod") || same_text(stem.as_str(), "lib") || same_text(
        stem.as_str(),
        "main",
    )) {
        r.append(stem.as_str());
        r.append("/");
    }
    r
}

/// The file in which module `mod_name` of `file_path` is written, where there is one.
pub fn find_submodule_path(
    file_path: &str,
    mod_name: &str,
    file_provider: &FileProvider,
) -> (r: Option<String>)
    ensures
        match r {
            Some(p) => submodule_path(file_path@, mod_name@, file_provider@) == Some(p@),
            None => submodule_path(file_path@, mod_name@, file_provider@) is None,
        },
{
    let mut flat = module_directory_of(file_path);
    flat.append(mod_name);
    let mut nested = flat.clone();
    flat.append(".rs");
    if file_provider.holds(flat.as_str()) {
        return Some(flat);
    }
    nested.append("/mod.rs");
    if file_provider.holds(nested.as_str()) {
        return Some(nested);
    }
    None
}

} // verus!
