//! What is scanned, by which detectors, and what they found.
use crate::file_provider::FileProvider;
use crate::paths::{has_rust_extension, is_rust_file, relative_file_path, relative_to};
use crate::text::{
    contains_text, holds_text, is_listed, opt_str, same_ignoring_case, same_text,
    same_text_ignoring_case, texts,
};
use vstd::prelude::*;

verus! {

/// Whether one of the patterns stands somewhere in `path`.
pub open spec fn excluded(path: Seq<char>, patterns: Seq<Seq<char>>) -> bool {
    exists|i: int| 0 <= i < patterns.len() && holds_text(path, #[trigger] patterns[i])
}

/// Whether `path` is excluded; nothing is where there are no patterns.
pub fn is_excluded(path: &str, patterns: &Vec<String>) -> (r: bool)
    ensures
        r == excluded(path@, texts(patterns@)),
{
    for i in 0..patterns.len()
        invariant
            forall|j: int| 0 <= j < i ==> !holds_text(path@, #[trigger] texts(patterns@)[j]),
    {
        if contains_text(path, patterns[i].as_str()) {
            assert(holds_text(path@, texts(patterns@)[i as int]));
            return true;
        }
    }
    false
}

/// What a path leads to.
#[derive(Clone, Copy, PartialEq, Eq, Structural, Debug)]
pub enum PathKind {
    Directory,
    File,
    Other,
}

/// What is to be done with a path.
#[derive(Clone, Copy, PartialEq, Eq, Structural, Debug)]
pub enum Action {
    /// Nothing.
    Skip,
    /// Its entries are visited too.
    Descend,
    /// Its text is read.
    Read,
}

/// What is to be done with `path`, whose canonical form is `canonical`: nothing where that is
/// excluded; else a directory is gone into, and a Rust source file is read.
pub open spec fn action_for(
    path: Seq<char>,
    canonical: Seq<char>,
    kind: PathKind,
    patterns: Seq<Seq<char>>,
) -> Action {
    if excluded(canonical, patterns) {
        Action::Skip
    } else if kind == PathKind::Directory {
        Action::Descend
    } else if kind == PathKind::File && is_rust_file(path) {
        Action::Read
    } else {
        Action::Skip
    }
}

/// The state of a walk through directories, each of which is known by a value of type `P`.
#[derive(Debug, PartialEq)]
pub struct Walk<P> {
    /// Paths in which one of these stands are left out.
    pub exclude: Vec<String>,
    /// Directories whose entries are still to be visited.
    pub stack: Vec<P>,
    /// The texts read so far.
    pub corpus: FileProvider,
}

impl<P> Walk<P> {
    /// A walk that has not begun.
    pub fn new(exclude: Vec<String>) -> (r: Walk<P>)
        ensures
            r.exclude == exclude,
            r.stack@.len() == 0,
            r.corpus@ == Map::<Seq<char>, Seq<char>>::empty(),
    {
        Walk { exclude, stack: Vec::new(), corpus: FileProvider::new() }
    }

    /// Visits `place`, whose path reads `path` and whose canonical form is `canonical`: a directory
    /// to be gone into is put on the stack.
    pub fn visit(&mut self, place: P, path: &str, canonical: &str, kind: PathKind) -> (r: Action)
        ensures
            r == action_for(path@, canonical@, kind, texts(old(self).exclude@)),
            *final(self) == (Walk { stack: final(self).stack, ..*old(self) }),
            final(self).stack@ == (if r == Action::Descend {
                old(self).stack@.push(place)
            } else {
                old(self).stack@
            }),
    {
        if is_excluded(canonical, &self.exclude) {
            return Action::Skip;
        }
        match kind {
            PathKind::Directory => {
                self.stack.push(place);
                Action::Descend
            },
            PathKind::File => if has_rust_extension(path) {
                Action::Read
            } else {
                Action::Skip
            },
            PathKind::Other => Action::Skip,
        }
    }

    /// The directory whose entries are visited next: the one that was put on the stack last.
    pub fn next_directory(&mut self) -> (r: Option<P>)
        ensures
            *final(self) == (Walk { stack: final(self).stack, ..*old(self) }),
            match r {
                Some(d) => {
                    &&& old(self).stack@.len() > 0
                    &&& d == old(self).stack@.last()
                    &&& final(self).stack@ == old(self).stack@.drop_last()
                },
                None => old(self).stack@.len() == 0 && final(self).stack@.len() == 0,
            },
    {
        self.stack.pop()
    }

    /// Takes in the text of a file under `key`, in place of what was there.
    pub fn add_file(&mut self, key: String, content: String)
        ensures
            *final(self) == (Walk { corpus: final(self).corpus, ..*old(self) }),
            final(self).corpus@ == old(self).corpus@.insert(key@, content@),
    {
        self.corpus.insert(key, content);
    }
}

/// The paths of the files that were scanned, as seen from the root of the project.
pub open spec fn scanned_paths(paths: Seq<Seq<char>>, root: Option<Seq<char>>) -> Seq<Seq<char>> {
    Seq::new(paths.len(), |i: int| relative_to(paths[i], root))
}

/// The paths of `corpus`, each once, as seen from the root of the project.
pub fn files_scanned(corpus: &FileProvider, project_root: Option<&str>) -> (r: Vec<String>)
    ensures
        exists|paths: Seq<Seq<char>>|
            {
                &&& paths.no_duplicates()
                &&& paths.to_set() == corpus@.dom()
                &&& texts(r@) == #[trigger] scanned_paths(paths, opt_str(project_root))
            },
{
    let paths = corpus.paths();
    let mut r: Vec<String> = Vec::new();
    for i in 0..paths.len()
        invariant
            r@.len() == i,
            forall|j: int|
                0 <= j < i ==> (#[trigger] r@[j])@ == relative_to(
                    paths@[j]@,
                    opt_str(project_root),
                ),
    {
        r.push(relative_file_path(paths[i].as_str(), project_root));
    }
    assert(texts(r@) =~= scanned_paths(texts(paths@), opt_str(project_root)));
    r
}

/// What is known of a detector.
#[derive(Debug, PartialEq)]
pub struct DetectorInfo {
    pub id: String,
    pub uid: String,
    pub description: String,
    pub severity: String,
    pub tags: Vec<String>,
    pub template: String,
}

/// The detectors that are added to those at hand: none.
pub fn custom_detectors() -> (r: Vec<DetectorInfo>)
    ensures
        r@.len() == 0,
{
    Vec::new()
}

/// All detectors: those at hand, then those that are added.
pub fn available_detectors(all: Vec<DetectorInfo>) -> (r: Vec<DetectorInfo>)
    ensures
        r@ == all@,
{
    let mut r = all;
    let mut custom = custom_detectors();
    r.append(&mut custom);
    assert(r@ =~= all@);
    r
}

/// Whether the rules choose detector `id`: there are no rules, one of them is its id, or the only one
/// is `all`, in whatever case.
pub open spec fn chosen(id: Seq<char>, rules: Option<Seq<Seq<char>>>) -> bool {
    match rules {
        None => true,
        Some(r) => r.contains(id) || (r.len() == 1 && same_ignoring_case(r[0], "all"@)),
    }
}

/// The texts of an optional list.
pub open spec fn opt_texts(o: Option<&Vec<String>>) -> Option<Seq<Seq<char>>> {
    match o {
        Some(v) => Some(texts(v@)),
        None => None,
    }
}

/// Whether the rules choose detector `id`.
pub fn is_chosen(id: &str, rules: Option<&Vec<String>>) -> (r: bool)
    ensures
        r == chosen(id@, opt_texts(rules)),
{
    match rules {
        None => true,
        Some(rules) => is_listed(rules, id) || (rules.len() == 1 && same_text_ignoring_case(
            rules[0].as_str(),
            "all",
        )),
    }
}

/// The places at which a chosen id stands, in order.
pub open spec fn chosen_places(ids: Seq<Seq<char>>, rules: Option<Seq<Seq<char>>>) -> Seq<int>
    decreases ids.len(),
{
    if ids.len() == 0 {
        Seq::empty()
    } else if chosen(ids.last(), rules) {
        chosen_places(ids.drop_last(), rules).push(ids.len() - 1)
    } else {
        chosen_places(ids.drop_last(), rules)
    }
}

/// The ids of detectors.
pub open spec fn ids_of(detectors: Seq<DetectorInfo>) -> Seq<Seq<char>> {
    Seq::new(detectors.len(), |i: int| detectors[i].id@)
}

/// The places of the detectors that the rules choose, in order.
pub fn selected_detectors(detectors: &Vec<DetectorInfo>, rules: Option<&Vec<String>>) -> (r: Vec<
    usize,
>)
    ensures
        r@.map_values(|i: usize| i as int) == chosen_places(ids_of(detectors@), opt_texts(rules)),
{
    let ghost s = ids_of(detectors@);
    let mut r: Vec<usize> = Vec::new();
    assert(r@.map_values(|i: usize| i as int) =~= chosen_places(s.take(0), opt_texts(rules)));
    for i in 0..detectors.len()
        invariant
            s == ids_of(detectors@),
            r@.map_values(|i: usize| i as int) == chosen_places(s.take(i as int), opt_texts(rules)),
    {
        let ghost before = r@;
        assert(s.take(i + 1).drop_last() =~= s.take(i as int));
        if is_chosen(detectors[i].id.as_str(), rules) {
            r.push(i);
            assert(r@.map_values(|i: usize| i as int) =~= before.map_values(
                |i: usize| i as int,
            ).push(i as int));
        }
    }
    assert(s.take(s.len() as int) =~= s);
    r
}

/// What a detector found at one place.
#[derive(Debug, PartialEq)]
pub struct DetectorResult {
    pub file_path: String,
    pub offset_start: u32,
    pub offset_end: u32,
    pub extra: Option<Vec<(String, String)>>,
}

/// What a `DetectorResult` holds.
pub struct FindingV {
    pub file_path: Seq<char>,
    pub offset_start: u32,
    pub offset_end: u32,
    pub extra: Option<Seq<(Seq<char>, Seq<char>)>>,
}

/// The texts of a list of pairs.
pub open spec fn pairs_view(s: Seq<(String, String)>) -> Seq<(Seq<char>, Seq<char>)> {
    Seq::new(s.len(), |i: int| (s[i].0@, s[i].1@))
}

impl DetectorResult {
    pub open spec fn view(&self) -> FindingV {
        FindingV {
            file_path: self.file_path@,
            offset_start: self.offset_start,
            offset_end: self.offset_end,
            extra: match self.extra {
                Some(v) => Some(pairs_view(v@)),
                None => None,
            },
        }
    }
}

/// What detectors found.
pub open spec fn findings_view(s: Seq<DetectorResult>) -> Seq<FindingV> {
    Seq::new(s.len(), |i: int| s[i].view())
}

/// What became of running a detector: nothing, or what it found.
#[derive(Debug, PartialEq)]
pub struct Outcome {
    pub id: String,
    pub found: Option<Vec<DetectorResult>>,
}

/// What detectors found, by id.
#[derive(Debug, PartialEq)]
pub struct Findings {
    entries: Vec<(String, Vec<DetectorResult>)>,
}

/// What a list of entries holds.
pub open spec fn entries_view(s: Seq<(String, Vec<DetectorResult>)>) -> Seq<
    (Seq<char>, Seq<FindingV>),
> {
    Seq::new(s.len(), |i: int| (s[i].0@, findings_view(s[i].1@)))
}

/// What is found under each id.
pub open spec fn by_id(s: Seq<(Seq<char>, Seq<FindingV>)>) -> Map<Seq<char>, Seq<FindingV>>
    decreases s.len(),
{
    if s.len() == 0 {
        Map::empty()
    } else {
        by_id(s.drop_last()).insert(s.last().0, s.last().1)
    }
}

/// Whether no id comes up twice.
pub open spec fn distinct_ids(s: Seq<(Seq<char>, Seq<FindingV>)>) -> bool {
    forall|i: int, j: int| 0 <= i < j < s.len() ==> (#[trigger] s[i]).0 != (#[trigger] s[j]).0
}

/// Whether `after` is `before` with `found` under `id`: at the place of the entry that had this id, or
/// behind all others where none had.
pub open spec fn entered(
    before: Seq<(Seq<char>, Seq<FindingV>)>,
    after: Seq<(Seq<char>, Seq<FindingV>)>,
    id: Seq<char>,
    found: Seq<FindingV>,
) -> bool {
    ||| exists|i: int|
        0 <= i < before.len() && (#[trigger] before[i]).0 == id && after == before.update(
            i,
            (id, found),
        )
    ||| after == before.push((id, found)) && forall|i: int|
        0 <= i < before.len() ==> (#[trigger] before[i]).0 != id
}

/// Where no id comes up twice, each entry is found under its id, and nothing else is.
proof fn lemma_by_id(s: Seq<(Seq<char>, Seq<FindingV>)>)
    requires
        distinct_ids(s),
    ensures
        forall|i: int|
            0 <= i < s.len() ==> by_id(s).contains_key((#[trigger] s[i]).0) && by_id(s)[s[i].0]
                == s[i].1,
        forall|k: Seq<char>| #[trigger]
            by_id(s).contains_key(k) ==> exists|i: int| 0 <= i < s.len() && (#[trigger] s[i]).0 == k,
    decreases s.len(),
{
    if s.len() > 0 {
        let t = s.drop_last();
        assert forall|i: int, j: int| 0 <= i < j < t.len() implies (#[trigger] t[i]).0 != (
        #[trigger] t[j]).0 by {
            assert(t[i] == s[i] && t[j] == s[j]);
        }
        lemma_by_id(t);
        assert forall|i: int| 0 <= i < s.len() implies by_id(s).contains_key((#[trigger] s[i]).0)
            && by_id(s)[s[i].0] == s[i].1 by {
            if i < t.len() {
                assert(t[i] == s[i]);
                assert(s[i].0 != s[s.len() - 1].0);
            }
        }
        assert forall|k: Seq<char>| #[trigger] by_id(s).contains_key(k) implies exists|i: int|
            0 <= i < s.len() && (#[trigger] s[i]).0 == k by {
            if k == s.last().0 {
                assert(s[s.len() - 1].0 == k);
            } else {
                assert(by_id(t).contains_key(k));
                let i = choose|i: int| 0 <= i < t.len() && (#[trigger] t[i]).0 == k;
                assert(s[i].0 == k);
            }
        }
    }
}

impl Findings {
    /// The entries, in the order in which their ids came up first.
    pub closed spec fn listed(&self) -> Seq<(Seq<char>, Seq<FindingV>)> {
        entries_view(self.entries@)
    }

    /// What is found under each id.
    pub open spec fn view(&self) -> Map<Seq<char>, Seq<FindingV>> {
        by_id(self.listed())
    }

    /// Whether no id comes up twice.
    pub open spec fn wf(&self) -> bool {
        distinct_ids(self.listed())
    }

    /// Nothing found.
    pub fn new() -> (r: Findings)
        ensures
            r@ == Map::<Seq<char>, Seq<FindingV>>::empty(),
            r.listed().len() == 0,
            r.wf(),
    {
        Findings { entries: Vec::new() }
    }

    /// The entries, in the order in which their ids came up first.
    pub fn entries(&self) -> (r: &Vec<(String, Vec<DetectorResult>)>)
        ensures
            entries_view(r@) == self.listed(),
    {
        &self.entries
    }

    /// Puts `found` under `id`, in place of what was there.
    pub fn insert(&mut self, id: String, found: Vec<DetectorResult>)
        requires
            old(self).wf(),
        ensures
            final(self).wf(),
            final(self)@ == old(self)@.insert(id@, findings_view(found@)),
            entered(old(self).listed(), final(self).listed(), id@, findings_view(found@)),
    {
        let n: usize = self.entries.len();
        let ghost before = self.listed();
        let ghost value = findings_view(found@);
        proof {
            lemma_by_id(before);
        }
        let mut i: usize = 0;
        while i < n
            invariant
                n == self.entries@.len(),
                *self == *old(self),
                before == self.listed(),
                value == findings_view(found@),
                distinct_ids(before),
                i <= n,
                forall|j: int| 0 <= j < i ==> (#[trigger] before[j]).0 != id@,
            decreases n - i,
        {
            if same_text(self.entries[i].0.as_str(), id.as_str()) {
                let ghost at = i as int;
                let ghost key = id@;
                assert(before[at].0 == key);
                self.entries.set(i, (id, found));
                proof {
                    assert(self.listed() =~= before.update(at, (key, value)));
                    lemma_replaced(before, at, value);
                }
                return ;
            }
            i += 1;
        }
        let ghost key = id@;
        self.entries.push((id, found));
        proof {
            assert(self.listed() =~= before.push((key, value)));
            assert(self.listed().drop_last() =~= before);
        }
    }

    /// Takes in what became of running a detector.
    pub fn take(&mut self, outcome: Outcome)
        requires
            old(self).wf(),
        ensures
            final(self).wf(),
            final(self)@ == with_outcome(old(self)@, outcome),
            match outcome.found {
                Some(found) => entered(
                    old(self).listed(),
                    final(self).listed(),
                    outcome.id@,
                    findings_view(found@),
                ),
                None => *final(self) == *old(self),
            },
    {
        if let Some(found) = outcome.found {
            self.insert(outcome.id, found);
        }
    }
}

/// Putting another value in the place of an entry changes what is found under its id.
proof fn lemma_replaced(s: Seq<(Seq<char>, Seq<FindingV>)>, at: int, value: Seq<FindingV>)
    requires
        distinct_ids(s),
        0 <= at < s.len(),
    ensures
        distinct_ids(s.update(at, (s[at].0, value))),
        by_id(s.update(at, (s[at].0, value))) == by_id(s).insert(s[at].0, value),
{
    let t = s.update(at, (s[at].0, value));
    let key = s[at].0;
    assert forall|i: int| 0 <= i < t.len() implies (#[trigger] t[i]).0 == s[i].0 by {}
    lemma_by_id(s);
    lemma_by_id(t);
    assert forall|k: Seq<char>| #[trigger] by_id(t).contains_key(k) == by_id(s).insert(
        key,
        value,
    ).contains_key(k) by {
        if by_id(t).contains_key(k) {
            let i = choose|i: int| 0 <= i < t.len() && (#[trigger] t[i]).0 == k;
            assert(s[i].0 == k);
        }
        if by_id(s).contains_key(k) {
            let i = choose|i: int| 0 <= i < s.len() && (#[trigger] s[i]).0 == k;
            assert(t[i].0 == k);
        }
        assert(t[at].0 == key);
    }
    assert forall|k: Seq<char>| #[trigger] by_id(t).contains_key(k) implies by_id(t)[k] == by_id(
        s,
    ).insert(key, value)[k] by {
        let i = choose|i: int| 0 <= i < t.len() && (#[trigger] t[i]).0 == k;
        assert(s[i].0 == k);
        assert(t[at].0 == key);
    }
    assert(by_id(t) =~= by_id(s).insert(key, value));
}

/// What is found once an outcome is taken in: a detector that found nothing changes nothing.
pub open spec fn with_outcome(m: Map<Seq<char>, Seq<FindingV>>, outcome: Outcome) -> Map<
    Seq<char>,
    Seq<FindingV>,
> {
    match outcome.found {
        Some(found) => m.insert(outcome.id@, findings_view(found@)),
        None => m,
    }
}

/// What is found once several outcomes are taken in, one behind the other.
pub open spec fn with_outcomes(m: Map<Seq<char>, Seq<FindingV>>, outcomes: Seq<Outcome>) -> Map<
    Seq<char>,
    Seq<FindingV>,
>
    decreases outcomes.len(),
{
    if outcomes.len() == 0 {
        m
    } else {
        with_outcome(with_outcomes(m, outcomes.drop_last()), outcomes.last())
    }
}

/// What is found once the detector that was loaded, if there is one, has been run.
pub open spec fn with_loaded(loaded: Option<Outcome>) -> Map<Seq<char>, Seq<FindingV>> {
    match loaded {
        Some(o) => with_outcome(Map::empty(), o),
        None => Map::empty(),
    }
}

/// What the detectors found: first the one that was loaded, then those that were selected. Of two
/// with the same id the later counts.
pub fn execute_detectors(loaded: Option<Outcome>, selected: Vec<Outcome>) -> (r: Findings)
    ensures
        r.wf(),
        r@ == with_outcomes(with_loaded(loaded), selected@),
{
    let mut r = Findings::new();
    if let Some(o) = loaded {
        r.take(o);
    }
    let ghost first = r@;
    let ghost all = selected@;
    let mut rest = selected;
    let mut todo: Vec<Outcome> = Vec::new();
    while rest.len() > 0
        invariant
            rest@.len() + todo@.len() == all.len(),
            forall|i: int| 0 <= i < rest@.len() ==> rest@[i] == all[i],
            forall|i: int| 0 <= i < todo@.len() ==> todo@[i] == all[all.len() - 1 - i],
        decreases rest@.len(),
    {
        if let Some(o) = rest.pop() {
            todo.push(o);
        }
    }
    while todo.len() > 0
        invariant
            todo@.len() <= all.len(),
            forall|i: int| 0 <= i < todo@.len() ==> todo@[i] == all[all.len() - 1 - i],
            r.wf(),
            r@ == with_outcomes(first, all.take(all.len() - todo@.len())),
        decreases todo@.len(),
    {
        let ghost done = all.len() - todo@.len();
        if let Some(o) = todo.pop() {
            proof {
                assert(o == all[done]);
                assert(all.take(done + 1).drop_last() =~= all.take(done));
            }
            r.take(o);
        }
    }
    assert(all.take(all.len() as int) =~= all);
    r
}

} // verus!
