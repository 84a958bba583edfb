//! What holds of what is scanned and by which detectors, and of how it is reported.
use crate::outside::yaml_as_json;
use crate::paths::{is_rust_file, relative_to};
use crate::report::{
    detector_json, extra_json, instance_json, instances_json, members_view, metadata_json,
    response_json, scan_json, template_json, values_view, Json, JsonV, Member, MemberV,
};
use crate::scan::{
    action_for, chosen, entries_view, excluded, findings_view, scanned_paths, Action, DetectorInfo,
    DetectorResult, FindingV, PathKind,
};
use crate::text::{holds_text, same_ignoring_case, texts};
use crate::text_laws::text_stands_between;
use vstd::prelude::*;

verus! {

/// Whether `rule` is `all`, in whatever case its letters are.
pub open spec fn says_all(rule: Seq<char>) -> bool {
    &&& rule.len() == 3
    &&& rule[0] == 'a' || rule[0] == 'A'
    &&& rule[1] == 'l' || rule[1] == 'L'
    &&& rule[2] == 'l' || rule[2] == 'L'
}

pub(crate) proof fn lemma_says_all(rule: Seq<char>)
    ensures
        same_ignoring_case(rule, "all"@) == says_all(rule),
{
    reveal_strlit("all");
    let all = "all"@;
    assert(all.len() == 3 && all[0] == 'a' && all[1] == 'l' && all[2] == 'l');
    if same_ignoring_case(rule, all) {
        assert(crate::text::ascii_lower(rule[0]) == crate::text::ascii_lower(all[0]));
        assert(crate::text::ascii_lower(rule[1]) == crate::text::ascii_lower(all[1]));
        assert(crate::text::ascii_lower(rule[2]) == crate::text::ascii_lower(all[2]));
    }
}

/// A detector whose id is among the rules is chosen, however many rules there are.
pub proof fn listed_detector_is_chosen(id: Seq<char>, rules: Seq<Seq<char>>)
    requires
        rules.contains(id),
    ensures
        chosen(id, Some(rules)),
{
}

/// A single rule chooses the detector whose id it is and no other, unless it is `all`, which chooses
/// every detector.
pub proof fn single_rule_chooses_its_detector(id: Seq<char>, rule: Seq<char>)
    ensures
        !says_all(rule) ==> (chosen(id, Some(seq![rule])) <==> rule == id),
        says_all(rule) ==> chosen(id, Some(seq![rule])),
{
    let rules = seq![rule];
    lemma_says_all(rule);
    assert(rules[0] == rule);
    if rules.contains(id) {
        let i = choose|i: int| 0 <= i < rules.len() && rules[i] == id;
        assert(i == 0);
    }
    if rule == id {
        assert(rules.contains(id));
    }
}

/// One more rule beside others never takes a detector away that is named by its id, and adds none but
/// the one that it names.
pub proof fn another_rule_chooses_its_detector(
    id: Seq<char>,
    rules: Seq<Seq<char>>,
    rule: Seq<char>,
)
    requires
        rules.len() > 1,
    ensures
        chosen(id, Some(rules.push(rule))) <==> chosen(id, Some(rules)) || rule == id,
{
    let more = rules.push(rule);
    if more.contains(id) {
        let i = choose|i: int| 0 <= i < more.len() && more[i] == id;
        if i < rules.len() {
            assert(rules[i] == id);
        }
    }
    if rules.contains(id) {
        let i = choose|i: int| 0 <= i < rules.len() && rules[i] == id;
        assert(more[i] == id);
    }
    if rule == id {
        assert(more[rules.len() as int] == id);
    }
}

/// Without a list of rules every detector is chosen, and from an empty list none.
pub proof fn no_list_chooses_all_and_empty_list_none(id: Seq<char>)
    ensures
        chosen(id, None),
        !chosen(id, Some(Seq::empty())),
{
}

/// A path is excluded exactly where it is made of something, one of the patterns, and something more.
pub proof fn excluded_path_holds_a_pattern(path: Seq<char>, patterns: Seq<Seq<char>>)
    ensures
        excluded(path, patterns) <==> exists|i: int, a: Seq<char>, b: Seq<char>|
            0 <= i < patterns.len() && path == #[trigger] (a + patterns[i] + b),
{
    if excluded(path, patterns) {
        let i = choose|i: int| 0 <= i < patterns.len() && holds_text(path, #[trigger] patterns[i]);
        text_stands_between(path, patterns[i]);
        let (a, b) = choose|a: Seq<char>, b: Seq<char>|
            path == #[trigger] (a + patterns[i] + b);
        assert(path == a + patterns[i] + b);
    }
    if exists|i: int, a: Seq<char>, b: Seq<char>|
        0 <= i < patterns.len() && path == #[trigger] (a + patterns[i] + b) {
        let (i, a, b) = choose|i: int, a: Seq<char>, b: Seq<char>|
            0 <= i < patterns.len() && path == #[trigger] (a + patterns[i] + b);
        text_stands_between(path, patterns[i]);
        assert(holds_text(path, patterns[i]));
    }
}

/// What no pattern stands in is not passed over: a directory is gone into, and a Rust source file is
/// read; nothing else is.
pub proof fn what_is_not_excluded_is_visited(
    path: Seq<char>,
    canonical: Seq<char>,
    kind: PathKind,
    patterns: Seq<Seq<char>>,
)
    requires
        forall|i: int, a: Seq<char>, b: Seq<char>|
            0 <= i < patterns.len() ==> canonical != #[trigger] (a + patterns[i] + b),
    ensures
        kind == PathKind::Directory <==> action_for(path, canonical, kind, patterns)
            == Action::Descend,
        kind == PathKind::File && is_rust_file(path) <==> action_for(
            path,
            canonical,
            kind,
            patterns,
        ) == Action::Read,
{
    excluded_path_holds_a_pattern(canonical, patterns);
}

/// As many paths are reported as scanned as there are files; without a root each is the path of the
/// file, and with one it is what is left of that path without the root.
pub proof fn every_file_is_listed(paths: Seq<Seq<char>>, root: Option<Seq<char>>)
    ensures
        scanned_paths(paths, root).len() == paths.len(),
        root is None ==> scanned_paths(paths, root) == paths,
        forall|i: int|
            0 <= i < paths.len() ==> #[trigger] scanned_paths(paths, root)[i] == relative_to(
                paths[i],
                root,
            ),
{
    if root is None {
        assert(scanned_paths(paths, root) =~= paths);
    }
}

/// Whether `j` is an object in which `value` stands under `key`.
pub open spec fn tells(j: JsonV, key: Seq<char>, value: JsonV) -> bool {
    j matches JsonV::Object(m) && m.contains(MemberV { key, value })
}

proof fn lemma_tells(j: JsonV, i: int)
    requires
        j is Object,
        0 <= i < j->Object_0.len(),
    ensures
        tells(j, j->Object_0[i].key, j->Object_0[i].value),
{
    let m = j->Object_0;
    assert(m[i] == MemberV { key: m[i].key, value: m[i].value });
}

/// Whether `j` lists exactly these texts, in order.
pub open spec fn lists(j: JsonV, s: Seq<Seq<char>>) -> bool {
    &&& j matches JsonV::List(v)
    &&& v.len() == s.len()
    &&& forall|i: int| 0 <= i < s.len() ==> #[trigger] v[i] == JsonV::Text(s[i])
}

/// Whether `j` tells of pairs: each value stands under its name, and there are no more of them; it is
/// `null` where there is no list of pairs.
pub open spec fn tells_pairs(j: JsonV, extra: Option<Seq<(Seq<char>, Seq<char>)>>) -> bool {
    match extra {
        None => j == JsonV::Null,
        Some(s) => {
            &&& j matches JsonV::Object(m)
            &&& m.len() == s.len()
            &&& forall|i: int|
                0 <= i < s.len() ==> (#[trigger] m[i]).key == s[i].0 && m[i].value == JsonV::Text(
                    s[i].1,
                )
        },
    }
}

/// Whether `j` tells of a finding at `path` from `start` to `end`, with no fixes, and of what the
/// detector had to add.
pub open spec fn tells_finding(
    j: JsonV,
    path: Seq<char>,
    start: int,
    end: int,
    extra: Option<Seq<(Seq<char>, Seq<char>)>>,
) -> bool {
    &&& j matches JsonV::Object(m)
    &&& m.len() == 5
    &&& tells(j, "path"@, JsonV::Text(path))
    &&& exists|n: u64| n == start && #[trigger] tells(j, "offset_start"@, JsonV::Number(n))
    &&& exists|n: u64| n == end && #[trigger] tells(j, "offset_end"@, JsonV::Number(n))
    &&& tells(j, "fixes"@, JsonV::List(Seq::empty()))
    &&& exists|added: JsonV, inner: JsonV| #[trigger]
        tells(j, "extra"@, added) && #[trigger] tells(added, "metavars"@, inner)
            && added->Object_0.len() == 1 && tells_pairs(inner, extra)
}

/// A finding is reported with its own offsets and what was added to it. Its path is the path of the
/// finding itself where no root is given, and else the path under which that file is listed as
/// scanned.
pub proof fn finding_is_reported_as_it_is(f: FindingV, root: Option<Seq<char>>)
    ensures
        root is None ==> tells_finding(
            instance_json(f, root),
            f.file_path,
            f.offset_start as int,
            f.offset_end as int,
            f.extra,
        ),
        tells_finding(
            instance_json(f, root),
            scanned_paths(seq![f.file_path], root)[0],
            f.offset_start as int,
            f.offset_end as int,
            f.extra,
        ),
{
    let j = instance_json(f, root);
    let m = j->Object_0;
    assert(m.len() == 5);
    lemma_tells(j, 0);
    lemma_tells(j, 1);
    lemma_tells(j, 2);
    lemma_tells(j, 3);
    lemma_tells(j, 4);
    let added = m[4].value;
    lemma_tells(added, 0);
    let inner = added->Object_0[0].value;
    assert(added->Object_0.len() == 1);
    assert(tells_pairs(inner, f.extra));
    assert(tells(j, "extra"@, added) && tells(added, "metavars"@, inner));
    assert(tells(j, "offset_start"@, JsonV::Number(f.offset_start as u64)));
    assert(tells(j, "offset_end"@, JsonV::Number(f.offset_end as u64)));
    assert(seq![f.file_path][0] == f.file_path);
}

/// Findings that differ are reported differently where no root is given: the path, the offsets and
/// what was added can be read back from the report.
pub proof fn findings_are_told_apart(f: FindingV, g: FindingV)
    requires
        instance_json(f, None) == instance_json(g, None),
    ensures
        f == g,
{
    let a = instance_json(f, None)->Object_0;
    let b = instance_json(g, None)->Object_0;
    assert(a[0].value == b[0].value);
    assert(a[1].value == b[1].value);
    assert(a[2].value == b[2].value);
    assert(a[4].value == b[4].value);
    let x = a[4].value->Object_0[0].value;
    let y = b[4].value->Object_0[0].value;
    assert(x == extra_json(f.extra));
    assert(y == extra_json(g.extra));
    lemma_extras_differ(f.extra, g.extra);
}

proof fn lemma_extras_differ(
    a: Option<Seq<(Seq<char>, Seq<char>)>>,
    b: Option<Seq<(Seq<char>, Seq<char>)>>,
)
    requires
        extra_json(a) == extra_json(b),
    ensures
        a == b,
{
    if let Some(s) = a {
        if let Some(t) = b {
            let x = extra_json(a)->Object_0;
            let y = extra_json(b)->Object_0;
            assert(x.len() == s.len() && y.len() == t.len());
            assert forall|i: int| 0 <= i < s.len() implies s[i] == t[i] by {
                assert(x[i] == y[i]);
                assert(x[i].key == s[i].0 && x[i].value == JsonV::Text(s[i].1));
                assert(y[i].key == t[i].0 && y[i].value == JsonV::Text(t[i].1));
            }
            assert(s =~= t);
        }
    }
}

/// The findings of a detector are reported one by one, in order, and none is left out.
pub proof fn every_finding_is_reported(s: Seq<FindingV>, root: Option<Seq<char>>)
    ensures
        instances_json(s, root) is List,
        instances_json(s, root)->List_0.len() == s.len(),
        forall|i: int|
            0 <= i < s.len() ==> tells_finding(
                #[trigger] instances_json(s, root)->List_0[i],
                scanned_paths(seq![s[i].file_path], root)[0],
                s[i].offset_start as int,
                s[i].offset_end as int,
                s[i].extra,
            ),
{
    assert forall|i: int| 0 <= i < s.len() implies tells_finding(
        #[trigger] instances_json(s, root)->List_0[i],
        scanned_paths(seq![s[i].file_path], root)[0],
        s[i].offset_start as int,
        s[i].offset_end as int,
        s[i].extra,
    ) by {
        finding_is_reported_as_it_is(s[i], root);
    }
}

/// Whether `j` is the response of a detector that found `s`: one entry under `findings`, in which
/// each finding stands under `instances`, and nothing under `errors` and `metadata`.
pub open spec fn tells_response(j: JsonV, s: Seq<FindingV>, root: Option<Seq<char>>) -> bool {
    &&& j matches JsonV::Object(m)
    &&& m.len() == 3
    &&& tells(j, "errors"@, JsonV::List(Seq::empty()))
    &&& tells(j, "metadata"@, JsonV::Object(Seq::empty()))
    &&& exists|all: JsonV, instances: JsonV| #[trigger]
        tells(j, "findings"@, all) && all is List && all->List_0.len() == 1 && #[trigger] tells(
            all->List_0[0],
            "instances"@,
            instances,
        ) && instances is List && instances->List_0.len() == s.len() && (forall|i: int|
            0 <= i < s.len() ==> tells_finding(
                #[trigger] instances->List_0[i],
                scanned_paths(seq![s[i].file_path], root)[0],
                s[i].offset_start as int,
                s[i].offset_end as int,
                s[i].extra,
            ))
}

/// The response of a detector tells of all that it found.
pub proof fn response_tells_what_was_found(s: Seq<FindingV>, root: Option<Seq<char>>)
    ensures
        tells_response(response_json(s, root), s, root),
{
    let j = response_json(s, root);
    every_finding_is_reported(s, root);
    lemma_tells(j, 0);
    lemma_tells(j, 1);
    lemma_tells(j, 2);
    let all = j->Object_0[0].value;
    let entry = all->List_0[0];
    lemma_tells(entry, 0);
    let instances = entry->Object_0[0].value;
    assert(instances == instances_json(s, root));
    assert(tells(j, "findings"@, all));
    assert(tells(all->List_0[0], "instances"@, instances));
}

/// The report of a scan lists the files that were scanned, and under the id of each detector that
/// found something what it found; there are as many responses as there are such detectors.
pub proof fn report_tells_what_was_found(
    scanned: Seq<Seq<char>>,
    found: Seq<(Seq<char>, Seq<FindingV>)>,
    root: Option<Seq<char>>,
)
    ensures
        ({
            let j = scan_json(scanned, found, root);
            &&& j is Object
            &&& j->Object_0.len() == 3
            &&& tells(j, "errors"@, JsonV::List(Seq::empty()))
            &&& exists|v: JsonV| #[trigger] tells(j, "scanned"@, v) && lists(v, scanned)
            &&& exists|v: JsonV| #[trigger]
                tells(j, "detector_responses"@, v) && v is Object && v->Object_0.len()
                    == found.len() && (forall|i: int|
                    0 <= i < found.len() ==> (#[trigger] v->Object_0[i]).key == found[i].0
                        && tells_response(v->Object_0[i].value, found[i].1, root))
        }),
{
    let j = scan_json(scanned, found, root);
    lemma_tells(j, 0);
    lemma_tells(j, 1);
    lemma_tells(j, 2);
    let s = j->Object_0[1].value;
    assert(lists(s, scanned));
    assert(tells(j, "scanned"@, s));
    let v = j->Object_0[2].value;
    assert forall|i: int| 0 <= i < found.len() implies (#[trigger] v->Object_0[i]).key == found[i].0
        && tells_response(v->Object_0[i].value, found[i].1, root) by {
        response_tells_what_was_found(found[i].1, root);
    }
    assert(tells(j, "detector_responses"@, v));
}

/// Whether `j` tells of a detector: what it is known by, and under `report` how severe its findings
/// are, its tags and its template.
pub open spec fn tells_detector(j: JsonV, d: DetectorInfo, template: JsonV) -> bool {
    &&& j matches JsonV::Object(m)
    &&& m.len() == 4
    &&& tells(j, "id"@, JsonV::Text(d.id@))
    &&& tells(j, "uid"@, JsonV::Text(d.uid@))
    &&& tells(j, "description"@, JsonV::Text(d.description@))
    &&& exists|r: JsonV, tags: JsonV| #[trigger]
        tells(j, "report"@, r) && r->Object_0.len() == 3 && tells(
            r,
            "severity"@,
            JsonV::Text(d.severity@),
        ) && #[trigger] tells(r, "tags"@, tags) && lists(tags, texts(d.tags@)) && tells(
            r,
            "template"@,
            template,
        )
}

proof fn detector_is_told(d: DetectorInfo, template: JsonV)
    ensures
        tells_detector(detector_json(d, template), d, template),
{
    let j = detector_json(d, template);
    lemma_tells(j, 0);
    lemma_tells(j, 1);
    lemma_tells(j, 2);
    lemma_tells(j, 3);
    let r = j->Object_0[3].value;
    lemma_tells(r, 0);
    lemma_tells(r, 1);
    lemma_tells(r, 2);
    let tags = r->Object_0[1].value;
    assert(lists(tags, texts(d.tags@)));
    assert(tells(j, "report"@, r) && tells(r, "tags"@, tags));
}

/// A template that reads as a document is told as that document, and else as `null`.
pub proof fn template_is_told_where_it_reads(yml: Seq<char>)
    ensures
        yaml_as_json(yml) is None <==> template_json(yml) == JsonV::Null,
        yaml_as_json(yml) matches Some(text) ==> template_json(yml) == JsonV::Raw(text),
{
}

/// The metadata tell the name and version of the scanner, who it is from, which files it reads, and
/// of every detector, in order.
pub proof fn metadata_tell_of_every_detector(version: Seq<char>, detectors: Seq<DetectorInfo>)
    ensures
        ({
            let j = metadata_json(version, detectors);
            &&& j is Object
            &&& j->Object_0.len() == 6
            &&& tells(j, "name"@, JsonV::Text("soroban-scanner"@))
            &&& tells(
                j,
                "description"@,
                JsonV::Text("Static analyzer for Stellar Soroban source code files"@),
            )
            &&& tells(j, "version"@, JsonV::Text(version))
            &&& tells(j, "org"@, JsonV::Text("OpenZeppelin"@))
            &&& exists|v: JsonV| #[trigger]
                tells(j, "extensions"@, v) && lists(v, seq![".rs"@])
            &&& exists|v: JsonV| #[trigger]
                tells(j, "detectors"@, v) && v is List && v->List_0.len() == detectors.len() && (
                forall|i: int|
                    0 <= i < detectors.len() ==> tells_detector(
                        #[trigger] v->List_0[i],
                        detectors[i],
                        match yaml_as_json(detectors[i].template@) {
                            Some(text) => JsonV::Raw(text),
                            None => JsonV::Null,
                        },
                    ))
        }),
{
    let j = metadata_json(version, detectors);
    lemma_tells(j, 0);
    lemma_tells(j, 1);
    lemma_tells(j, 2);
    lemma_tells(j, 3);
    lemma_tells(j, 4);
    lemma_tells(j, 5);
    let e = j->Object_0[4].value;
    assert(lists(e, seq![".rs"@]));
    assert(tells(j, "extensions"@, e));
    let v = j->Object_0[5].value;
    assert forall|i: int| 0 <= i < detectors.len() implies tells_detector(
        #[trigger] v->List_0[i],
        detectors[i],
        match yaml_as_json(detectors[i].template@) {
            Some(text) => JsonV::Raw(text),
            None => JsonV::Null,
        },
    ) by {
        detector_is_told(detectors[i], template_json(detectors[i].template@));
    }
    assert(tells(j, "detectors"@, v));
}

/// A finding is seen with its own path and offsets, and with each pair that was added to it.
pub proof fn finding_is_seen_as_it_is(d: DetectorResult)
    ensures
        d.view().file_path == d.file_path@,
        d.view().offset_start == d.offset_start,
        d.view().offset_end == d.offset_end,
        d.extra is None <==> d.view().extra is None,
        d.extra matches Some(v) ==> d.view().extra->0.len() == v@.len() && forall|i: int|
            0 <= i < v@.len() ==> (#[trigger] d.view().extra->0[i]).0 == v@[i].0@
                && d.view().extra->0[i].1 == v@[i].1@,
{
}

/// Findings, texts and entries are seen one by one, in order.
pub proof fn lists_are_seen_as_they_are(
    s: Seq<DetectorResult>,
    t: Seq<String>,
    e: Seq<(String, Vec<DetectorResult>)>,
)
    ensures
        findings_view(s).len() == s.len(),
        forall|i: int| 0 <= i < s.len() ==> #[trigger] findings_view(s)[i] == s[i].view(),
        texts(t).len() == t.len(),
        forall|i: int| 0 <= i < t.len() ==> #[trigger] texts(t)[i] == t[i]@,
        entries_view(e).len() == e.len(),
        forall|i: int|
            0 <= i < e.len() ==> (#[trigger] entries_view(e)[i]).0 == e[i].0@
                && entries_view(e)[i].1 == findings_view(e[i].1@),
{
}

/// A JSON value is seen as what it is: `null`, a number, a text, a list of its values or an object of
/// its members, each in its place.
pub proof fn json_is_seen_as_it_is(n: u64, t: String, v: Vec<Json>, m: Vec<Member>)
    ensures
        Json::Null.view() == JsonV::Null,
        Json::Number(n).view() == JsonV::Number(n),
        Json::Text(t).view() == JsonV::Text(t@),
        Json::List(v).view() is List,
        Json::List(v).view()->List_0.len() == v@.len(),
        forall|i: int|
            0 <= i < v@.len() ==> #[trigger] Json::List(v).view()->List_0[i] == v@[i].view(),
        Json::Object(m).view() is Object,
        Json::Object(m).view()->Object_0.len() == m@.len(),
        forall|i: int|
            0 <= i < m@.len() ==> (#[trigger] Json::Object(m).view()->Object_0[i]).key == m@[i].key@
                && Json::Object(m).view()->Object_0[i].value == m@[i].value.view(),
{
    let a = Json::List(v).view();
    let b = Json::Object(m).view();
    assert forall|i: int| 0 <= i < v@.len() implies #[trigger] a->List_0[i] == v@[i].view() by {
        assert(values_view(v@)[i] == v@[i].view());
    }
    assert forall|i: int| 0 <= i < m@.len() implies (#[trigger] b->Object_0[i]).key == m@[i].key@
        && b->Object_0[i].value == m@[i].value.view() by {
        assert(members_view(m@)[i] == m@[i].view());
    }
}

} // verus!
