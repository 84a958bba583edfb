//! The reports that are handed out, as values of a JSON document.
use crate::outside::{json_source, yaml_as_json, yaml_to_json};
use crate::paths::{relative_file_path, relative_to};
use crate::scan::{
    entries_view, findings_view, pairs_view, DetectorInfo, DetectorResult, FindingV, Findings,
};
use crate::text::{opt_str, texts};
use vstd::prelude::*;

verus! {

/// A JSON value. The members of an object stand in the order in which they are listed.
#[derive(Debug, PartialEq)]
pub enum Json {
    Null,
    Number(u64),
    Text(String),
    List(Vec<Json>),
    Object(Vec<Member>),
    /// A value that is taken as it is.
    Raw(serde_json::Value),
}

/// A member of an object.
#[derive(Debug, PartialEq)]
pub struct Member {
    pub key: String,
    pub value: Json,
}

/// What a `Json` holds.
pub enum JsonV {
    Null,
    Number(u64),
    Text(Seq<char>),
    List(Seq<JsonV>),
    Object(Seq<MemberV>),
    /// A value that reads so as a JSON text.
    Raw(Seq<char>),
}

/// What a `Member` holds.
pub struct MemberV {
    pub key: Seq<char>,
    pub value: JsonV,
}

impl Json {
    pub open spec fn view(&self) -> JsonV
        decreases self,
    {
        match self {
            Json::Null => JsonV::Null,
            Json::Number(n) => JsonV::Number(*n),
            Json::Text(s) => JsonV::Text(s@),
            Json::List(v) => JsonV::List(values_view(v@)),
            Json::Object(v) => JsonV::Object(members_view(v@)),
            Json::Raw(v) => JsonV::Raw(json_source(*v)),
        }
    }
}

impl Member {
    pub open spec fn view(&self) -> MemberV
        decreases self,
    {
        MemberV { key: self.key@, value: self.value.view() }
    }
}

/// The views of a list of values.
pub open spec fn values_view(s: Seq<Json>) -> Seq<JsonV>
    decreases s,
{
    Seq::new(s.len(), |i: int| if 0 <= i < s.len() { s[i].view() } else { arbitrary() })
}

/// The views of a list of members.
pub open spec fn members_view(s: Seq<Member>) -> Seq<MemberV>
    decreases s,
{
    Seq::new(s.len(), |i: int| if 0 <= i < s.len() { s[i].view() } else { arbitrary() })
}

/// A member.
pub open spec fn member(key: Seq<char>, value: JsonV) -> MemberV {
    MemberV { key, value }
}

/// An empty list.
pub open spec fn no_values() -> JsonV {
    JsonV::List(Seq::empty())
}

/// Adds a member behind all others.
fn add_member(members: &mut Vec<Member>, key: &str, value: Json)
    ensures
        members_view(final(members)@) == members_view(old(members)@).push(member(key@, value@)),
{
    members.push(Member { key: key.to_owned(), value });
    assert(members_view(members@) =~= members_view(old(members)@).push(member(key@, value@)));
}

/// An object of these members.
fn object(members: Vec<Member>) -> (r: Json)
    ensures
        r@ == JsonV::Object(members_view(members@)),
{
    Json::Object(members)
}

/// A list of these values.
fn list_of(values: Vec<Json>) -> (r: Json)
    ensures
        r@ == JsonV::List(values_view(values@)),
{
    Json::List(values)
}

/// A text.
fn text(s: String) -> (r: Json)
    ensures
        r@ == JsonV::Text(s@),
{
    Json::Text(s)
}

/// No members.
fn no_members() -> (r: Vec<Member>)
    ensures
        members_view(r@) == Seq::<MemberV>::empty(),
{
    let r: Vec<Member> = Vec::new();
    assert(members_view(r@) =~= Seq::<MemberV>::empty());
    r
}

/// An empty list.
fn empty_list() -> (r: Json)
    ensures
        r@ == no_values(),
{
    let v: Vec<Json> = Vec::new();
    assert(values_view(v@) =~= Seq::<JsonV>::empty());
    Json::List(v)
}

/// A list of texts.
pub open spec fn texts_json(s: Seq<Seq<char>>) -> JsonV {
    JsonV::List(Seq::new(s.len(), |i: int| JsonV::Text(s[i])))
}

/// A list of texts.
fn list_of_texts(list: &Vec<String>) -> (r: Json)
    ensures
        r@ == texts_json(texts(list@)),
{
    let mut v: Vec<Json> = Vec::new();
    for i in 0..list.len()
        invariant
            v@.len() == i,
            forall|j: int| 0 <= j < i ==> (#[trigger] v@[j]).view() == JsonV::Text(list@[j]@),
    {
        v.push(Json::Text(list[i].clone()));
    }
    assert(values_view(v@) =~= Seq::new(list@.len(), |i: int| JsonV::Text(texts(list@)[i])));
    Json::List(v)
}

/// What a detector had to add, by name.
pub open spec fn extra_json(extra: Option<Seq<(Seq<char>, Seq<char>)>>) -> JsonV {
    match extra {
        Some(s) => JsonV::Object(
            Seq::new(s.len(), |i: int| member(s[i].0, JsonV::Text(s[i].1))),
        ),
        None => JsonV::Null,
    }
}

fn extra_to_json(extra: &Option<Vec<(String, String)>>) -> (r: Json)
    ensures
        r@ == extra_json(
            match *extra {
                Some(v) => Some(pairs_view(v@)),
                None => None,
            },
        ),
{
    match extra {
        Some(pairs) => {
            let ghost s = pairs_view(pairs@);
            let ghost whole = Seq::new(s.len(), |i: int| member(s[i].0, JsonV::Text(s[i].1)));
            let mut members = no_members();
            for i in 0..pairs.len()
                invariant
                    s == pairs_view(pairs@),
                    whole == Seq::new(s.len(), |i: int| member(s[i].0, JsonV::Text(s[i].1))),
                    members_view(members@) == whole.take(i as int),
            {
                add_member(&mut members, pairs[i].0.as_str(), Json::Text(pairs[i].1.clone()));
                assert(members_view(members@) =~= whole.take(i + 1));
            }
            assert(whole.take(whole.len() as int) =~= whole);
            Json::Object(members)
        },
        None => Json::Null,
    }
}

/// One place that a detector found, with its path as seen from the root of the project.
pub open spec fn instance_json(f: FindingV, root: Option<Seq<char>>) -> JsonV {
    JsonV::Object(
        seq![
            member("path"@, JsonV::Text(relative_to(f.file_path, root))),
            member("offset_start"@, JsonV::Number(f.offset_start as u64)),
            member("offset_end"@, JsonV::Number(f.offset_end as u64)),
            member("fixes"@, no_values()),
            member("extra"@, JsonV::Object(seq![member("metavars"@, extra_json(f.extra))])),
        ],
    )
}

/// All places that a detector found.
pub open spec fn instances_json(s: Seq<FindingV>, root: Option<Seq<char>>) -> JsonV {
    JsonV::List(Seq::new(s.len(), |i: int| instance_json(s[i], root)))
}

fn instance_to_json(error: &DetectorResult, project_root: Option<&str>) -> (r: Json)
    ensures
        r@ == instance_json(error@, opt_str(project_root)),
{
    let mut extra = no_members();
    add_member(&mut extra, "metavars", extra_to_json(&error.extra));
    assert(members_view(extra@) =~= seq![member("metavars"@, extra_json(error@.extra))]);
    let mut m = no_members();
    let path = relative_file_path(error.file_path.as_str(), project_root);
    add_member(&mut m, "path", text(path));
    add_member(&mut m, "offset_start", Json::Number(error.offset_start as u64));
    add_member(&mut m, "offset_end", Json::Number(error.offset_end as u64));
    add_member(&mut m, "fixes", empty_list());
    add_member(&mut m, "extra", object(extra));
    let r = object(m);
    proof {
        let whole = instance_json(error@, opt_str(project_root));
        assert(r@->Object_0 =~= whole->Object_0);
    }
    r
}

/// The places that a detector found, each with its path as seen from the root of the project.
pub fn detector_result_to_json(errors: &Vec<DetectorResult>, project_root: Option<&str>) -> (r:
    Json)
    ensures
        r@ == instances_json(findings_view(errors@), opt_str(project_root)),
{
    let ghost root = opt_str(project_root);
    let ghost s = findings_view(errors@);
    let mut v: Vec<Json> = Vec::new();
    for i in 0..errors.len()
        invariant
            root == opt_str(project_root),
            s == findings_view(errors@),
            v@.len() == i,
            forall|j: int| 0 <= j < i ==> (#[trigger] v@[j]).view() == instance_json(s[j], root),
    {
        v.push(instance_to_json(&errors[i], project_root));
    }
    assert(values_view(v@) =~= Seq::new(s.len(), |i: int| instance_json(s[i], root)));
    list_of(v)
}

/// What is reported of a detector.
pub open spec fn response_json(s: Seq<FindingV>, root: Option<Seq<char>>) -> JsonV {
    JsonV::Object(
        seq![
            member(
                "findings"@,
                JsonV::List(
                    seq![JsonV::Object(seq![member("instances"@, instances_json(s, root))])],
                ),
            ),
            member("errors"@, no_values()),
            member("metadata"@, JsonV::Object(Seq::empty())),
        ],
    )
}

fn response_to_json(errors: &Vec<DetectorResult>, project_root: Option<&str>) -> (r: Json)
    ensures
        r@ == response_json(findings_view(errors@), opt_str(project_root)),
{
    let ghost instances = instances_json(findings_view(errors@), opt_str(project_root));
    let mut finding = no_members();
    add_member(&mut finding, "instances", detector_result_to_json(errors, project_root));
    let mut findings: Vec<Json> = Vec::new();
    assert(members_view(finding@) =~= seq![member("instances"@, instances)]);
    findings.push(object(finding));
    proof {
        assert(values_view(findings@) =~= seq![
            JsonV::Object(seq![member("instances"@, instances)]),
        ]);
    }
    let mut m = no_members();
    add_member(&mut m, "findings", list_of(findings));
    add_member(&mut m, "errors", empty_list());
    add_member(&mut m, "metadata", object(no_members()));
    let r = object(m);
    proof {
        let whole = response_json(findings_view(errors@), opt_str(project_root));
        assert(r@->Object_0 =~= whole->Object_0);
    }
    r
}

/// The report of a scan.
pub open spec fn scan_json(
    scanned: Seq<Seq<char>>,
    found: Seq<(Seq<char>, Seq<FindingV>)>,
    root: Option<Seq<char>>,
) -> JsonV {
    JsonV::Object(
        seq![
            member("errors"@, no_values()),
            member("scanned"@, texts_json(scanned)),
            member(
                "detector_responses"@,
                JsonV::Object(
                    Seq::new(
                        found.len(),
                        |i: int| member(found[i].0, response_json(found[i].1, root)),
                    ),
                ),
            ),
        ],
    )
}

/// The report of a scan: the files that were scanned, and what each detector found.
pub fn scan_report(
    scanned: &Vec<String>,
    findings: &Findings,
    project_root: Option<&str>,
) -> (r: Json)
    ensures
        r@ == scan_json(texts(scanned@), findings.listed(), opt_str(project_root)),
{
    let ghost root = opt_str(project_root);
    let ghost found = findings.listed();
    let ghost whole = Seq::new(
        found.len(),
        |i: int| member(found[i].0, response_json(found[i].1, root)),
    );
    let entries = findings.entries();
    let mut responses = no_members();
    for i in 0..entries.len()
        invariant
            root == opt_str(project_root),
            found == entries_view(entries@),
            whole == Seq::new(
                found.len(),
                |i: int| member(found[i].0, response_json(found[i].1, root)),
            ),
            members_view(responses@) == whole.take(i as int),
    {
        add_member(
            &mut responses,
            entries[i].0.as_str(),
            response_to_json(&entries[i].1, project_root),
        );
        assert(members_view(responses@) =~= whole.take(i + 1));
    }
    assert(whole.take(whole.len() as int) =~= whole);
    let mut m = no_members();
    add_member(&mut m, "errors", empty_list());
    add_member(&mut m, "scanned", list_of_texts(scanned));
    add_member(&mut m, "detector_responses", object(responses));
    let r = object(m);
    proof {
        let all = scan_json(texts(scanned@), found, root);
        assert(r@->Object_0 =~= all->Object_0);
    }
    r
}

/// The JSON document that a YAML text stands for; `null` where it is not one.
pub open spec fn template_json(yml: Seq<char>) -> JsonV {
    match yaml_as_json(yml) {
        Some(text) => JsonV::Raw(text),
        None => JsonV::Null,
    }
}

/// The JSON document that a YAML text stands for, where it stands for one.
pub fn yml_string_to_json(yml_string: &str) -> (r: Option<Json>)
    ensures
        match r {
            Some(j) => yaml_as_json(yml_string@) is Some && j@ == JsonV::Raw(
                yaml_as_json(yml_string@)->0,
            ),
            None => yaml_as_json(yml_string@) is None,
        },
{
    match yaml_to_json(yml_string) {
        Some(value) => Some(Json::Raw(value)),
        None => None,
    }
}

/// What is told of a detector; `template` is its template as JSON, where it is one.
pub open spec fn detector_json(d: DetectorInfo, template: JsonV) -> JsonV {
    JsonV::Object(
        seq![
            member("id"@, JsonV::Text(d.id@)),
            member("uid"@, JsonV::Text(d.uid@)),
            member("description"@, JsonV::Text(d.description@)),
            member(
                "report"@,
                JsonV::Object(
                    seq![
                        member("severity"@, JsonV::Text(d.severity@)),
                        member("tags"@, texts_json(texts(d.tags@))),
                        member("template"@, template),
                    ],
                ),
            ),
        ],
    )
}

/// What is told of a detector, given its template as JSON.
pub fn detector_to_json(detector: &DetectorInfo, template: Option<Json>) -> (r: Json)
    ensures
        r@ == detector_json(
            *detector,
            match template {
                Some(t) => t@,
                None => JsonV::Null,
            },
        ),
{
    let template = match template {
        Some(t) => t,
        None => Json::Null,
    };
    let ghost given = template@;
    let mut report = no_members();
    add_member(&mut report, "severity", text(detector.severity.clone()));
    add_member(&mut report, "tags", list_of_texts(&detector.tags));
    add_member(&mut report, "template", template);
    let mut m = no_members();
    add_member(&mut m, "id", text(detector.id.clone()));
    add_member(&mut m, "uid", text(detector.uid.clone()));
    add_member(&mut m, "description", text(detector.description.clone()));
    add_member(&mut m, "report", object(report));
    let r = object(m);
    proof {
        let whole = detector_json(*detector, given);
        assert(members_view(report@) =~= whole->Object_0[3].value->Object_0);
        assert(r@->Object_0 =~= whole->Object_0);
    }
    r
}

/// What is told of the scanner and of its detectors.
pub open spec fn metadata_json(version: Seq<char>, detectors: Seq<DetectorInfo>) -> JsonV {
    JsonV::Object(
        seq![
            member("name"@, JsonV::Text("soroban-scanner"@)),
            member(
                "description"@,
                JsonV::Text("Static analyzer for Stellar Soroban source code files"@),
            ),
            member("version"@, JsonV::Text(version)),
            member("org"@, JsonV::Text("OpenZeppelin"@)),
            member("extensions"@, texts_json(seq![".rs"@])),
            member(
                "detectors"@,
                JsonV::List(
                    Seq::new(
                        detectors.len(),
                        |i: int| detector_json(detectors[i], template_json(detectors[i].template@)),
                    ),
                ),
            ),
        ],
    )
}

/// What is told of the scanner and of its detectors.
pub fn get_scanner_metadata(version: &str, detectors: &Vec<DetectorInfo>) -> (r: Json)
    ensures
        r@ == metadata_json(version@, detectors@),
{
    let ghost whole = Seq::new(
        detectors@.len(),
        |i: int| detector_json(detectors@[i], template_json(detectors@[i].template@)),
    );
    let mut list: Vec<Json> = Vec::new();
    for i in 0..detectors.len()
        invariant
            whole == Seq::new(
                detectors@.len(),
                |i: int| detector_json(detectors@[i], template_json(detectors@[i].template@)),
            ),
            list@.len() == i,
            forall|j: int| 0 <= j < i ==> (#[trigger] list@[j]).view() == whole[j],
    {
        let template = yml_string_to_json(detectors[i].template.as_str());
        list.push(detector_to_json(&detectors[i], template));
    }
    assert(values_view(list@) =~= whole);
    let mut extensions: Vec<String> = Vec::new();
    extensions.push(".rs".to_owned());
    assert(texts(extensions@) =~= seq![".rs"@]);
    let mut m = no_members();
    add_member(&mut m, "name", text("soroban-scanner".to_owned()));
    add_member(
        &mut m,
        "description",
        text("Static analyzer for Stellar Soroban source code files".to_owned()),
    );
    add_member(&mut m, "version", text(version.to_owned()));
    add_member(&mut m, "org", text("OpenZeppelin".to_owned()));
    add_member(&mut m, "extensions", list_of_texts(&extensions));
    add_member(&mut m, "detectors", list_of(list));
    let r = object(m);
    proof {
        let all = metadata_json(version@, detectors@);
        assert(r@->Object_0 =~= all->Object_0);
    }
    r
}

} // verus!
