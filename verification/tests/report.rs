use soroban_scanner::report::{
    detector_result_to_json, detector_to_json, get_scanner_metadata, scan_report,
    yml_string_to_json, Json, Member,
};
use soroban_scanner::scan::{execute_detectors, DetectorInfo, DetectorResult, Findings, Outcome};

fn text(s: &str) -> Json {
    Json::Text(s.to_string())
}

fn object(members: Vec<(&str, Json)>) -> Json {
    Json::Object(
        members
            .into_iter()
            .map(|(key, value)| Member { key: key.to_string(), value })
            .collect(),
    )
}

fn finding(path: &str) -> DetectorResult {
    DetectorResult {
        file_path: path.to_string(),
        offset_start: 3,
        offset_end: 9,
        extra: Some(vec![("NAME".to_string(), "f".to_string())]),
    }
}

fn instance(path: &str, metavars: Json) -> Json {
    object(vec![
        ("path", text(path)),
        ("offset_start", Json::Number(3)),
        ("offset_end", Json::Number(9)),
        ("fixes", Json::List(Vec::new())),
        ("extra", object(vec![("metavars", metavars)])),
    ])
}

#[test]
fn instances_are_listed() {
    let mut second = finding("/b/y.rs");
    second.extra = None;
    assert_eq!(
        detector_result_to_json(&vec![finding("/a/x.rs"), second], Some("/a")),
        Json::List(vec![
            instance("x.rs", object(vec![("NAME", text("f"))])),
            instance("/b/y.rs", Json::Null),
        ])
    );
    assert_eq!(detector_result_to_json(&Vec::new(), None), Json::List(Vec::new()));
}

#[test]
fn report_of_a_scan() {
    let found = execute_detectors(
        None,
        vec![Outcome { id: "d".to_string(), found: Some(vec![finding("/a/x.rs")]) }],
    );
    let response = object(vec![
        (
            "findings",
            Json::List(vec![object(vec![(
                "instances",
                Json::List(vec![instance("x.rs", object(vec![("NAME", text("f"))]))]),
            )])]),
        ),
        ("errors", Json::List(Vec::new())),
        ("metadata", object(vec![])),
    ]);
    assert_eq!(
        scan_report(&vec!["x.rs".to_string()], &found, Some("/a")),
        object(vec![
            ("errors", Json::List(Vec::new())),
            ("scanned", Json::List(vec![text("x.rs")])),
            ("detector_responses", object(vec![("d", response)])),
        ])
    );
    assert_eq!(
        scan_report(&Vec::new(), &Findings::new(), None),
        object(vec![
            ("errors", Json::List(Vec::new())),
            ("scanned", Json::List(Vec::new())),
            ("detector_responses", object(vec![])),
        ])
    );
}

fn raw(text: &str) -> Option<Json> {
    Some(Json::Raw(serde_json::from_str(text).unwrap()))
}

#[test]
fn templates_become_json() {
    assert_eq!(yml_string_to_json("a: 1"), raw("{\"a\":1}"));
    assert_eq!(yml_string_to_json("- x\n- y"), raw("[\"x\",\"y\"]"));
    assert_eq!(yml_string_to_json("a: ]"), None);
    let Some(Json::Raw(value)) = yml_string_to_json("f: 0.1\nn: ~") else { panic!() };
    assert_eq!(value.to_string(), "{\"f\":0.1,\"n\":null}");
}

#[test]
fn metadata_tells_of_the_scanner() {
    let detector = DetectorInfo {
        id: "i".to_string(),
        uid: "u".to_string(),
        description: "d".to_string(),
        severity: "low".to_string(),
        tags: vec!["t".to_string()],
        template: "a: ]".to_string(),
    };
    let told = |template: Json| {
        object(vec![
            ("id", text("i")),
            ("uid", text("u")),
            ("description", text("d")),
            (
                "report",
                object(vec![
                    ("severity", text("low")),
                    ("tags", Json::List(vec![text("t")])),
                    ("template", template),
                ]),
            ),
        ])
    };
    assert_eq!(detector_to_json(&detector, Some(Json::Number(1))), told(Json::Number(1)));
    assert_eq!(
        get_scanner_metadata("1.2.3", &vec![detector]),
        object(vec![
            ("name", text("soroban-scanner")),
            ("description", text("Static analyzer for Stellar Soroban source code files")),
            ("version", text("1.2.3")),
            ("org", text("OpenZeppelin")),
            ("extensions", Json::List(vec![text(".rs")])),
            ("detectors", Json::List(vec![told(Json::Null)])),
        ])
    );
}
