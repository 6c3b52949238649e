use webrtc_datachannels::manifest::{
    ExpectedFail, Manifest, ManifestError, ManifestFile, TargetEntry, Unsupported,
};
use webrtc_datachannels::plan::Matrix;
use webrtc_datachannels::registry::{Registry, RegistryError, TestEntry};
use webrtc_datachannels::results::{AdapterReport, RawResult, RawStatus, Status};
use webrtc_datachannels::text_map::TextMap;

fn entry(id: &str, tag: &str, description: &str) -> TestEntry {
    TestEntry {
        id: id.to_string(),
        tags: vec![tag.to_string()],
        description: description.to_string(),
    }
}

fn registry() -> Registry {
    Registry {
        test: vec![
            entry("ordering", "data-channel", "ordered payloads arrive in order"),
            entry("error-invalid-signaling", "errors", "invalid SDP yields invalid-signaling"),
            entry("peer-offer-answer", "peer-connection", "offer/answer happy path"),
        ],
    }
}

fn manifest() -> Manifest {
    Manifest {
        id: "wasmtime".to_string(),
        unsupported: vec![Unsupported {
            tag: "peer-connection".to_string(),
            reason: "host does not implement peer-connection yet".to_string(),
            environments: None,
        }],
        expected_fail: vec![ExpectedFail {
            test: "error-invalid-signaling".to_string(),
            reason: "collapses to error.other".to_string(),
            tracking: "TODO.md item 5".to_string(),
            environments: None,
        }],
    }
}

fn report(results: Vec<(&str, RawStatus)>) -> AdapterReport {
    AdapterReport {
        target: "wasmtime".to_string(),
        environment: "loopback".to_string(),
        results: results
            .into_iter()
            .map(|(id, status)| RawResult {
                test_id: id.to_string(),
                status,
                detail: None,
            })
            .collect(),
    }
}

fn status_of(matrix: &Matrix, test: &str) -> Status {
    matrix.cells.get("wasmtime", "loopback", test).unwrap().status
}

#[test]
fn empty_run_has_no_failures() {
    let matrix = Matrix::classify(&registry(), &[], &[]);
    assert!(!matrix.has_failures());
    assert!(matrix.rows.is_empty());
}

#[test]
fn unsupported_tag_skips_regardless_of_result() {
    let m = manifest();
    let reports = [report(vec![("peer-offer-answer", RawStatus::Fail)])];
    let matrix = Matrix::classify(&registry(), &[m], &reports);
    assert_eq!(
        status_of(&matrix, "peer-offer-answer"),
        Status::SkipUnsupported
    );
    assert!(!matrix.has_failures());
}

#[test]
fn expected_fail_that_fails_is_not_a_failure() {
    let m = manifest();
    let reports = [report(vec![("error-invalid-signaling", RawStatus::Fail)])];
    let matrix = Matrix::classify(&registry(), &[m], &reports);
    assert_eq!(
        status_of(&matrix, "error-invalid-signaling"),
        Status::ExpectedFail
    );
    assert!(!matrix.has_failures());
}

#[test]
fn expected_fail_that_passes_is_unexpected_pass_and_fails() {
    let m = manifest();
    let reports = [report(vec![("error-invalid-signaling", RawStatus::Pass)])];
    let matrix = Matrix::classify(&registry(), &[m], &reports);
    assert_eq!(
        status_of(&matrix, "error-invalid-signaling"),
        Status::UnexpectedPass
    );
    assert!(matrix.has_failures());
}

#[test]
fn plain_fail_fails_the_run() {
    let m = manifest();
    let reports = [report(vec![("ordering", RawStatus::Fail)])];
    let matrix = Matrix::classify(&registry(), &[m], &reports);
    assert_eq!(status_of(&matrix, "ordering"), Status::Fail);
    assert!(matrix.has_failures());
}

#[test]
fn pass_passes_and_missing_is_missing() {
    let m = manifest();
    let reports = [report(vec![("ordering", RawStatus::Pass)])];
    let matrix = Matrix::classify(&registry(), &[m], &reports);
    assert_eq!(status_of(&matrix, "ordering"), Status::Pass);
    assert_eq!(
        status_of(&matrix, "error-invalid-signaling"),
        Status::Missing
    );
    assert!(!matrix.has_failures());
}

#[test]
fn failures_are_listed_by_row_and_test() {
    let reports = [
        report(vec![
            ("ordering", RawStatus::Fail),
            ("error-invalid-signaling", RawStatus::Pass),
        ]),
    ];
    let matrix = Matrix::classify(&registry(), &[manifest()], &reports);
    let listed: Vec<(String, &str, Status)> = matrix
        .failures()
        .into_iter()
        .map(|(row, test, cell)| (row.target.clone(), test, cell.status))
        .collect();
    assert_eq!(
        listed,
        vec![
            ("wasmtime".to_string(), "ordering", Status::Fail),
            ("wasmtime".to_string(), "error-invalid-signaling", Status::UnexpectedPass),
        ]
    );
}

#[test]
fn every_cell_of_a_row_is_classified() {
    let matrix = Matrix::classify(&registry(), &[manifest()], &[report(vec![])]);
    assert_eq!(matrix.rows.len(), 1);
    assert_eq!(matrix.rows[0].environment, "loopback");
    for test in &matrix.tests {
        assert!(matrix.cells.get("wasmtime", "loopback", test).is_some());
    }
    assert!(matrix.cells.get("wasmtime", "lan", "ordering").is_none());
}

#[test]
fn matrix_renders_as_a_table() {
    let reports = [report(vec![("ordering", RawStatus::Pass)])];
    let text = Matrix::classify(&registry(), &[manifest()], &reports).render_markdown();
    assert_eq!(
        text,
        "# Conformance matrix\n\n\
         | target | environment | ordering | error-invalid-signaling | peer-offer-answer |\n\
         | --- | --- | --- | --- | --- |\n\
         | wasmtime | loopback | pass | — | skip |\n\n\
         Legend: pass · FAIL · skip (unsupported) · xfail (expected-fail) · UNEXPECTED-PASS · — \
         (missing/not run)\n"
    );
    assert_eq!(
        Matrix::classify(&registry(), &[], &[]).render_markdown(),
        "# Conformance matrix\n\n_No targets enabled._\n"
    );
    assert_eq!(
        Matrix::classify(&Registry { test: vec![] }, &[manifest()], &reports).render_markdown(),
        "# Conformance matrix\n\n_No tests registered._\n"
    );
    assert_eq!(Status::UnexpectedPass.symbol(), "UNEXPECTED-PASS");
}

#[test]
fn scoped_entries_take_precedence() {
    let mut m = manifest();
    m.unsupported.push(Unsupported {
        tag: "peer-connection".to_string(),
        reason: "not in the lan".to_string(),
        environments: Some(vec!["lan".to_string()]),
    });
    let tags = vec!["peer-connection".to_string()];
    assert_eq!(m.is_unsupported(&tags, "lan").unwrap().reason, "not in the lan");
    assert_eq!(
        m.is_unsupported(&tags, "loopback").unwrap().reason,
        "host does not implement peer-connection yet"
    );
    assert!(m.is_unsupported(&["errors".to_string()], "lan").is_none());
    assert!(m.expected_fail("error-invalid-signaling", "lan").is_some());
    assert!(m.expected_fail("ordering", "lan").is_none());
}

#[test]
fn empty_scopes_are_rejected() {
    let mut m = manifest();
    m.unsupported[0].environments = Some(vec![]);
    match m.validate() {
        Err(ManifestError::EmptyUnsupportedScope(tag)) => assert_eq!(tag, "peer-connection"),
        other => panic!("{other:?}"),
    }
    let mut m = manifest();
    m.expected_fail[0].environments = Some(vec![]);
    match m.validate() {
        Err(ManifestError::EmptyExpectedFailScope(test)) => {
            assert_eq!(test, "error-invalid-signaling")
        }
        other => panic!("{other:?}"),
    }
    assert!(manifest().validate().is_ok());
}

#[test]
fn manifest_files_hold_one_manifest_per_target() {
    let mut target = TextMap::new();
    for id in ["wasmtime", "jco-node"] {
        target.insert(
            id.to_string(),
            TargetEntry { unsupported: vec![], expected_fail: vec![] },
        );
    }
    let all = Manifest::parse_all(ManifestFile { target }).unwrap();
    let ids: Vec<&str> = all.iter().map(|m| m.id.as_str()).collect();
    assert_eq!(ids, vec!["jco-node", "wasmtime"]);
}

#[test]
fn manifest_errors_name_their_target() {
    let mut target = TextMap::new();
    target.insert(
        "wasmtime".to_string(),
        TargetEntry {
            unsupported: vec![Unsupported {
                tag: "t".to_string(),
                reason: String::new(),
                environments: Some(vec![]),
            }],
            expected_fail: vec![],
        },
    );
    let error = Manifest::parse_all(ManifestFile { target }).unwrap_err();
    assert_eq!(error.id, "wasmtime");
    assert!(error.context().contains("wasmtime"));
    assert!(error.error.message().contains("\"t\""));
}

#[test]
fn registries_are_validated() {
    assert!(registry().validate().is_ok());
    assert_eq!(registry().get("ordering").unwrap().tags, vec!["data-channel"]);
    assert!(registry().get("nope").is_none());
    let mut twice = registry();
    twice.test.push(entry("ordering", "x", "y"));
    match twice.validate() {
        Err(RegistryError::DuplicateId(id)) => assert_eq!(id, "ordering"),
        other => panic!("{other:?}"),
    }
    let mut empty = registry();
    empty.test.push(entry("", "x", "y"));
    assert!(matches!(empty.validate(), Err(RegistryError::EmptyId)));
}

#[test]
fn text_maps_keep_their_keys_in_order() {
    let mut map: TextMap<u32> = TextMap::new();
    for (key, value) in [("b", 2), ("a", 1), ("c", 3), ("b", 4)] {
        map.insert(key.to_string(), value);
    }
    assert_eq!(map.keys, vec!["a", "b", "c"]);
    assert_eq!(map.get("b"), Some(&4));
    assert_eq!(map.remove("a"), Some(1));
    assert_eq!(map.remove("a"), None);
    assert_eq!(map.len(), 2);
}

#[test]
fn rows_follow_the_order_of_the_reports() {
    let manifest = |id: &str| Manifest {
        id: id.to_string(),
        unsupported: vec![],
        expected_fail: vec![],
    };
    let report = |environment: &str| AdapterReport {
        target: "a".to_string(),
        environment: environment.to_string(),
        results: vec![],
    };
    let registry = Registry { test: vec![] };
    let manifests = [manifest("b"), manifest("a")];
    let reports = [report("stun-srflx"), report("lan"), report("stun-srflx")];
    let matrix = Matrix::classify(&registry, &manifests, &reports);
    let rows: Vec<(&str, &str)> =
        matrix.rows.iter().map(|r| (r.target.as_str(), r.environment.as_str())).collect();
    assert_eq!(rows, [("b", ""), ("a", "stun-srflx"), ("a", "lan")]);
}
