//! Planning and classification: combine the registry, the manifests, and the
//! adapter reports into a per-(target, environment, test) final status, and
//! render the markdown conformance matrix.
//!
//! A target can run in more than one *environment*: the loopback path the
//! default adapters use, plus the netns-lab scenarios (`lan`, `stun-srflx`,
//! `turn-relay`) that route each peer through its own network namespace. Each
//! `(target, environment)` pair reported by an adapter is its own matrix row, so
//! a scenario's outcome is classified against the same manifest policy as its
//! target's loopback run without being merged into it. Manifest entries may
//! carry an optional `environments` list scoping them to specific environments;
//! unscoped entries apply everywhere.

use vstd::prelude::*;

use crate::manifest::Manifest;
use crate::registry::{ids, Registry, TestEntry};
use crate::results::{AdapterReport, RawResult, RawResultView, RawStatus, Status};
use crate::text::{
    concat, has_substring, is_member, lemma_concat_take, lemma_has_substring, opt_text, same, texts,
};
use crate::text_map::{lemma_index_of, lemma_paired_insert, lemma_paired_update, paired};

verus! {

/// One classified cell of the matrix.
#[derive(Debug, Clone)]
pub struct Cell {
    pub status: Status,
    /// Reason or detail behind the status; surfaced in the end-of-run failure
    /// summary (the compact matrix shows only the status symbol).
    pub detail: Option<String>,
}

/// The contents of a [`Cell`].
#[verifier::ext_equal]
pub struct CellView {
    pub status: Status,
    pub detail: Option<Seq<char>>,
}

impl View for Cell {
    type V = CellView;

    open spec fn view(&self) -> CellView {
        CellView { status: self.status, detail: opt_text(self.detail) }
    }
}

/// One matrix row: a target running in a particular environment. An empty
/// `environment` marks a planning-only row (a manifest with no adapter report).
#[derive(Debug, Clone, PartialEq, Eq)]
pub struct Row {
    pub target: String,
    pub environment: String,
}

/// The contents of a [`Row`].
#[verifier::ext_equal]
pub struct RowView {
    pub target: Seq<char>,
    pub environment: Seq<char>,
}

impl View for Row {
    type V = RowView;

    open spec fn view(&self) -> RowView {
        RowView { target: self.target@, environment: self.environment@ }
    }
}

/// The place of a cell: target, environment and test.
#[verifier::ext_equal]
pub struct CellKey {
    pub target: Seq<char>,
    pub environment: Seq<char>,
    pub test: Seq<char>,
}

impl RowView {
    /// The place of a test's cell in this row.
    pub open spec fn key(self, test: Seq<char>) -> CellKey {
        CellKey { target: self.target, environment: self.environment, test }
    }
}

// ----- the cells ---------------------------------------------------------------------

/// The cells of a matrix, by (target, environment, test).
#[derive(Debug, Clone)]
pub struct CellMap {
    places: Vec<(String, String, String)>,
    cells: Vec<Cell>,
}

spec fn place(p: (String, String, String)) -> CellKey {
    CellKey { target: p.0@, environment: p.1@, test: p.2@ }
}

spec fn places(v: Seq<(String, String, String)>) -> Seq<CellKey> {
    v.map_values(|p: (String, String, String)| place(p))
}

spec fn cell_views(v: Seq<Cell>) -> Seq<CellView> {
    v.map_values(|c: Cell| c@)
}

impl View for CellMap {
    type V = Map<CellKey, CellView>;

    closed spec fn view(&self) -> Map<CellKey, CellView> {
        paired(places(self.places@), cell_views(self.cells@))
    }
}

impl CellMap {
    /// Every place is held once.
    pub closed spec fn wf(self) -> bool {
        &&& self.places@.len() == self.cells@.len()
        &&& places(self.places@).no_duplicates()
    }

    /// No cells.
    pub fn new() -> (r: Self)
        ensures
            r.wf(),
            r@ == Map::<CellKey, CellView>::empty(),
    {
        let r = CellMap { places: Vec::new(), cells: Vec::new() };
        assert(r@ =~= Map::<CellKey, CellView>::empty());
        r
    }

    fn find(&self, target: &str, environment: &str, test: &str) -> (r: Option<usize>)
        requires
            self.wf(),
        ensures
            ({
                let key = CellKey { target: target@, environment: environment@, test: test@ };
                match r {
                    Some(i) => i < self.places@.len() && places(self.places@)[i as int] == key
                        && self@.dom().contains(key) && self@[key] == self.cells@[i as int]@,
                    None => !self@.dom().contains(key),
                }
            }),
    {
        let ghost key = CellKey { target: target@, environment: environment@, test: test@ };
        let ghost ks = places(self.places@);
        let mut i: usize = 0;
        while i < self.places.len()
            invariant
                i <= self.places@.len(),
                ks == places(self.places@),
                key == (CellKey { target: target@, environment: environment@, test: test@ }),
                self.wf(),
                forall|k: int| 0 <= k < i ==> ks[k] != key,
            decreases self.places@.len() - i,
        {
            let p = &self.places[i];
            assert(ks[i as int] == place(*p));
            if same(p.0.as_str(), target) && same(p.1.as_str(), environment) && same(
                p.2.as_str(),
                test,
            ) {
                proof {
                    assert(ks[i as int] =~= key);
                    lemma_index_of(ks, i as int);
                }
                return Some(i);
            }
            i += 1;
        }
        None
    }

    /// The cell of a test in a row.
    pub fn get(&self, target: &str, environment: &str, test: &str) -> (r: Option<&Cell>)
        requires
            self.wf(),
        ensures
            ({
                let key = CellKey { target: target@, environment: environment@, test: test@ };
                match r {
                    Some(cell) => self@.dom().contains(key) && self@[key] == cell@,
                    None => !self@.dom().contains(key),
                }
            }),
    {
        match self.find(target, environment, test) {
            Some(i) => Some(&self.cells[i]),
            None => None,
        }
    }

    /// Set the cell of a test in a row, in place of any cell that is there.
    pub fn insert(&mut self, target: String, environment: String, test: String, cell: Cell)
        requires
            old(self).wf(),
        ensures
            final(self).wf(),
            final(self)@ == old(self)@.insert(
                (CellKey { target: target@, environment: environment@, test: test@ }),
                cell@,
            ),
    {
        let ghost key = CellKey { target: target@, environment: environment@, test: test@ };
        let ghost ks = places(self.places@);
        let ghost vs = cell_views(self.cells@);
        let ghost v = cell@;
        match self.find(target.as_str(), environment.as_str(), test.as_str()) {
            Some(i) => {
                proof {
                    lemma_paired_update(ks, vs, i as int, v);
                }
                self.cells.set(i, cell);
                assert(cell_views(self.cells@) =~= vs.update(i as int, v));
            },
            None => {
                proof {
                    lemma_paired_insert(ks, vs, ks.len() as int, key, v);
                }
                self.places.push((target, environment, test));
                self.cells.push(cell);
                assert(places(self.places@) =~= ks.insert(ks.len() as int, key));
                assert(cell_views(self.cells@) =~= vs.insert(vs.len() as int, v));
            },
        }
    }

    /// Whether any cell fails the run.
    pub fn any_failure(&self) -> (r: bool)
        requires
            self.wf(),
        ensures
            r == exists|key: CellKey|
                #[trigger] self@.dom().contains(key) && self@[key].status.fails(),
    {
        let ghost ks = places(self.places@);
        let mut i: usize = 0;
        while i < self.cells.len()
            invariant
                i <= self.cells@.len(),
                self.wf(),
                ks == places(self.places@),
                forall|k: int| 0 <= k < i ==> !(#[trigger] self.cells@[k]).status.fails(),
            decreases self.cells@.len() - i,
        {
            if self.cells[i].status.is_failure() {
                proof {
                    lemma_index_of(ks, i as int);
                    assert(self@.dom().contains(ks[i as int]));
                }
                return true;
            }
            i += 1;
        }
        assert forall|key: CellKey| #[trigger]
            self@.dom().contains(key) implies !self@[key].status.fails() by {
            let k = ks.index_of(key);
            assert(self.cells@[k]@ == self@[key]);
        }
        false
    }
}

// ----- classification ------------------------------------------------------------------

/// Why an expected failure that passed needs attention.
pub open spec fn unexpected_pass_text(tracking: Seq<char>) -> Seq<char> {
    "expected-fail passed (tracking "@ + tracking + "); update the manifest"@
}

/// The final status of a test and the reason behind it, by the manifest's policy.
pub open spec fn classified(
    manifest: Manifest,
    environment: Seq<char>,
    test_id: Seq<char>,
    tags: Seq<Seq<char>>,
    raw: Option<RawResultView>,
) -> CellView {
    match manifest.unsupported_at(tags, environment) {
        Some(i) => CellView {
            status: Status::SkipUnsupported,
            detail: Some(manifest.unsupported@[i].reason@),
        },
        None => match raw {
            None => CellView { status: Status::Missing, detail: None },
            Some(raw) => match (raw.status, manifest.expected_fail_at(test_id, environment)) {
                (RawStatus::Skip, _) => CellView {
                    status: Status::SkipUnsupported,
                    detail: raw.detail,
                },
                (RawStatus::Pass, None) => CellView { status: Status::Pass, detail: raw.detail },
                (RawStatus::Pass, Some(i)) => CellView {
                    status: Status::UnexpectedPass,
                    detail: Some(unexpected_pass_text(manifest.expected_fail@[i].tracking@)),
                },
                (RawStatus::Fail, None) => CellView { status: Status::Fail, detail: raw.detail },
                (RawStatus::Fail, Some(_)) => CellView {
                    status: Status::ExpectedFail,
                    detail: raw.detail,
                },
            },
        },
    }
}

/// Apply the manifest's policy to one raw result. Unsupported tags win
/// regardless of whether a result was reported.
pub fn classify_one(
    manifest: &Manifest,
    environment: &str,
    test_id: &str,
    tags: &[String],
    raw: Option<&RawResult>,
) -> (r: Cell)
    ensures
        r@ == classified(
            *manifest,
            environment@,
            test_id@,
            texts(tags@),
            match raw {
                Some(raw) => Some(raw@),
                None => None,
            },
        ),
{
    if let Some(unsupported) = manifest.is_unsupported(tags, environment) {
        return Cell {
            status: Status::SkipUnsupported,
            detail: Some(unsupported.reason.clone()),
        };
    }
    let expected_fail = manifest.expected_fail(test_id, environment);
    match raw {
        None => Cell { status: Status::Missing, detail: None },
        Some(raw) => match raw.status {
            RawStatus::Skip => Cell { status: Status::SkipUnsupported, detail: raw.detail.clone() },
            RawStatus::Pass => match expected_fail {
                Some(xf) => {
                    let mut detail = "expected-fail passed (tracking ".to_string();
                    detail.append(xf.tracking.as_str());
                    detail.append("); update the manifest");
                    Cell { status: Status::UnexpectedPass, detail: Some(detail) }
                },
                None => Cell { status: Status::Pass, detail: raw.detail.clone() },
            },
            RawStatus::Fail => match expected_fail {
                Some(_) => Cell { status: Status::ExpectedFail, detail: raw.detail.clone() },
                None => Cell { status: Status::Fail, detail: raw.detail.clone() },
            },
        },
    }
}

/// A tag the manifest declares unsupported skips its tests, whatever was
/// reported for them.
pub proof fn law_unsupported_wins(
    manifest: Manifest,
    environment: Seq<char>,
    test_id: Seq<char>,
    tags: Seq<Seq<char>>,
    raw: Option<RawResultView>,
)
    requires
        exists|i: int|
            0 <= i < manifest.unsupported@.len() && (#[trigger] manifest.unsupported@[i]).applies(
                tags,
                environment,
            ),
    ensures
        classified(manifest, environment, test_id, tags, raw).status == Status::SkipUnsupported,
{
    let applies = |i: int| manifest.unsupported@[i].applies(tags, environment);
    let scoped = |i: int| manifest.unsupported@[i].environments is Some;
    let n = manifest.unsupported@.len() as int;
    crate::manifest::law_scoped_entries_take_precedence(applies, scoped, n);
    let i = choose|i: int|
        0 <= i < n && (#[trigger] manifest.unsupported@[i]).applies(tags, environment);
    assert(applies(i));
}

/// A test fails the run exactly if none of its tags is unsupported and it
/// failed without being expected to, or passed although expected to fail. A test
/// that nobody reported never fails the run.
pub proof fn law_what_fails_the_run(
    manifest: Manifest,
    environment: Seq<char>,
    test_id: Seq<char>,
    tags: Seq<Seq<char>>,
    raw: Option<RawResultView>,
)
    ensures
        classified(manifest, environment, test_id, tags, raw).status.fails() <==> {
            &&& forall|i: int|
                0 <= i < manifest.unsupported@.len() ==> !(
                #[trigger] manifest.unsupported@[i]).applies(tags, environment)
            &&& raw matches Some(result) && {
                let expected = exists|i: int|
                    0 <= i < manifest.expected_fail@.len() && (
                    #[trigger] manifest.expected_fail@[i]).applies(test_id, environment);
                (result.status == RawStatus::Fail && !expected) || (result.status == RawStatus::Pass
                    && expected)
            }
        },
{
    let applies = |i: int| manifest.unsupported@[i].applies(tags, environment);
    let scoped = |i: int| manifest.unsupported@[i].environments is Some;
    let n = manifest.unsupported@.len() as int;
    crate::manifest::law_scoped_entries_take_precedence(applies, scoped, n);
    assert forall|i: int| 0 <= i < n implies applies(i) == (
    #[trigger] manifest.unsupported@[i]).applies(tags, environment) by {}
    let xf_applies = |i: int| manifest.expected_fail@[i].applies(test_id, environment);
    let xf_scoped = |i: int| manifest.expected_fail@[i].environments is Some;
    let m = manifest.expected_fail@.len() as int;
    crate::manifest::law_scoped_entries_take_precedence(xf_applies, xf_scoped, m);
    assert forall|i: int| 0 <= i < m implies xf_applies(i) == (
    #[trigger] manifest.expected_fail@[i]).applies(test_id, environment) by {}
    if raw is Some && raw->0.status == RawStatus::Skip {
        assert(!classified(manifest, environment, test_id, tags, raw).status.fails());
    }
}

// ----- rows ----------------------------------------------------------------------------

/// Some adapter reported for this target.
pub open spec fn has_report(reports: Seq<AdapterReport>, target: Seq<char>) -> bool {
    exists|i: int| 0 <= i < reports.len() && (#[trigger] reports[i]).target@ == target
}

/// Some adapter reported for this target in this environment.
pub open spec fn has_report_in(
    reports: Seq<AdapterReport>,
    target: Seq<char>,
    environment: Seq<char>,
) -> bool {
    exists|i: int|
        0 <= i < reports.len() && (#[trigger] reports[i]).target@ == target
            && reports[i].environment@ == environment
}

/// The environments reported for a target, each once, in the order of their first
/// reports.
pub open spec fn reported_environments(reports: Seq<AdapterReport>, target: Seq<char>) -> Seq<
    Seq<char>,
>
    decreases reports.len(),
{
    if reports.len() == 0 {
        seq![]
    } else {
        let before = reported_environments(reports.drop_last(), target);
        let report = reports.last();
        if report.target@ == target && !before.contains(report.environment@) {
            before.push(report.environment@)
        } else {
            before
        }
    }
}

/// The environments of a target's rows, in order: those reported for it, or the empty
/// environment alone if there is no report.
pub open spec fn environments(reports: Seq<AdapterReport>, target: Seq<char>) -> Seq<Seq<char>> {
    let reported = reported_environments(reports, target);
    if reported.len() == 0 {
        seq![Seq::<char>::empty()]
    } else {
        reported
    }
}

/// The rows of one target.
pub open spec fn target_rows(reports: Seq<AdapterReport>, target: Seq<char>) -> Seq<RowView> {
    environments(reports, target).map_values(|e: Seq<char>| RowView { target, environment: e })
}

/// The rows of the first `n` manifests, one target after another.
pub open spec fn matrix_rows(
    manifests: Seq<Manifest>,
    reports: Seq<AdapterReport>,
    n: int,
) -> Seq<RowView>
    decreases n,
{
    if n <= 0 {
        seq![]
    } else {
        matrix_rows(manifests, reports, n - 1) + target_rows(reports, manifests[n - 1].id@)
    }
}

/// The contents of a list of rows.
pub open spec fn row_views(rows: Seq<Row>) -> Seq<RowView> {
    rows.map_values(|r: Row| r@)
}

/// The last of `results` for this test.
pub open spec fn last_result(results: Seq<RawResult>, test_id: Seq<char>) -> Option<RawResultView>
    decreases results.len(),
{
    if results.len() == 0 {
        None
    } else if results.last().test_id@ == test_id {
        Some(results.last()@)
    } else {
        last_result(results.drop_last(), test_id)
    }
}

/// The last result any report of this target in this environment has for this
/// test.
pub open spec fn raw_result(
    reports: Seq<AdapterReport>,
    target: Seq<char>,
    environment: Seq<char>,
    test_id: Seq<char>,
) -> Option<RawResultView>
    decreases reports.len(),
{
    if reports.len() == 0 {
        None
    } else {
        let report = reports.last();
        let found = if report.target@ == target && report.environment@ == environment {
            last_result(report.results@, test_id)
        } else {
            None
        };
        if found is Some {
            found
        } else {
            raw_result(reports.drop_last(), target, environment, test_id)
        }
    }
}

/// The last result of a report for this test.
fn find_result<'a>(report: &'a AdapterReport, test_id: &str) -> (r: Option<&'a RawResult>)
    ensures
        match r {
            Some(raw) => last_result(report.results@, test_id@) == Some(raw@),
            None => last_result(report.results@, test_id@) is None,
        },
{
    let mut i: usize = report.results.len();
    assert(report.results@.take(i as int) =~= report.results@);
    while i > 0
        invariant
            i <= report.results@.len(),
            last_result(report.results@, test_id@) == last_result(
                report.results@.take(i as int),
                test_id@,
            ),
        decreases i,
    {
        i -= 1;
        assert(report.results@.take(i + 1).drop_last() =~= report.results@.take(i as int));
        if same(report.results[i].test_id.as_str(), test_id) {
            return Some(&report.results[i]);
        }
    }
    None
}

/// The last result any report of this target in this environment has for this
/// test.
fn find_raw<'a>(
    reports: &'a [AdapterReport],
    target: &str,
    environment: &str,
    test_id: &str,
) -> (r: Option<&'a RawResult>)
    ensures
        match r {
            Some(raw) => raw_result(reports@, target@, environment@, test_id@) == Some(raw@),
            None => raw_result(reports@, target@, environment@, test_id@) is None,
        },
{
    let mut i: usize = reports.len();
    assert(reports@.take(i as int) =~= reports@);
    while i > 0
        invariant
            i <= reports@.len(),
            raw_result(reports@, target@, environment@, test_id@) == raw_result(
                reports@.take(i as int),
                target@,
                environment@,
                test_id@,
            ),
        decreases i,
    {
        i -= 1;
        assert(reports@.take(i + 1).drop_last() =~= reports@.take(i as int));
        if same(reports[i].target.as_str(), target) && same(
            reports[i].environment.as_str(),
            environment,
        ) {
            if let Some(raw) = find_result(&reports[i], test_id) {
                return Some(raw);
            }
        }
    }
    None
}

/// The environments of a target's rows, in order.
fn plan_environments(reports: &[AdapterReport], target: &str) -> (r: Vec<String>)
    ensures
        texts(r@) == environments(reports@, target@),
{
    let mut seen: Vec<String> = Vec::new();
    let mut i: usize = 0;
    assert(texts(seen@) =~= seq![]);
    while i < reports.len()
        invariant
            i <= reports@.len(),
            texts(seen@) == reported_environments(reports@.take(i as int), target@),
        decreases reports@.len() - i,
    {
        assert(reports@.take(i + 1).drop_last() =~= reports@.take(i as int));
        assert(reports@.take(i + 1).last() == reports@[i as int]);
        let report = &reports[i];
        if same(report.target.as_str(), target) && !is_member(
            seen.as_slice(),
            report.environment.as_str(),
        ) {
            let ghost before = seen@;
            seen.push(report.environment.clone());
            assert(texts(seen@) =~= texts(before).push(report.environment@));
        }
        i += 1;
    }
    assert(reports@.take(i as int) =~= reports@);
    if seen.len() == 0 {
        seen.push(String::new());
        assert(texts(seen@) =~= seq![Seq::<char>::empty()]);
    }
    seen
}

// ----- the matrix ------------------------------------------------------------------------

/// The classified matrix: rows are (target, environment) pairs, columns tests.
#[derive(Debug, Clone)]
pub struct Matrix {
    /// Rows in the order their reports and manifests were supplied: the targets in manifest
    /// order, the rows of one target in the order of their first reports.
    pub rows: Vec<Row>,
    /// Test ids in registry order.
    pub tests: Vec<String>,
    /// (target, environment, test) to classified cell.
    pub cells: CellMap,
}

/// The position of the last `x` in `list`, or -1 if there is none.
pub open spec fn last_index(list: Seq<Seq<char>>, x: Seq<char>) -> int
    decreases list.len(),
{
    if list.len() == 0 {
        -1
    } else if list.last() == x {
        list.len() - 1
    } else {
        last_index(list.drop_last(), x)
    }
}

/// Where the last `x` is found.
pub proof fn lemma_last_index(list: Seq<Seq<char>>, x: Seq<char>)
    ensures
        -1 <= last_index(list, x) < list.len(),
        last_index(list, x) >= 0 ==> list[last_index(list, x)] == x,
        forall|i: int| last_index(list, x) < i < list.len() ==> #[trigger] list[i] != x,
        last_index(list, x) >= 0 <==> list.contains(x),
    decreases list.len(),
{
    if list.len() > 0 && list.last() != x {
        lemma_last_index(list.drop_last(), x);
        assert forall|i: int| last_index(list, x) < i < list.len() implies #[trigger] list[i] != x by {
            if i < list.len() - 1 {
                assert(list.drop_last()[i] == list[i]);
            }
        }
        if list.contains(x) {
            let i = list.index_of(x);
            assert(list.drop_last()[i] == x);
        }
    }
}

/// The ids of a list of manifests.
pub open spec fn manifest_ids(manifests: Seq<Manifest>) -> Seq<Seq<char>> {
    manifests.map_values(|m: Manifest| m.id@)
}

/// The cell of a registered test in a row of a manifest's target.
pub open spec fn cell_of(
    manifest: Manifest,
    environment: Seq<char>,
    entry: TestEntry,
    reports: Seq<AdapterReport>,
) -> CellView {
    classified(
        manifest,
        environment,
        entry.id@,
        texts(entry.tags@),
        raw_result(reports, manifest.id@, environment, entry.id@),
    )
}

/// The cells of the matrix: one for each manifest id, environment of that
/// target, and registered test id. Of manifests with one id, or entries with one
/// id, the last decides.
pub open spec fn matrix_cells(
    entries: Seq<TestEntry>,
    manifests: Seq<Manifest>,
    reports: Seq<AdapterReport>,
) -> Map<CellKey, CellView> {
    Map::new(
        |k: CellKey|
            manifest_ids(manifests).contains(k.target) && environments(reports, k.target).contains(
                k.environment,
            ) && ids(entries).contains(k.test),
        |k: CellKey|
            cell_of(
                manifests[last_index(manifest_ids(manifests), k.target)],
                k.environment,
                entries[last_index(ids(entries), k.test)],
                reports,
            ),
    )
}

/// `cells` with the cells of one row set.
spec fn with_row(
    cells: Map<CellKey, CellView>,
    manifest: Manifest,
    environment: Seq<char>,
    entries: Seq<TestEntry>,
    reports: Seq<AdapterReport>,
) -> Map<CellKey, CellView> {
    Map::new(
        |k: CellKey|
            cells.dom().contains(k) || (k.target == manifest.id@ && k.environment == environment
                && ids(entries).contains(k.test)),
        |k: CellKey|
            if k.target == manifest.id@ && k.environment == environment && ids(entries).contains(
                k.test,
            ) {
                cell_of(manifest, environment, entries[last_index(ids(entries), k.test)], reports)
            } else {
                cells[k]
            },
    )
}

/// `cells` with the cells of the rows of `list` set.
spec fn with_rows(
    cells: Map<CellKey, CellView>,
    manifest: Manifest,
    list: Seq<Seq<char>>,
    entries: Seq<TestEntry>,
    reports: Seq<AdapterReport>,
) -> Map<CellKey, CellView> {
    Map::new(
        |k: CellKey|
            cells.dom().contains(k) || (k.target == manifest.id@ && list.contains(k.environment)
                && ids(entries).contains(k.test)),
        |k: CellKey|
            if k.target == manifest.id@ && list.contains(k.environment) && ids(entries).contains(
                k.test,
            ) {
                cell_of(manifest, k.environment, entries[last_index(ids(entries), k.test)], reports)
            } else {
                cells[k]
            },
    )
}

/// Classify every registered test in one row.
fn classify_row(
    registry: &Registry,
    manifest: &Manifest,
    environment: &str,
    reports: &[AdapterReport],
    cells: &mut CellMap,
)
    requires
        old(cells).wf(),
    ensures
        final(cells).wf(),
        final(cells)@ == with_row(
            old(cells)@,
            *manifest,
            environment@,
            registry.test@,
            reports@,
        ),
{
    let ghost cells0 = cells@;
    let ghost entries = registry.test@;
    assert(with_row(cells0, *manifest, environment@, entries.take(0), reports@) =~= cells0) by {
        assert(ids(entries.take(0)) =~= seq![]);
    }
    let mut j: usize = 0;
    while j < registry.test.len()
        invariant
            j <= registry.test@.len(),
            entries == registry.test@,
            cells.wf(),
            cells@ == with_row(cells0, *manifest, environment@, entries.take(j as int), reports@),
        decreases registry.test@.len() - j,
    {
        let entry = &registry.test[j];
        let raw = find_raw(
            reports,
            manifest.id.as_str(),
            environment,
            entry.id.as_str(),
        );
        let cell = classify_one(
            manifest,
            environment,
            entry.id.as_str(),
            entry.tags.as_slice(),
            raw,
        );
        let ghost before = cells@;
        let ghost v = cell@;
        cells.insert(manifest.id.clone(), environment.to_string(), entry.id.clone(), cell);
        proof {
            let prefix = entries.take(j as int);
            let next = entries.take(j + 1);
            let all = ids(next);
            let place = CellKey {
                target: manifest.id@,
                environment: environment@,
                test: entry.id@,
            };
            assert(all.drop_last() =~= ids(prefix));
            assert(all.last() == entry.id@);
            assert(v == cell_of(*manifest, environment@, entries[j as int], reports@));
            assert forall|x: Seq<char>| #[trigger] all.contains(x) <==> ids(prefix).contains(x) || x
                == entry.id@ by {
                if all.contains(x) {
                    let n = all.index_of(x);
                    if n < j {
                        assert(ids(prefix)[n] == x);
                    }
                }
                if ids(prefix).contains(x) {
                    let n = ids(prefix).index_of(x);
                    assert(all[n] == x);
                }
                assert(all[j as int] == entry.id@);
            }
            let target = with_row(cells0, *manifest, environment@, next, reports@);
            assert forall|k: CellKey| #[trigger] cells@.dom().contains(k) <==> target.dom().contains(
                k,
            ) by {
                if k.target == place.target && k.environment == place.environment && k.test
                    == place.test {
                    assert(k =~= place);
                }
            }
            assert forall|k: CellKey| #[trigger] cells@.dom().contains(k) implies cells@[k]
                == target[k] by {
                if k == place {
                    assert(last_index(all, k.test) == j);
                } else if k.target == place.target && k.environment == place.environment
                    && all.contains(k.test) {
                    if k.test == place.test {
                        assert(k =~= place);
                    }
                    lemma_last_index(ids(prefix), k.test);
                    let n = last_index(ids(prefix), k.test);
                    assert(prefix[n] == next[n]);
                }
            }
            assert(cells@ =~= target);
        }
        j += 1;
    }
    assert(entries.take(j as int) =~= entries);
}

/// Plan the rows of one target and classify every registered test in them.
fn classify_target(
    registry: &Registry,
    manifest: &Manifest,
    reports: &[AdapterReport],
    rows: &mut Vec<Row>,
    cells: &mut CellMap,
)
    requires
        old(cells).wf(),
    ensures
        final(cells).wf(),
        row_views(final(rows)@) == row_views(old(rows)@) + target_rows(reports@, manifest.id@),
        final(cells)@ == with_rows(
            old(cells)@,
            *manifest,
            environments(reports@, manifest.id@),
            registry.test@,
            reports@,
        ),
{
    let ghost cells0 = cells@;
    let ghost rows0 = row_views(rows@);
    let list = plan_environments(reports, manifest.id.as_str());
    let ghost all = environments(reports@, manifest.id@);
    let ghost planned_rows = target_rows(reports@, manifest.id@);
    let mut i: usize = 0;
    assert(rows0 + planned_rows.take(0) =~= rows0);
    assert(with_rows(cells0, *manifest, all.take(0), registry.test@, reports@) =~= cells0);
    while i < list.len()
        invariant
            i <= list@.len(),
            texts(list@) == all,
            all == environments(reports@, manifest.id@),
            planned_rows == target_rows(reports@, manifest.id@),
            cells.wf(),
            row_views(rows@) == rows0 + planned_rows.take(i as int),
            cells@ == with_rows(
                cells0,
                *manifest,
                all.take(i as int),
                registry.test@,
                reports@,
            ),
        decreases list@.len() - i,
    {
        let environment = &list[i];
        let ghost before = cells@;
        let ghost rows_before = rows@;
        classify_row(registry, manifest, environment.as_str(), reports, cells);
        let row = Row { target: manifest.id.clone(), environment: environment.clone() };
        proof {
            let next = all.take(i + 1);
            assert(all[i as int] == environment@);
            assert forall|e: Seq<char>| #[trigger] next.contains(e) <==> all.take(i as int).contains(
                e,
            ) || e == environment@ by {
                if next.contains(e) {
                    let n = next.index_of(e);
                    if n < i {
                        assert(all.take(i as int)[n] == e);
                    }
                }
                if all.take(i as int).contains(e) {
                    let n = all.take(i as int).index_of(e);
                    assert(next[n] == e);
                }
                assert(next[i as int] == environment@);
            }
            assert(cells@ =~= with_rows(cells0, *manifest, next, registry.test@, reports@));
        }
        rows.push(row);
        assert(row_views(rows@) =~= rows0 + planned_rows.take(i + 1)) by {
            assert(row_views(rows@) =~= row_views(rows_before).push(row@));
            assert(planned_rows.take(i + 1) =~= planned_rows.take(i as int).push(planned_rows[i as int]));
            assert(row@ =~= planned_rows[i as int]);
        }
        i += 1;
    }
    assert(all.take(i as int) =~= all);
    assert(planned_rows.take(i as int) =~= planned_rows);
}

/// The ids of the registered tests, in registry order.
fn test_ids(registry: &Registry) -> (r: Vec<String>)
    ensures
        texts(r@) == ids(registry.test@),
{
    let mut out: Vec<String> = Vec::new();
    let mut i: usize = 0;
    while i < registry.test.len()
        invariant
            i <= registry.test@.len(),
            texts(out@) == ids(registry.test@).take(i as int),
        decreases registry.test@.len() - i,
    {
        let ghost before = out@;
        out.push(registry.test[i].id.clone());
        assert(texts(out@) =~= texts(before).push(registry.test@[i as int].id@));
        assert(texts(out@) =~= ids(registry.test@).take(i + 1));
        i += 1;
    }
    assert(ids(registry.test@).take(i as int) =~= ids(registry.test@));
    out
}

impl Matrix {
    /// Every place in the matrix is held once.
    pub open spec fn wf(self) -> bool {
        self.cells.wf()
    }

    /// Classify every (target, environment, test) triple from the registry, the
    /// per-target manifests, and the collected adapter reports.
    ///
    /// Each environment an adapter reports for a target becomes its own row,
    /// classified against that target's manifest. A target with no adapter
    /// report is still planned from its manifest as a single planning-only row
    /// (empty environment): its tests appear as `skip-unsupported` (where a tag
    /// is declared unsupported) or `missing` (otherwise).
    pub fn classify(
        registry: &Registry,
        manifests: &[Manifest],
        reports: &[AdapterReport],
    ) -> (r: Self)
        ensures
            r.wf(),
            row_views(r.rows@) == matrix_rows(manifests@, reports@, manifests@.len() as int),
            texts(r.tests@) == ids(registry.test@),
            r.cells@ == matrix_cells(registry.test@, manifests@, reports@),
    {
        let tests = test_ids(registry);
        let mut rows: Vec<Row> = Vec::new();
        let mut cells = CellMap::new();
        let ghost entries = registry.test@;
        let ghost none = Seq::<Manifest>::empty();
        assert(row_views(rows@) =~= seq![]);
        assert(manifests@.take(0) =~= none);
        assert(manifest_ids(none) =~= seq![]);
        assert(cells@ =~= matrix_cells(entries, manifests@.take(0), reports@));
        let mut i: usize = 0;
        while i < manifests.len()
            invariant
                i <= manifests@.len(),
                entries == registry.test@,
                cells.wf(),
                row_views(rows@) == matrix_rows(manifests@, reports@, i as int),
                cells@ == matrix_cells(entries, manifests@.take(i as int), reports@),
            decreases manifests@.len() - i,
        {
            classify_target(registry, &manifests[i], reports, &mut rows, &mut cells);
            proof {
                let m = manifests@[i as int];
                let prefix = manifests@.take(i as int);
                let next = manifests@.take(i + 1);
                let all = manifest_ids(next);
                assert(all.drop_last() =~= manifest_ids(prefix));
                assert(all.last() == m.id@);
                assert forall|x: Seq<char>| #[trigger] all.contains(x) <==> manifest_ids(
                    prefix,
                ).contains(x) || x == m.id@ by {
                    if all.contains(x) {
                        let n = all.index_of(x);
                        if n < i {
                            assert(manifest_ids(prefix)[n] == x);
                        }
                    }
                    if manifest_ids(prefix).contains(x) {
                        let n = manifest_ids(prefix).index_of(x);
                        assert(all[n] == x);
                    }
                    assert(all[i as int] == m.id@);
                }
                let target = matrix_cells(entries, next, reports@);
                assert forall|k: CellKey| #[trigger] cells@.dom().contains(k) implies cells@[k]
                    == target[k] by {
                    if k.target == m.id@ {
                        assert(last_index(all, k.target) == i);
                    } else {
                        lemma_last_index(manifest_ids(prefix), k.target);
                        let n = last_index(manifest_ids(prefix), k.target);
                        assert(prefix[n] == next[n]);
                    }
                }
                assert(cells@ =~= target);
            }
            i += 1;
        }
        assert(manifests@.take(i as int) =~= manifests@);
        Matrix { rows, tests, cells }
    }

    /// True if any classified cell is a failure (fail or unexpected-pass).
    pub fn has_failures(&self) -> (r: bool)
        requires
            self.wf(),
        ensures
            r == some_cell_fails(self.cells@),
    {
        self.cells.any_failure()
    }
}

/// Some cell fails the run.
pub open spec fn some_cell_fails(cells: Map<CellKey, CellView>) -> bool {
    exists|key: CellKey| #[trigger] cells.dom().contains(key) && cells[key].status.fails()
}

/// With distinct manifest ids and distinct test ids, every target has its own
/// manifest's verdict on every registered test in each of its rows.
pub proof fn law_every_cell_is_classified(
    registry: Registry,
    manifests: Seq<Manifest>,
    reports: Seq<AdapterReport>,
    i: int,
    environment: Seq<char>,
    j: int,
)
    requires
        registry.valid(),
        manifest_ids(manifests).no_duplicates(),
        0 <= i < manifests.len(),
        environments(reports, manifests[i].id@).contains(environment),
        0 <= j < registry.test@.len(),
    ensures
        ({
            let key = CellKey {
                target: manifests[i].id@,
                environment,
                test: registry.test@[j].id@,
            };
            let cells = matrix_cells(registry.test@, manifests, reports);
            &&& cells.dom().contains(key)
            &&& cells[key] == cell_of(manifests[i], environment, registry.test@[j], reports)
        }),
{
    let all = manifest_ids(manifests);
    assert(all[i] == manifests[i].id@);
    lemma_last_index(all, all[i]);
    let tests = ids(registry.test@);
    assert(tests[j] == registry.test@[j].id@);
    lemma_last_index(tests, tests[j]);
}

/// Where the first report of this target in this environment stands; the number of
/// reports if there is none.
pub open spec fn first_report(
    reports: Seq<AdapterReport>,
    target: Seq<char>,
    environment: Seq<char>,
) -> int
    decreases reports.len(),
{
    if reports.len() == 0 {
        0
    } else {
        let earlier = first_report(reports.drop_last(), target, environment);
        if earlier < reports.len() - 1 {
            earlier
        } else if reports.last().target@ == target && reports.last().environment@ == environment {
            reports.len() - 1
        } else {
            reports.len() as int
        }
    }
}

proof fn lemma_first_report(reports: Seq<AdapterReport>, target: Seq<char>, environment: Seq<char>)
    ensures
        0 <= first_report(reports, target, environment) <= reports.len(),
        first_report(reports, target, environment) < reports.len() <==> has_report_in(
            reports,
            target,
            environment,
        ),
        first_report(reports, target, environment) < reports.len() ==> ({
            let at = reports[first_report(reports, target, environment)];
            at.target@ == target && at.environment@ == environment
        }),
        forall|k: int|
            0 <= k < first_report(reports, target, environment) ==> !((
            #[trigger] reports[k]).target@ == target && reports[k].environment@ == environment),
    decreases reports.len(),
{
    if reports.len() > 0 {
        let fewer = reports.drop_last();
        lemma_first_report(fewer, target, environment);
        assert forall|k: int| 0 <= k < first_report(reports, target, environment) implies !((
        #[trigger] reports[k]).target@ == target && reports[k].environment@ == environment) by {
            if k < fewer.len() {
                assert(fewer[k] == reports[k]);
            }
        }
    }
}

proof fn lemma_reported(reports: Seq<AdapterReport>, target: Seq<char>)
    ensures
        forall|e: Seq<char>| #[trigger]
            reported_environments(reports, target).contains(e) <==> has_report_in(
                reports,
                target,
                e,
            ),
        forall|i: int, j: int|
            0 <= i < j < reported_environments(reports, target).len() ==> first_report(
                reports,
                target,
                #[trigger] reported_environments(reports, target)[i],
            ) < first_report(
                reports,
                target,
                #[trigger] reported_environments(reports, target)[j],
            ),
    decreases reports.len(),
{
    let list = reported_environments(reports, target);
    if reports.len() > 0 {
        let fewer = reports.drop_last();
        let before = reported_environments(fewer, target);
        let report = reports.last();
        lemma_reported(fewer, target);
        assert forall|e: Seq<char>| #[trigger] list.contains(e) <==> has_report_in(
            reports,
            target,
            e,
        ) by {
            if list.contains(e) {
                let n = list.index_of(e);
                if n < before.len() {
                    assert(before.contains(list[n]));
                    let k = choose|k: int|
                        0 <= k < fewer.len() && (#[trigger] fewer[k]).target@ == target
                            && fewer[k].environment@ == e;
                    assert(reports[k] == fewer[k]);
                } else {
                    assert(reports[reports.len() - 1] == report);
                }
            }
            if has_report_in(reports, target, e) {
                let k = choose|k: int|
                    0 <= k < reports.len() && (#[trigger] reports[k]).target@ == target
                        && reports[k].environment@ == e;
                if k < fewer.len() {
                    assert(fewer[k] == reports[k]);
                    assert(before.contains(e));
                    let n = before.index_of(e);
                    assert(list[n] == e);
                } else if !before.contains(e) {
                    assert(list.last() == e);
                } else {
                    let n = before.index_of(e);
                    assert(list[n] == e);
                }
            }
        }
        assert forall|i: int, j: int| 0 <= i < j < list.len() implies first_report(
            reports,
            target,
            #[trigger] list[i],
        ) < first_report(reports, target, #[trigger] list[j]) by {
            lemma_first_report(fewer, target, list[i]);
            lemma_first_report(fewer, target, list[j]);
            assert(before[i] == list[i]);
            assert(before.contains(list[i]));
            if j < before.len() {
                assert(before[j] == list[j]);
                assert(before.contains(list[j]));
            } else {
                assert(list[j] == report.environment@);
                assert(!before.contains(list[j]));
            }
        }
    }
}

/// Every target has at least one row; the environments of its rows are exactly those
/// reported for it, each once and in the order of their first reports, or the empty
/// environment alone if none was.
pub proof fn law_rows_of_a_target(reports: Seq<AdapterReport>, target: Seq<char>)
    ensures
        environments(reports, target).len() > 0,
        environments(reports, target).no_duplicates(),
        !has_report(reports, target) ==> environments(reports, target) == seq![
            Seq::<char>::empty(),
        ],
        has_report(reports, target) ==> {
            &&& forall|e: Seq<char>| #[trigger]
                environments(reports, target).contains(e) <==> has_report_in(reports, target, e)
            &&& forall|i: int, j: int|
                0 <= i < j < environments(reports, target).len() ==> first_report(
                    reports,
                    target,
                    #[trigger] environments(reports, target)[i],
                ) < first_report(reports, target, #[trigger] environments(reports, target)[j])
        },
{
    let list = reported_environments(reports, target);
    lemma_reported(reports, target);
    if has_report(reports, target) {
        let k = choose|k: int| 0 <= k < reports.len() && (#[trigger] reports[k]).target@ == target;
        assert(has_report_in(reports, target, reports[k].environment@));
        assert(list.contains(reports[k].environment@));
    } else if list.len() > 0 {
        assert(list.contains(list[0]));
        assert(has_report_in(reports, target, list[0]));
    }
    assert(list.no_duplicates()) by {
        assert forall|i: int, j: int| 0 <= i < j < list.len() implies list[i] != list[j] by {}
    }
}

// ----- the failure summary -----------------------------------------------------------------

/// One failing cell: its row, its test and what it holds.
pub type Failure = (RowView, Seq<char>, CellView);

/// The failing cells of one row, in test order.
pub open spec fn row_failures(
    row: RowView,
    tests: Seq<Seq<char>>,
    cells: Map<CellKey, CellView>,
) -> Seq<Failure>
    decreases tests.len(),
{
    if tests.len() == 0 {
        seq![]
    } else {
        let before = row_failures(row, tests.drop_last(), cells);
        let key = row.key(tests.last());
        if cells.dom().contains(key) && cells[key].status.fails() {
            before.push((row, tests.last(), cells[key]))
        } else {
            before
        }
    }
}

/// The failing cells of some rows, in row order then test order.
pub open spec fn all_failures(
    rows: Seq<RowView>,
    tests: Seq<Seq<char>>,
    cells: Map<CellKey, CellView>,
) -> Seq<Failure>
    decreases rows.len(),
{
    if rows.len() == 0 {
        seq![]
    } else {
        all_failures(rows.drop_last(), tests, cells) + row_failures(rows.last(), tests, cells)
    }
}

/// The contents of a list of failing cells.
pub open spec fn failure_views(list: Seq<(&Row, &str, &Cell)>) -> Seq<Failure> {
    list.map_values(|f: (&Row, &str, &Cell)| (f.0@, f.1@, f.2@))
}

impl Matrix {
    /// Every failing cell as `(row, test, cell)`, in row order then registry
    /// test order.
    pub fn failures(&self) -> (r: Vec<(&Row, &str, &Cell)>)
        requires
            self.wf(),
        ensures
            failure_views(r@) == all_failures(
                row_views(self.rows@),
                texts(self.tests@),
                self.cells@,
            ),
    {
        let ghost rows = row_views(self.rows@);
        let ghost tests = texts(self.tests@);
        let mut out: Vec<(&Row, &str, &Cell)> = Vec::new();
        assert(failure_views(out@) =~= seq![]);
        let mut i: usize = 0;
        while i < self.rows.len()
            invariant
                i <= self.rows@.len(),
                self.wf(),
                rows == row_views(self.rows@),
                tests == texts(self.tests@),
                failure_views(out@) == all_failures(rows.take(i as int), tests, self.cells@),
            decreases self.rows@.len() - i,
        {
            let row = &self.rows[i];
            let ghost earlier = failure_views(out@);
            assert(rows[i as int] == row@);
            assert(earlier + row_failures(row@, tests.take(0), self.cells@) =~= earlier);
            let mut j: usize = 0;
            while j < self.tests.len()
                invariant
                    i < self.rows@.len(),
                    j <= self.tests@.len(),
                    self.wf(),
                    tests == texts(self.tests@),
                    failure_views(out@) == earlier + row_failures(
                        row@,
                        tests.take(j as int),
                        self.cells@,
                    ),
                decreases self.tests@.len() - j,
            {
                let test = self.tests[j].as_str();
                let ghost before = out@;
                assert(tests.take(j + 1).drop_last() =~= tests.take(j as int));
                assert(tests.take(j + 1).last() == test@);
                let cell = self.cells.get(row.target.as_str(), row.environment.as_str(), test);
                assert(row@.key(test@) =~= (CellKey {
                    target: row.target@,
                    environment: row.environment@,
                    test: test@,
                }));
                if let Some(cell) = cell {
                    if cell.status.is_failure() {
                        out.push((row, test, cell));
                        assert(failure_views(out@) =~= failure_views(before).push(
                            (row@, test@, cell@),
                        ));
                        assert(failure_views(out@) =~= earlier + row_failures(
                            row@,
                            tests.take(j + 1),
                            self.cells@,
                        ));
                    }
                }
                j += 1;
            }
            assert(tests.take(j as int) =~= tests);
            assert(rows.take(i + 1).drop_last() =~= rows.take(i as int));
            i += 1;
        }
        assert(rows.take(i as int) =~= rows);
        out
    }
}

proof fn lemma_row_failures_nonempty(
    row: RowView,
    tests: Seq<Seq<char>>,
    cells: Map<CellKey, CellView>,
)
    ensures
        row_failures(row, tests, cells).len() > 0 <==> exists|j: int|
            0 <= j < tests.len() && {
                let key = row.key(#[trigger] tests[j]);
                cells.dom().contains(key) && cells[key].status.fails()
            },
    decreases tests.len(),
{
    if tests.len() > 0 {
        let rest = tests.drop_last();
        lemma_row_failures_nonempty(row, rest, cells);
        if row_failures(row, tests, cells).len() > 0 {
            if row_failures(row, rest, cells).len() > 0 {
                let j = choose|j: int|
                    0 <= j < rest.len() && {
                        let key = row.key(#[trigger] rest[j]);
                        cells.dom().contains(key) && cells[key].status.fails()
                    };
                assert(rest[j] == tests[j]);
            } else {
                assert(tests[tests.len() - 1] == tests.last());
            }
        }
        if exists|j: int|
            0 <= j < tests.len() && {
                let key = row.key(#[trigger] tests[j]);
                cells.dom().contains(key) && cells[key].status.fails()
            } {
            let j = choose|j: int|
                0 <= j < tests.len() && {
                    let key = row.key(#[trigger] tests[j]);
                    cells.dom().contains(key) && cells[key].status.fails()
                };
            if j < rest.len() {
                assert(rest[j] == tests[j]);
            }
        }
    }
}

proof fn lemma_all_failures_nonempty(
    rows: Seq<RowView>,
    tests: Seq<Seq<char>>,
    cells: Map<CellKey, CellView>,
)
    ensures
        all_failures(rows, tests, cells).len() > 0 <==> exists|i: int|
            0 <= i < rows.len() && row_failures(#[trigger] rows[i], tests, cells).len() > 0,
    decreases rows.len(),
{
    if rows.len() > 0 {
        let rest = rows.drop_last();
        lemma_all_failures_nonempty(rest, tests, cells);
        if all_failures(rest, tests, cells).len() > 0 {
            let i = choose|i: int|
                0 <= i < rest.len() && row_failures(#[trigger] rest[i], tests, cells).len() > 0;
            assert(rest[i] == rows[i]);
        }
        if exists|i: int|
            0 <= i < rows.len() && row_failures(#[trigger] rows[i], tests, cells).len() > 0 {
            let i = choose|i: int|
                0 <= i < rows.len() && row_failures(#[trigger] rows[i], tests, cells).len() > 0;
            if i < rest.len() {
                assert(rest[i] == rows[i]);
            }
        }
        if row_failures(rows.last(), tests, cells).len() > 0 {
            assert(rows[rows.len() - 1] == rows.last());
        }
    }
}

/// The rows of the matrix are those of its manifests' targets.
proof fn lemma_matrix_rows(
    manifests: Seq<Manifest>,
    reports: Seq<AdapterReport>,
    n: int,
    row: RowView,
)
    requires
        0 <= n <= manifests.len(),
    ensures
        matrix_rows(manifests, reports, n).contains(row) <==> manifest_ids(
            manifests.take(n),
        ).contains(row.target) && environments(reports, row.target).contains(row.environment),
    decreases n,
{
    let rows = matrix_rows(manifests, reports, n);
    if n == 0 {
        assert(manifest_ids(manifests.take(n)) =~= seq![]);
    } else {
        let before = matrix_rows(manifests, reports, n - 1);
        let id = manifests[n - 1].id@;
        let own = target_rows(reports, id);
        let all = manifest_ids(manifests.take(n));
        let fewer = manifest_ids(manifests.take(n - 1));
        lemma_matrix_rows(manifests, reports, n - 1, row);
        assert(all =~= fewer.push(id));
        assert(all.contains(row.target) <==> fewer.contains(row.target) || row.target == id) by {
            if fewer.contains(row.target) {
                assert(all[fewer.index_of(row.target)] == row.target);
            }
            assert(all[n - 1] == id);
            if all.contains(row.target) {
                let k = all.index_of(row.target);
                if k < n - 1 {
                    assert(fewer[k] == row.target);
                }
            }
        }
        if rows.contains(row) {
            let k = rows.index_of(row);
            if k < before.len() {
                assert(before[k] == row);
            } else {
                assert(own[k - before.len()] == row);
                assert(environments(reports, id)[k - before.len()] == row.environment);
            }
        }
        if before.contains(row) {
            assert(rows[before.index_of(row)] == row);
        }
        if row.target == id && environments(reports, id).contains(row.environment) {
            let k = environments(reports, id).index_of(row.environment);
            assert(own[k] =~= row);
            assert(rows[before.len() + k] == row);
        }
    }
}

/// A classified matrix reports a failure exactly if its failure summary lists
/// one.
pub proof fn law_failures_are_listed(
    registry: Registry,
    manifests: Seq<Manifest>,
    reports: Seq<AdapterReport>,
)
    ensures
        ({
            let cells = matrix_cells(registry.test@, manifests, reports);
            let rows = matrix_rows(manifests, reports, manifests.len() as int);
            let tests = ids(registry.test@);
            some_cell_fails(cells) <==> all_failures(rows, tests, cells).len() > 0
        }),
{
    let cells = matrix_cells(registry.test@, manifests, reports);
    let n = manifests.len() as int;
    let rows = matrix_rows(manifests, reports, n);
    let tests = ids(registry.test@);
    lemma_all_failures_nonempty(rows, tests, cells);
    assert(manifests.take(n) =~= manifests);
    if some_cell_fails(cells) {
        let key = choose|key: CellKey| #[trigger]
            cells.dom().contains(key) && cells[key].status.fails();
        let row = RowView { target: key.target, environment: key.environment };
        lemma_matrix_rows(manifests, reports, n, row);
        let i = rows.index_of(row);
        assert(rows[i] == row);
        let j = tests.index_of(key.test);
        assert(tests[j] == key.test);
        assert(row.key(tests[j]) =~= key);
        lemma_row_failures_nonempty(row, tests, cells);
        assert(row_failures(rows[i], tests, cells).len() > 0);
    }
    if all_failures(rows, tests, cells).len() > 0 {
        let i = choose|i: int|
            0 <= i < rows.len() && row_failures(#[trigger] rows[i], tests, cells).len() > 0;
        lemma_row_failures_nonempty(rows[i], tests, cells);
        let j = choose|j: int|
            0 <= j < tests.len() && {
                let key = rows[i].key(#[trigger] tests[j]);
                cells.dom().contains(key) && cells[key].status.fails()
            };
        assert(cells.dom().contains(rows[i].key(tests[j])));
    }
}

// ----- the markdown table --------------------------------------------------------------------

/// One cell of the table, with its border.
pub open spec fn boxed(content: Seq<char>) -> Seq<char> {
    " "@ + content + " |"@
}

/// How an environment is shown: an empty one by a dash.
pub open spec fn environment_label(environment: Seq<char>) -> Seq<char> {
    if environment.len() == 0 {
        "—"@
    } else {
        environment
    }
}

/// The symbol of a cell; a dash where there is no cell.
pub open spec fn cell_mark(cells: Map<CellKey, CellView>, key: CellKey) -> Seq<char> {
    if cells.dom().contains(key) {
        cells[key].status.mark()
    } else {
        "—"@
    }
}

/// One line of the table.
pub open spec fn row_line(
    row: RowView,
    tests: Seq<Seq<char>>,
    cells: Map<CellKey, CellView>,
) -> Seq<char> {
    "| "@ + row.target + " | "@ + environment_label(row.environment) + " |"@ + concat(
        tests.map_values(|t: Seq<char>| boxed(cell_mark(cells, row.key(t)))),
    ) + "\n"@
}

/// The markdown table of a matrix, with a `target` and an `environment` column
/// identifying each row.
pub open spec fn markdown(
    rows: Seq<RowView>,
    tests: Seq<Seq<char>>,
    cells: Map<CellKey, CellView>,
) -> Seq<char> {
    if rows.len() == 0 {
        "# Conformance matrix\n\n"@ + "_No targets enabled._\n"@
    } else if tests.len() == 0 {
        "# Conformance matrix\n\n"@ + "_No tests registered._\n"@
    } else {
        "# Conformance matrix\n\n"@ + "| target | environment |"@ + concat(
            tests.map_values(|t: Seq<char>| boxed(t)),
        ) + "\n"@ + "| --- | --- |"@ + concat(tests.map_values(|t: Seq<char>| boxed("---"@)))
            + "\n"@ + concat(rows.map_values(|r: RowView| row_line(r, tests, cells)))
            + "\nLegend: pass · FAIL · skip (unsupported) · xfail (expected-fail) · UNEXPECTED-PASS · — (missing/not run)\n"@
    }
}

/// Append one cell of the table, with its border.
fn push_boxed(out: &mut String, content: &str)
    ensures
        final(out)@ == old(out)@ + boxed(content@),
{
    out.append(" ");
    out.append(content);
    out.append(" |");
    assert(out@ =~= old(out)@ + boxed(content@));
}

impl Matrix {
    /// Append one line of the table.
    fn push_row(&self, out: &mut String, row: &Row)
        requires
            self.wf(),
        ensures
            final(out)@ == old(out)@ + row_line(row@, texts(self.tests@), self.cells@),
    {
        let ghost tests = texts(self.tests@);
        let ghost marks = tests.map_values(|t: Seq<char>| boxed(cell_mark(self.cells@, row@.key(t))));
        let environment = if row.environment.as_str().is_empty() {
            "—"
        } else {
            row.environment.as_str()
        };
        out.append("| ");
        out.append(row.target.as_str());
        out.append(" | ");
        out.append(environment);
        out.append(" |");
        let ghost head = "| "@ + row.target@ + " | "@ + environment_label(row.environment@) + " |"@;
        assert(out@ =~= old(out)@ + head);
        assert(old(out)@ + head + concat(marks.take(0)) =~= old(out)@ + head);
        let mut j: usize = 0;
        while j < self.tests.len()
            invariant
                j <= self.tests@.len(),
                self.wf(),
                tests == texts(self.tests@),
                marks == tests.map_values(
                    |t: Seq<char>| boxed(cell_mark(self.cells@, row@.key(t))),
                ),
                out@ == old(out)@ + head + concat(marks.take(j as int)),
            decreases self.tests@.len() - j,
        {
            let test = self.tests[j].as_str();
            assert(row@.key(test@) =~= (CellKey {
                target: row.target@,
                environment: row.environment@,
                test: test@,
            }));
            let symbol = match self.cells.get(row.target.as_str(), row.environment.as_str(), test) {
                Some(cell) => cell.status.symbol(),
                None => "—",
            };
            push_boxed(out, symbol);
            proof {
                lemma_concat_take(marks, j as int);
                assert(tests[j as int] == test@);
                assert(out@ =~= old(out)@ + head + concat(marks.take(j + 1)));
            }
            j += 1;
        }
        assert(marks.take(j as int) =~= marks);
        out.append("\n");
        assert(out@ =~= old(out)@ + row_line(row@, tests, self.cells@));
    }

    /// Render the matrix as a markdown table (rows by test columns), with a
    /// `target` and an `environment` column identifying each row.
    pub fn render_markdown(&self) -> (r: String)
        requires
            self.wf(),
        ensures
            r@ == markdown(row_views(self.rows@), texts(self.tests@), self.cells@),
    {
        let ghost rows = row_views(self.rows@);
        let ghost tests = texts(self.tests@);
        let mut out = "# Conformance matrix\n\n".to_string();
        if self.rows.len() == 0 {
            out.append("_No targets enabled._\n");
            return out;
        }
        if self.tests.len() == 0 {
            out.append("_No tests registered._\n");
            return out;
        }
        let ghost heads = tests.map_values(|t: Seq<char>| boxed(t));
        let ghost rules = tests.map_values(|t: Seq<char>| boxed("---"@));
        let ghost lines = rows.map_values(|r: RowView| row_line(r, tests, self.cells@));
        out.append("| target | environment |");
        let ghost s0 = out@;
        assert(s0 + concat(heads.take(0)) =~= s0);
        let mut i: usize = 0;
        while i < self.tests.len()
            invariant
                i <= self.tests@.len(),
                tests == texts(self.tests@),
                heads == tests.map_values(|t: Seq<char>| boxed(t)),
                out@ == s0 + concat(heads.take(i as int)),
            decreases self.tests@.len() - i,
        {
            push_boxed(&mut out, self.tests[i].as_str());
            proof {
                lemma_concat_take(heads, i as int);
                assert(out@ =~= s0 + concat(heads.take(i + 1)));
            }
            i += 1;
        }
        assert(heads.take(i as int) =~= heads);
        out.append("\n");
        out.append("| --- | --- |");
        let ghost s1 = out@;
        assert(s1 + concat(rules.take(0)) =~= s1);
        let mut j: usize = 0;
        while j < self.tests.len()
            invariant
                j <= self.tests@.len(),
                tests == texts(self.tests@),
                rules == tests.map_values(|t: Seq<char>| boxed("---"@)),
                out@ == s1 + concat(rules.take(j as int)),
            decreases self.tests@.len() - j,
        {
            push_boxed(&mut out, "---");
            proof {
                lemma_concat_take(rules, j as int);
                assert(out@ =~= s1 + concat(rules.take(j + 1)));
            }
            j += 1;
        }
        assert(rules.take(j as int) =~= rules);
        out.append("\n");
        let ghost s2 = out@;
        assert(s2 + concat(lines.take(0)) =~= s2);
        let mut k: usize = 0;
        while k < self.rows.len()
            invariant
                k <= self.rows@.len(),
                self.wf(),
                tests == texts(self.tests@),
                rows == row_views(self.rows@),
                lines == rows.map_values(|r: RowView| row_line(r, tests, self.cells@)),
                out@ == s2 + concat(lines.take(k as int)),
            decreases self.rows@.len() - k,
        {
            self.push_row(&mut out, &self.rows[k]);
            proof {
                lemma_concat_take(lines, k as int);
                assert(out@ =~= s2 + concat(lines.take(k + 1)));
            }
            k += 1;
        }
        assert(lines.take(k as int) =~= lines);
        out.append(
            "\nLegend: pass · FAIL · skip (unsupported) · xfail (expected-fail) · UNEXPECTED-PASS · — (missing/not run)\n",
        );
        assert(out@ =~= markdown(rows, tests, self.cells@));
        out
    }
}

// ----- laws ------------------------------------------------------------------------------------

/// Some entry of a manifest says that a test with these tags is not supported here.
pub open spec fn ruled_out(manifest: Manifest, tags: Seq<Seq<char>>, environment: Seq<char>) -> bool {
    exists|i: int|
        0 <= i < manifest.unsupported@.len() && (#[trigger] manifest.unsupported@[i]).applies(
            tags,
            environment,
        )
}

/// Some entry of a manifest says that this test fails here.
pub open spec fn known_to_fail(manifest: Manifest, test_id: Seq<char>, environment: Seq<char>) -> bool {
    exists|i: int|
        0 <= i < manifest.expected_fail@.len() && (#[trigger] manifest.expected_fail@[i]).applies(
            test_id,
            environment,
        )
}

proof fn lemma_policy(
    manifest: Manifest,
    environment: Seq<char>,
    test_id: Seq<char>,
    tags: Seq<Seq<char>>,
)
    ensures
        ruled_out(manifest, tags, environment) <==> manifest.unsupported_at(tags, environment) is Some,
        known_to_fail(manifest, test_id, environment) <==> manifest.expected_fail_at(
            test_id,
            environment,
        ) is Some,
{
    let applies = |i: int| manifest.unsupported@[i].applies(tags, environment);
    let scoped = |i: int| manifest.unsupported@[i].environments is Some;
    let n = manifest.unsupported@.len() as int;
    crate::manifest::law_scoped_entries_take_precedence(applies, scoped, n);
    assert forall|i: int| 0 <= i < n implies applies(i) == (
    #[trigger] manifest.unsupported@[i]).applies(tags, environment) by {}
    let xf_applies = |i: int| manifest.expected_fail@[i].applies(test_id, environment);
    let xf_scoped = |i: int| manifest.expected_fail@[i].environments is Some;
    let m = manifest.expected_fail@.len() as int;
    crate::manifest::law_scoped_entries_take_precedence(xf_applies, xf_scoped, m);
    assert forall|i: int| 0 <= i < m implies xf_applies(i) == (
    #[trigger] manifest.expected_fail@[i]).applies(test_id, environment) by {}
}

/// What each status says of a test. A pass and a failure were reported and not announced,
/// an expected failure was announced and reported, an unexpected pass was announced as a
/// failure and reported as a pass; a missing test is one that nobody reported; every
/// other test is skipped, because a tag is not supported or because the adapter said so.
pub proof fn law_what_each_status_says(
    manifest: Manifest,
    environment: Seq<char>,
    test_id: Seq<char>,
    tags: Seq<Seq<char>>,
    raw: Option<RawResultView>,
)
    ensures
        ({
            let status = classified(manifest, environment, test_id, tags, raw).status;
            let out = ruled_out(manifest, tags, environment);
            let known = known_to_fail(manifest, test_id, environment);
            let passed = raw matches Some(r) && r.status == RawStatus::Pass;
            let failed = raw matches Some(r) && r.status == RawStatus::Fail;
            let skipped = raw matches Some(r) && r.status == RawStatus::Skip;
            &&& status == Status::Pass <==> !out && passed && !known
            &&& status == Status::Fail <==> !out && failed && !known
            &&& status == Status::ExpectedFail <==> !out && failed && known
            &&& status == Status::UnexpectedPass <==> !out && passed && known
            &&& status == Status::Missing <==> !out && raw is None
            &&& status == Status::SkipUnsupported <==> out || skipped
        }),
{
    lemma_policy(manifest, environment, test_id, tags);
}

/// What stands beside a status. A test that the manifest rules out gives the reason of an
/// entry that names it; an unexpected pass names the tracking reference of an entry that
/// announced the failure; any other reported test gives the detail that was reported.
pub proof fn law_what_stands_beside_a_status(
    manifest: Manifest,
    environment: Seq<char>,
    test_id: Seq<char>,
    tags: Seq<Seq<char>>,
    raw: Option<RawResultView>,
)
    ensures
        ({
            let cell = classified(manifest, environment, test_id, tags, raw);
            let out = ruled_out(manifest, tags, environment);
            &&& out ==> exists|i: int|
                0 <= i < manifest.unsupported@.len() && (
                #[trigger] manifest.unsupported@[i]).applies(tags, environment) && cell.detail
                    == Some(manifest.unsupported@[i].reason@)
            &&& cell.status == Status::UnexpectedPass ==> exists|i: int|
                0 <= i < manifest.expected_fail@.len() && (
                #[trigger] manifest.expected_fail@[i]).applies(test_id, environment) && cell.detail
                    == Some(
                    "expected-fail passed (tracking "@ + manifest.expected_fail@[i].tracking@
                        + "); update the manifest"@,
                )
            &&& !out && cell.status != Status::UnexpectedPass && raw is Some ==> cell.detail
                == raw->0.detail
            &&& !out && raw is None ==> cell.detail is None
        }),
{
    lemma_policy(manifest, environment, test_id, tags);
    let applies = |i: int| manifest.unsupported@[i].applies(tags, environment);
    let scoped = |i: int| manifest.unsupported@[i].environments is Some;
    let n = manifest.unsupported@.len() as int;
    crate::manifest::law_scoped_entries_take_precedence(applies, scoped, n);
    if let Some(i) = manifest.unsupported_at(tags, environment) {
        assert(applies(i));
        assert(manifest.unsupported@[i].applies(tags, environment));
    }
    let xf_applies = |i: int| manifest.expected_fail@[i].applies(test_id, environment);
    let xf_scoped = |i: int| manifest.expected_fail@[i].environments is Some;
    let m = manifest.expected_fail@.len() as int;
    crate::manifest::law_scoped_entries_take_precedence(xf_applies, xf_scoped, m);
    if let Some(i) = manifest.expected_fail_at(test_id, environment) {
        assert(xf_applies(i));
        assert(manifest.expected_fail@[i].applies(test_id, environment));
    }
}

proof fn lemma_last_result(results: Seq<RawResult>, test_id: Seq<char>)
    ensures
        match last_result(results, test_id) {
            None => forall|j: int| 0 <= j < results.len() ==> (#[trigger] results[j]).test_id@ != test_id,
            Some(r) => ends_with(results, test_id, r),
        },
    decreases results.len(),
{
    if results.len() > 0 {
        let last = results.len() - 1;
        if results.last().test_id@ == test_id {
            assert(results[last]@ == results.last()@);
        } else {
            let fewer = results.drop_last();
            lemma_last_result(fewer, test_id);
            assert(forall|j: int| 0 <= j < last ==> #[trigger] results[j] == fewer[j]);
            if let Some(r) = last_result(results, test_id) {
                let j = choose|j: int|
                    0 <= j < fewer.len() && (#[trigger] fewer[j])@ == r && fewer[j].test_id@ == test_id
                        && forall|k: int|
                        j < k < fewer.len() ==> (#[trigger] fewer[k]).test_id@ != test_id;
                assert(results[j]@ == r);
                assert forall|k: int| j < k < results.len() implies (
                #[trigger] results[k]).test_id@ != test_id by {
                    if k < last {
                        assert(fewer[k].test_id@ != test_id);
                    }
                }
            }
        }
    }
}

/// A report is for this target in this environment and tells of this test.
pub open spec fn tells_of(
    report: AdapterReport,
    target: Seq<char>,
    environment: Seq<char>,
    test_id: Seq<char>,
) -> bool {
    report.target@ == target && report.environment@ == environment && exists|j: int|
        0 <= j < report.results@.len() && (#[trigger] report.results@[j]).test_id@ == test_id
}

/// The last thing that a list of results says of a test is `r`.
pub open spec fn ends_with(results: Seq<RawResult>, test_id: Seq<char>, r: RawResultView) -> bool {
    exists|j: int|
        0 <= j < results.len() && (#[trigger] results[j])@ == r && results[j].test_id@ == test_id
            && forall|k: int|
            j < k < results.len() ==> (#[trigger] results[k]).test_id@ != test_id
}

/// The last of some reports that tells of a test in a row is the one at `i`.
pub open spec fn last_to_tell(
    reports: Seq<AdapterReport>,
    target: Seq<char>,
    environment: Seq<char>,
    test_id: Seq<char>,
    i: int,
) -> bool {
    &&& 0 <= i < reports.len()
    &&& tells_of(reports[i], target, environment, test_id)
    &&& forall|k: int|
        i < k < reports.len() ==> !tells_of(#[trigger] reports[k], target, environment, test_id)
}

/// A test has a result in a row exactly if a report of that target in that environment
/// tells of it; and of several results the latest counts: it stands in the last such
/// report, with no result for the test behind it.
pub proof fn law_the_latest_result_counts(
    reports: Seq<AdapterReport>,
    target: Seq<char>,
    environment: Seq<char>,
    test_id: Seq<char>,
)
    ensures
        match raw_result(reports, target, environment, test_id) {
            None => forall|i: int|
                0 <= i < reports.len() ==> !tells_of(
                    #[trigger] reports[i],
                    target,
                    environment,
                    test_id,
                ),
            Some(r) => exists|i: int|
                #[trigger] last_to_tell(reports, target, environment, test_id, i) && ends_with(
                    reports[i].results@,
                    test_id,
                    r,
                ),
        },
    decreases reports.len(),
{
    if reports.len() > 0 {
        let last = reports.len() - 1;
        let report = reports.last();
        let own = last_result(report.results@, test_id);
        lemma_last_result(report.results@, test_id);
        assert(own is Some <==> exists|j: int|
            0 <= j < report.results@.len() && (#[trigger] report.results@[j]).test_id@ == test_id);
        if tells_of(report, target, environment, test_id) {
            assert(last_to_tell(reports, target, environment, test_id, last));
            assert(ends_with(reports[last].results@, test_id, own->0));
        } else {
            let fewer = reports.drop_last();
            law_the_latest_result_counts(fewer, target, environment, test_id);
            assert(raw_result(reports, target, environment, test_id) == raw_result(
                fewer,
                target,
                environment,
                test_id,
            ));
            match raw_result(reports, target, environment, test_id) {
                None => {
                    assert forall|i: int| 0 <= i < reports.len() implies !tells_of(
                        #[trigger] reports[i],
                        target,
                        environment,
                        test_id,
                    ) by {
                        if i < last {
                            assert(reports[i] == fewer[i]);
                        }
                    }
                },
                Some(r) => {
                    let i = choose|i: int|
                        #[trigger] last_to_tell(fewer, target, environment, test_id, i)
                            && ends_with(fewer[i].results@, test_id, r);
                    assert(reports[i] == fewer[i]);
                    assert forall|k: int| i < k < reports.len() implies !tells_of(
                        #[trigger] reports[k],
                        target,
                        environment,
                        test_id,
                    ) by {
                        if k < last {
                            assert(reports[k] == fewer[k]);
                        }
                    }
                    assert(last_to_tell(reports, target, environment, test_id, i));
                },
            }
        }
    }
}

/// A row stands in the matrix exactly if its target has a manifest and either some
/// adapter reported for that target in that environment, or nobody reported for the
/// target at all and the environment is the empty one.
pub proof fn law_what_rows_there_are(
    manifests: Seq<Manifest>,
    reports: Seq<AdapterReport>,
    row: RowView,
)
    ensures
        matrix_rows(manifests, reports, manifests.len() as int).contains(row) <==> {
            &&& exists|i: int|
                0 <= i < manifests.len() && (#[trigger] manifests[i]).id@ == row.target
            &&& if has_report(reports, row.target) {
                has_report_in(reports, row.target, row.environment)
            } else {
                row.environment.len() == 0
            }
        },
{
    let n = manifests.len() as int;
    assert(manifests.take(n) =~= manifests);
    lemma_matrix_rows(manifests, reports, n, row);
    law_rows_of_a_target(reports, row.target);
    let all = manifest_ids(manifests);
    if all.contains(row.target) {
        let i = all.index_of(row.target);
        assert(manifests[i].id@ == row.target);
    }
    if exists|i: int| 0 <= i < manifests.len() && (#[trigger] manifests[i]).id@ == row.target {
        let i = choose|i: int| 0 <= i < manifests.len() && (#[trigger] manifests[i]).id@ == row.target;
        assert(all[i] == row.target);
    }
    if !has_report(reports, row.target) {
        let only = seq![Seq::<char>::empty()];
        assert(environments(reports, row.target) == only);
        if row.environment.len() == 0 {
            assert(row.environment =~= Seq::<char>::empty());
            assert(only[0] == row.environment);
        }
    }
}

/// Rows of different targets stand in the order of their manifests.
pub proof fn law_rows_follow_the_manifests(
    manifests: Seq<Manifest>,
    reports: Seq<AdapterReport>,
    n: int,
)
    requires
        0 < n <= manifests.len(),
    ensures
        ({
            let rows = matrix_rows(manifests, reports, n);
            let before = matrix_rows(manifests, reports, n - 1);
            &&& rows.len() > before.len()
            &&& forall|k: int| 0 <= k < before.len() ==> #[trigger] rows[k] == before[k]
            &&& forall|k: int|
                before.len() <= k < rows.len() ==> (#[trigger] rows[k]).target == manifests[n
                    - 1].id@
        }),
{
    law_rows_of_a_target(reports, manifests[n - 1].id@);
}

/// The cells of the summary are the failing cells of the matrix: each is listed with what
/// it holds, and nothing else is.
pub proof fn law_the_summary_lists_what_fails(
    rows: Seq<RowView>,
    tests: Seq<Seq<char>>,
    cells: Map<CellKey, CellView>,
    failure: Failure,
)
    ensures
        all_failures(rows, tests, cells).contains(failure) <==> {
            let key = CellKey {
                target: failure.0.target,
                environment: failure.0.environment,
                test: failure.1,
            };
            &&& rows.contains(failure.0)
            &&& tests.contains(failure.1)
            &&& cells.dom().contains(key)
            &&& cells[key] == failure.2
            &&& failure.2.status == Status::Fail || failure.2.status == Status::UnexpectedPass
        },
    decreases rows.len(),
{
    let all = all_failures(rows, tests, cells);
    if rows.len() == 0 {
    } else {
        let before = all_failures(rows.drop_last(), tests, cells);
        let own = row_failures(rows.last(), tests, cells);
        law_the_summary_lists_what_fails(rows.drop_last(), tests, cells, failure);
        lemma_row_failures(rows.last(), tests, cells, failure);
        if all.contains(failure) {
            let k = all.index_of(failure);
            if k < before.len() {
                assert(before[k] == failure);
                let r = rows.drop_last().index_of(failure.0);
                assert(rows[r] == failure.0);
            } else {
                assert(own[k - before.len()] == failure);
                assert(rows[rows.len() - 1] == failure.0);
            }
        }
        if before.contains(failure) {
            let k = before.index_of(failure);
            assert(all[k] == failure);
        }
        if own.contains(failure) {
            let k = own.index_of(failure);
            assert(all[before.len() + k] == failure);
        }
        if rows.contains(failure.0) {
            let r = rows.index_of(failure.0);
            if r < rows.len() - 1 {
                assert(rows.drop_last()[r] == failure.0);
            }
        }
    }
}

proof fn lemma_row_failures(
    row: RowView,
    tests: Seq<Seq<char>>,
    cells: Map<CellKey, CellView>,
    failure: Failure,
)
    ensures
        row_failures(row, tests, cells).contains(failure) <==> {
            let key = row.key(failure.1);
            &&& failure.0 == row
            &&& tests.contains(failure.1)
            &&& cells.dom().contains(key)
            &&& cells[key] == failure.2
            &&& failure.2.status.fails()
        },
    decreases tests.len(),
{
    let all = row_failures(row, tests, cells);
    if tests.len() > 0 {
        let before = row_failures(row, tests.drop_last(), cells);
        lemma_row_failures(row, tests.drop_last(), cells, failure);
        if all.contains(failure) {
            let k = all.index_of(failure);
            if k < before.len() {
                assert(before[k] == failure);
                let t = tests.drop_last().index_of(failure.1);
                assert(tests[t] == failure.1);
            } else {
                assert(tests[tests.len() - 1] == failure.1);
            }
        }
        if before.contains(failure) {
            let k = before.index_of(failure);
            assert(all[k] == failure);
        }
        if tests.contains(failure.1) {
            let t = tests.index_of(failure.1);
            if t < tests.len() - 1 {
                assert(tests.drop_last()[t] == failure.1);
            } else {
                let key = row.key(tests.last());
                if cells.dom().contains(key) && cells[key] == failure.2 && failure.2.status.fails()
                    && failure.0 == row {
                    assert(all[all.len() - 1] == failure);
                }
            }
        }
    }
}

proof fn lemma_concat_split(list: Seq<Seq<char>>, n: int)
    requires
        0 <= n <= list.len(),
    ensures
        concat(list) == concat(list.take(n)) + concat(list.skip(n)),
    decreases list.len(),
{
    if n == list.len() {
        assert(list.take(n) =~= list);
        assert(list.skip(n) =~= seq![]);
    } else {
        let fewer = list.drop_last();
        lemma_concat_split(fewer, n);
        assert(list.skip(n).drop_last() =~= fewer.skip(n));
        assert(list.skip(n).last() == list.last());
        assert(fewer.take(n) =~= list.take(n));
    }
    assert(concat(list) =~= concat(list.take(n)) + concat(list.skip(n)));
}

/// The line of a row opens with its target and its environment and shows, in the column
/// of each test, the symbol of that test's cell and nothing else; a place without a cell
/// shows a dash. As many columns stand before it as tests do.
pub proof fn law_lines_show_the_cells(
    row: RowView,
    tests: Seq<Seq<char>>,
    cells: Map<CellKey, CellView>,
    j: int,
)
    requires
        0 <= j < tests.len(),
    ensures
        ({
            let key = CellKey {
                target: row.target,
                environment: row.environment,
                test: tests[j],
            };
            let symbol = if cells.dom().contains(key) {
                cells[key].status.mark()
            } else {
                "—"@
            };
            let shown = if row.environment.len() == 0 {
                "—"@
            } else {
                row.environment
            };
            exists|before: Seq<Seq<char>>, after: Seq<Seq<char>>|
                before.len() == j && after.len() == tests.len() - j - 1 && row_line(row, tests, cells)
                    == "| "@ + row.target + " | "@ + shown + " |"@ + #[trigger] concat(before) + (
                " "@ + symbol + " |"@) + #[trigger] concat(after) + "\n"@
        }),
{
    let marks = tests.map_values(|t: Seq<char>| boxed(cell_mark(cells, row.key(t))));
    let before = marks.take(j);
    let after = marks.skip(j + 1);
    lemma_concat_split(marks, j + 1);
    lemma_concat_take(marks, j);
    assert(row.key(tests[j]) == (CellKey {
        target: row.target,
        environment: row.environment,
        test: tests[j],
    }));
    assert(marks[j] == boxed(cell_mark(cells, row.key(tests[j]))));
    let head = "| "@ + row.target + " | "@ + environment_label(row.environment) + " |"@;
    assert(head + (concat(before) + marks[j] + concat(after)) + "\n"@ =~= head + concat(before)
        + marks[j] + concat(after) + "\n"@);
}

/// The table names every test in its heading, in order, and has a line for every row, in
/// order; a matrix without rows or without tests says so instead.
pub proof fn law_the_table_holds_every_row(
    rows: Seq<RowView>,
    tests: Seq<Seq<char>>,
    cells: Map<CellKey, CellView>,
)
    ensures
        rows.len() == 0 ==> markdown(rows, tests, cells) == "# Conformance matrix\n\n"@
            + "_No targets enabled._\n"@,
        rows.len() > 0 && tests.len() == 0 ==> markdown(rows, tests, cells)
            == "# Conformance matrix\n\n"@ + "_No tests registered._\n"@,
        rows.len() > 0 && tests.len() > 0 ==> {
            &&& forall|i: int|
                0 <= i < rows.len() ==> has_substring(
                    markdown(rows, tests, cells),
                    row_line(#[trigger] rows[i], tests, cells),
                )
            &&& forall|j: int|
                0 <= j < tests.len() ==> has_substring(
                    markdown(rows, tests, cells),
                    " "@ + #[trigger] tests[j] + " |"@,
                )
        },
{
    if rows.len() > 0 && tests.len() > 0 {
        let whole = markdown(rows, tests, cells);
        let heads = tests.map_values(|t: Seq<char>| boxed(t));
        let rules = tests.map_values(|t: Seq<char>| boxed("---"@));
        let lines = rows.map_values(|r: RowView| row_line(r, tests, cells));
        let legend =
            "\nLegend: pass · FAIL · skip (unsupported) · xfail (expected-fail) · UNEXPECTED-PASS · — (missing/not run)\n"@;
        let top = "# Conformance matrix\n\n"@ + "| target | environment |"@;
        let middle = "\n"@ + "| --- | --- |"@ + concat(rules) + "\n"@;
        assert(whole =~= top + concat(heads) + middle + concat(lines) + legend);
        assert forall|i: int| 0 <= i < rows.len() implies has_substring(
            whole,
            row_line(#[trigger] rows[i], tests, cells),
        ) by {
            lemma_concat_split(lines, i + 1);
            lemma_concat_take(lines, i);
            let front = top + concat(heads) + middle + concat(lines.take(i));
            let back = concat(lines.skip(i + 1)) + legend;
            assert(whole =~= front + lines[i] + back);
            lemma_has_substring(front, lines[i], back);
        }
        assert forall|j: int| 0 <= j < tests.len() implies has_substring(
            whole,
            " "@ + #[trigger] tests[j] + " |"@,
        ) by {
            lemma_concat_split(heads, j + 1);
            lemma_concat_take(heads, j);
            let front = top + concat(heads.take(j));
            let back = concat(heads.skip(j + 1)) + middle + concat(lines) + legend;
            assert(whole =~= front + heads[j] + back);
            lemma_has_substring(front, heads[j], back);
        }
    }
}

} // verus!
