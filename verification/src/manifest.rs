//! The target capability manifest.
//!
//! A manifest declares one conformance target. It lists which test *tags* are
//! unsupported (whole groups skipped with a reason) and which individual test
//! *ids* are expected to fail (with a mandatory tracking reference). These
//! declarations are the policy by which raw adapter results are classified. A
//! target without entries still registers: the matrix gets a row for it.

use vstd::prelude::*;

use crate::text::{debug_quoted, has_prefix, is_member, quoted, same, texts};
use crate::text_map::TextMap;

verus! {

/// One target's manifest: its id plus its policy entries.
#[derive(Debug, Clone)]
pub struct Manifest {
    /// Target id, e.g. `wasmtime`, `jco-node`, `jco-browser`, `wasip3-guest`.
    pub id: String,
    /// Tags this target cannot support; matching tests become `skip-unsupported`.
    pub unsupported: Vec<Unsupported>,
    /// Test ids expected to fail on this target; a pass becomes `unexpected-pass`.
    pub expected_fail: Vec<ExpectedFail>,
}

/// A manifest file: a table per target, by target id.
#[derive(Debug, Clone)]
pub struct ManifestFile {
    /// Targets by id, in id order, matching the matrix row order.
    pub target: TextMap<TargetEntry>,
}

/// The body of one target's table.
#[derive(Debug, Clone)]
pub struct TargetEntry {
    pub unsupported: Vec<Unsupported>,
    pub expected_fail: Vec<ExpectedFail>,
}

/// An `unsupported` entry: an unsupported tag plus a mandatory reason.
#[derive(Debug, Clone)]
pub struct Unsupported {
    /// Tag whose tests this target does not support.
    pub tag: String,
    /// Why the tag is unsupported (surfaced in the matrix).
    pub reason: String,
    /// Environments this entry applies to. Absent means every environment.
    /// Must be non-empty when present.
    pub environments: Option<Vec<String>>,
}

/// An `expected-fail` entry: a test id plus mandatory tracking reference.
#[derive(Debug, Clone)]
pub struct ExpectedFail {
    /// Test id that is known to fail on this target.
    pub test: String,
    /// Why it fails. Kept for human review.
    pub reason: String,
    /// Tracking reference; required to stay honest.
    pub tracking: String,
    /// Environments this entry applies to. Absent means every environment.
    /// Must be non-empty when present.
    pub environments: Option<Vec<String>>,
}

/// Why a manifest is not usable: an entry whose `environments` list is empty.
#[derive(Debug, Clone)]
pub enum ManifestError {
    /// The `unsupported` entry of this tag.
    EmptyUnsupportedScope(String),
    /// The `expected-fail` entry of this test.
    EmptyExpectedFailScope(String),
}

/// The contents of a [`ManifestError`].
pub enum ManifestErrorView {
    EmptyUnsupportedScope(Seq<char>),
    EmptyExpectedFailScope(Seq<char>),
}

impl View for ManifestError {
    type V = ManifestErrorView;

    open spec fn view(&self) -> ManifestErrorView {
        match self {
            ManifestError::EmptyUnsupportedScope(tag) => ManifestErrorView::EmptyUnsupportedScope(
                tag@,
            ),
            ManifestError::EmptyExpectedFailScope(test) => ManifestErrorView::EmptyExpectedFailScope(
                test@,
            ),
        }
    }
}

impl ManifestError {
    /// The message of this error.
    pub open spec fn text(self) -> Seq<char> {
        match self {
            ManifestError::EmptyUnsupportedScope(tag) => "`unsupported` entry for tag "@
                + debug_quoted(tag@) + " has an empty `environments` list; "@
                + "omit the key to apply to every environment"@,
            ManifestError::EmptyExpectedFailScope(test) => "`expected-fail` entry for test "@
                + debug_quoted(test@) + " has an empty `environments` list; "@
                + "omit the key to apply to every environment"@,
        }
    }

    /// The message of this error.
    pub fn message(&self) -> (r: String)
        ensures
            r@ == self.text(),
    {
        let (mut out, name) = match self {
            ManifestError::EmptyUnsupportedScope(tag) => {
                ("`unsupported` entry for tag ".to_string(), tag)
            },
            ManifestError::EmptyExpectedFailScope(test) => {
                ("`expected-fail` entry for test ".to_string(), test)
            },
        };
        out.append(quoted(name.as_str()).as_str());
        out.append(" has an empty `environments` list; ");
        out.append("omit the key to apply to every environment");
        out
    }
}

/// Why a manifest file is not usable: the first target that is not, and why.
#[derive(Debug, Clone)]
pub struct TargetError {
    pub id: String,
    pub error: ManifestError,
}

impl TargetError {
    /// What was being done when the error came up.
    pub open spec fn context_text(self) -> Seq<char> {
        "validating target "@ + debug_quoted(self.id@)
    }

    /// What was being done when the error came up.
    pub fn context(&self) -> (r: String)
        ensures
            r@ == self.context_text(),
    {
        let mut out = "validating target ".to_string();
        out.append(quoted(self.id.as_str()).as_str());
        out
    }
}

// ----- scopes ----------------------------------------------------------------------

/// An entry's optional `environments` scope covers `environment`. An absent
/// scope covers every environment.
pub open spec fn scope_covers(environments: Option<Vec<String>>, environment: Seq<char>) -> bool {
    match environments {
        None => true,
        Some(envs) => texts(envs@).contains(environment),
    }
}

/// An entry's scope is present and covers nothing.
pub open spec fn scope_is_empty(environments: Option<Vec<String>>) -> bool {
    environments matches Some(envs) && envs@.len() == 0
}

/// True if an entry's optional `environments` scope covers `environment`.
/// An absent scope covers every environment (including planning-only rows).
pub fn scope_applies(environments: &Option<Vec<String>>, environment: &str) -> (r: bool)
    ensures
        r == scope_covers(*environments, environment@),
{
    match environments {
        None => true,
        Some(envs) => is_member(envs.as_slice(), environment),
    }
}

fn is_scope_empty(environments: &Option<Vec<String>>) -> (r: bool)
    ensures
        r == scope_is_empty(*environments),
{
    match environments {
        None => false,
        Some(envs) => envs.len() == 0,
    }
}

// ----- precedence --------------------------------------------------------------------

/// Among the first `n` entries, the one that decides: the last scoped entry that
/// applies, or the last entry that applies if no scoped one does.
pub open spec fn decisive(
    applies: spec_fn(int) -> bool,
    scoped: spec_fn(int) -> bool,
    n: int,
) -> Option<int>
    decreases n,
{
    if n <= 0 {
        None
    } else {
        let before = decisive(applies, scoped, n - 1);
        if applies(n - 1) && (scoped(n - 1) || before is None || !scoped(before->0)) {
            Some(n - 1)
        } else {
            before
        }
    }
}

/// The entry that decides applies, and every other entry that applies gives way
/// to it: it is unscoped where the deciding one is scoped, or it stands before
/// one that is scoped as much as itself. Some entry decides as soon as one
/// applies.
pub proof fn law_scoped_entries_take_precedence(
    applies: spec_fn(int) -> bool,
    scoped: spec_fn(int) -> bool,
    n: int,
)
    ensures
        match decisive(applies, scoped, n) {
            None => forall|j: int| 0 <= j < n ==> !#[trigger] applies(j),
            Some(i) => 0 <= i < n && applies(i) && forall|j: int|
                0 <= j < n && j != i && #[trigger] applies(j) ==> (scoped(i) && !scoped(j)) || (
                scoped(i) == scoped(j) && j < i),
        },
    decreases n,
{
    if n > 0 {
        law_scoped_entries_take_precedence(applies, scoped, n - 1);
    }
}

impl Unsupported {
    /// This entry applies to a test with these tags in this environment.
    pub open spec fn applies(self, tags: Seq<Seq<char>>, environment: Seq<char>) -> bool {
        scope_covers(self.environments, environment) && tags.contains(self.tag@)
    }
}

impl ExpectedFail {
    /// This entry applies to this test in this environment.
    pub open spec fn applies(self, test_id: Seq<char>, environment: Seq<char>) -> bool {
        scope_covers(self.environments, environment) && self.test@ == test_id
    }
}

/// The tag of the first `unsupported` entry whose scope is empty.
pub open spec fn empty_unsupported_scope(entries: Seq<Unsupported>) -> Option<Seq<char>>
    decreases entries.len(),
{
    if entries.len() == 0 {
        None
    } else if scope_is_empty(entries[0].environments) {
        Some(entries[0].tag@)
    } else {
        empty_unsupported_scope(entries.drop_first())
    }
}

/// The test of the first `expected-fail` entry whose scope is empty.
pub open spec fn empty_expected_fail_scope(entries: Seq<ExpectedFail>) -> Option<Seq<char>>
    decreases entries.len(),
{
    if entries.len() == 0 {
        None
    } else if scope_is_empty(entries[0].environments) {
        Some(entries[0].test@)
    } else {
        empty_expected_fail_scope(entries.drop_first())
    }
}

impl TargetEntry {
    /// What is wrong with this target's table.
    pub open spec fn problem(self) -> Option<ManifestErrorView> {
        match empty_unsupported_scope(self.unsupported@) {
            Some(tag) => Some(ManifestErrorView::EmptyUnsupportedScope(tag)),
            None => match empty_expected_fail_scope(self.expected_fail@) {
                Some(test) => Some(ManifestErrorView::EmptyExpectedFailScope(test)),
                None => None,
            },
        }
    }
}

impl Manifest {
    /// The policy entries of this manifest.
    pub open spec fn entry(self) -> TargetEntry {
        TargetEntry { unsupported: self.unsupported, expected_fail: self.expected_fail }
    }

    /// The position of the `unsupported` entry that applies to a test with these
    /// tags in this environment.
    pub open spec fn unsupported_at(
        self,
        tags: Seq<Seq<char>>,
        environment: Seq<char>,
    ) -> Option<int> {
        decisive(
            |i: int| self.unsupported@[i].applies(tags, environment),
            |i: int| self.unsupported@[i].environments is Some,
            self.unsupported@.len() as int,
        )
    }

    /// The position of the `expected-fail` entry that applies to a test in this
    /// environment.
    pub open spec fn expected_fail_at(
        self,
        test_id: Seq<char>,
        environment: Seq<char>,
    ) -> Option<int> {
        decisive(
            |i: int| self.expected_fail@[i].applies(test_id, environment),
            |i: int| self.expected_fail@[i].environments is Some,
            self.expected_fail@.len() as int,
        )
    }

    /// The manifests of a manifest file, in target-id order. The error is that
    /// of the first target, in that order, that does not validate.
    pub fn parse_all(file: ManifestFile) -> (r: Result<Vec<Manifest>, TargetError>)
        requires
            file.target.wf(),
        ensures
            match r {
                Ok(manifests) => {
                    &&& manifests@.len() == file.target.order().len()
                    &&& forall|i: int|
                        0 <= i < manifests@.len() ==> {
                            let id = #[trigger] file.target.order()[i];
                            &&& manifests@[i].id@ == id
                            &&& manifests@[i].entry() == file.target@[id]
                            &&& file.target@[id].problem() is None
                        }
                },
                Err(e) => exists|i: int|
                    0 <= i < file.target.order().len() && e.id@ == #[trigger] file.target.order()[i]
                        && file.target@[e.id@].problem() == Some(e.error@) && forall|k: int|
                        0 <= k < i ==> file.target@[#[trigger] file.target.order()[k]].problem() is None,
            },
    {
        let ghost n = file.target.order().len();
        proof {
            file.target.lemma_walk();
        }
        let mut keys = file.target.keys;
        let mut values = file.target.values;
        let mut manifests: Vec<Manifest> = Vec::new();
        while keys.len() > 0
            invariant
                n == file.target.order().len(),
                keys@.len() == values@.len(),
                manifests@.len() + keys@.len() == n,
                forall|k: int|
                    0 <= k < keys@.len() ==> (#[trigger] keys@[k])@ == file.target.order()[k
                        + manifests@.len()],
                forall|k: int|
                    0 <= k < values@.len() ==> #[trigger] values@[k] == file.target@[file.target.order()[k
                        + manifests@.len()]],
                forall|i: int|
                    0 <= i < manifests@.len() ==> {
                        let id = #[trigger] file.target.order()[i];
                        &&& manifests@[i].id@ == id
                        &&& manifests@[i].entry() == file.target@[id]
                    },
            decreases keys@.len(),
        {
            assert(keys@[0]@ == file.target.order()[manifests@.len() as int]);
            assert(values@[0] == file.target@[file.target.order()[manifests@.len() as int]]);
            let ghost done = manifests@.len();
            let ghost keys0 = keys@;
            let ghost values0 = values@;
            let id = keys.remove(0);
            let entry = values.remove(0);
            assert forall|k: int| 0 <= k < keys@.len() implies (#[trigger] keys@[k])@
                == file.target.order()[k + done + 1] by {
                assert(keys@[k] == keys0[k + 1]);
            }
            assert forall|k: int| 0 <= k < values@.len() implies #[trigger] values@[k]
                == file.target@[file.target.order()[k + done + 1]] by {
                assert(values@[k] == values0[k + 1]);
            }
            manifests.push(
                Manifest { id, unsupported: entry.unsupported, expected_fail: entry.expected_fail },
            );
        }
        let mut i: usize = 0;
        while i < manifests.len()
            invariant
                i <= manifests@.len(),
                manifests@.len() == file.target.order().len(),
                forall|k: int|
                    0 <= k < manifests@.len() ==> {
                        let id = #[trigger] file.target.order()[k];
                        &&& manifests@[k].id@ == id
                        &&& manifests@[k].entry() == file.target@[id]
                    },
                forall|k: int|
                    0 <= k < i ==> file.target@[#[trigger] file.target.order()[k]].problem() is None,
            decreases manifests@.len() - i,
        {
            assert(manifests@[i as int].id@ == file.target.order()[i as int]);
            match manifests[i].validate() {
                Ok(()) => {},
                Err(error) => {
                    let id = manifests[i].id.clone();
                    assert(id@ == file.target.order()[i as int]);
                    assert(file.target@[id@].problem() == Some(error@));
                    return Err(TargetError { id, error });
                },
            }
            i += 1;
        }
        Ok(manifests)
    }

    /// Check that an `environments` list, when present, is non-empty: an empty
    /// list would match nothing and is always a mistake. The error is that of
    /// the first such entry, `unsupported` entries first.
    pub fn validate(&self) -> (r: Result<(), ManifestError>)
        ensures
            r is Ok == self.entry().problem() is None,
            r matches Err(e) ==> self.entry().problem() == Some(e@),
    {
        let mut i: usize = 0;
        assert(self.unsupported@.skip(0) =~= self.unsupported@);
        while i < self.unsupported.len()
            invariant
                i <= self.unsupported@.len(),
                empty_unsupported_scope(self.unsupported@) == empty_unsupported_scope(
                    self.unsupported@.skip(i as int),
                ),
            decreases self.unsupported@.len() - i,
        {
            if is_scope_empty(&self.unsupported[i].environments) {
                return Err(ManifestError::EmptyUnsupportedScope(self.unsupported[i].tag.clone()));
            }
            assert(self.unsupported@.skip(i as int).drop_first() =~= self.unsupported@.skip(i + 1));
            i += 1;
        }
        let mut j: usize = 0;
        assert(self.expected_fail@.skip(0) =~= self.expected_fail@);
        while j < self.expected_fail.len()
            invariant
                j <= self.expected_fail@.len(),
                empty_unsupported_scope(self.unsupported@) is None,
                empty_expected_fail_scope(self.expected_fail@) == empty_expected_fail_scope(
                    self.expected_fail@.skip(j as int),
                ),
            decreases self.expected_fail@.len() - j,
        {
            if is_scope_empty(&self.expected_fail[j].environments) {
                return Err(ManifestError::EmptyExpectedFailScope(self.expected_fail[j].test.clone()));
            }
            assert(self.expected_fail@.skip(j as int).drop_first() =~= self.expected_fail@.skip(
                j + 1,
            ));
            j += 1;
        }
        Ok(())
    }

    /// The `unsupported` entry that applies to a test with these tags in this
    /// environment, if any. Environment-scoped entries take precedence over
    /// unscoped ones when both match.
    pub fn is_unsupported(&self, tags: &[String], environment: &str) -> (r: Option<&Unsupported>)
        ensures
            match r {
                Some(entry) => self.unsupported_at(texts(tags@), environment@) matches Some(i)
                    && 0 <= i < self.unsupported@.len() && *entry == self.unsupported@[i],
                None => self.unsupported_at(texts(tags@), environment@) is None,
            },
    {
        let ghost applies = |i: int| self.unsupported@[i].applies(texts(tags@), environment@);
        let ghost scoped = |i: int| self.unsupported@[i].environments is Some;
        let mut best: Option<usize> = None;
        let mut i: usize = 0;
        while i < self.unsupported.len()
            invariant
                i <= self.unsupported@.len(),
                applies == (|i: int| self.unsupported@[i].applies(texts(tags@), environment@)),
                scoped == (|i: int| self.unsupported@[i].environments is Some),
                best matches Some(b) ==> b < i,
                match best {
                    Some(b) => decisive(applies, scoped, i as int) == Some(b as int),
                    None => decisive(applies, scoped, i as int) is None,
                },
            decreases self.unsupported@.len() - i,
        {
            let entry = &self.unsupported[i];
            if scope_applies(&entry.environments, environment) && is_member(tags, entry.tag.as_str()) {
                let outranked = match best {
                    Some(b) => self.unsupported[b].environments.is_some()
                        && entry.environments.is_none(),
                    None => false,
                };
                if !outranked {
                    best = Some(i);
                }
            }
            i += 1;
        }
        match best {
            Some(b) => Some(&self.unsupported[b]),
            None => None,
        }
    }

    /// The `expected-fail` entry that applies to a test id in this environment,
    /// if any. Environment-scoped entries take precedence over unscoped ones
    /// when both match.
    pub fn expected_fail(&self, test_id: &str, environment: &str) -> (r: Option<&ExpectedFail>)
        ensures
            match r {
                Some(entry) => self.expected_fail_at(test_id@, environment@) matches Some(i) && 0
                    <= i < self.expected_fail@.len() && *entry == self.expected_fail@[i],
                None => self.expected_fail_at(test_id@, environment@) is None,
            },
    {
        let ghost applies = |i: int| self.expected_fail@[i].applies(test_id@, environment@);
        let ghost scoped = |i: int| self.expected_fail@[i].environments is Some;
        let mut best: Option<usize> = None;
        let mut i: usize = 0;
        while i < self.expected_fail.len()
            invariant
                i <= self.expected_fail@.len(),
                applies == (|i: int| self.expected_fail@[i].applies(test_id@, environment@)),
                scoped == (|i: int| self.expected_fail@[i].environments is Some),
                best matches Some(b) ==> b < i,
                match best {
                    Some(b) => decisive(applies, scoped, i as int) == Some(b as int),
                    None => decisive(applies, scoped, i as int) is None,
                },
            decreases self.expected_fail@.len() - i,
        {
            let entry = &self.expected_fail[i];
            if scope_applies(&entry.environments, environment) && same(entry.test.as_str(), test_id) {
                let outranked = match best {
                    Some(b) => self.expected_fail[b].environments.is_some()
                        && entry.environments.is_none(),
                    None => false,
                };
                if !outranked {
                    best = Some(i);
                }
            }
            i += 1;
        }
        match best {
            Some(b) => Some(&self.expected_fail[b]),
            None => None,
        }
    }
}

// ----- laws -------------------------------------------------------------------------------

/// A target does not support a test in an environment exactly if some entry names one of
/// the test's tags and either names that environment or names none at all.
pub proof fn law_unsupported_where_an_entry_names_it(
    manifest: Manifest,
    tags: Seq<Seq<char>>,
    environment: Seq<char>,
)
    ensures
        manifest.unsupported_at(tags, environment) is Some <==> exists|i: int|
            0 <= i < manifest.unsupported@.len() && tags.contains(
                (#[trigger] manifest.unsupported@[i]).tag@,
            ) && (manifest.unsupported@[i].environments matches Some(names) ==> exists|k: int|
                0 <= k < names@.len() && (#[trigger] names@[k])@ == environment),
        manifest.unsupported_at(tags, environment) matches Some(i) ==> 0 <= i
            < manifest.unsupported@.len() && tags.contains(manifest.unsupported@[i].tag@),
{
    let applies = |i: int| manifest.unsupported@[i].applies(tags, environment);
    let scoped = |i: int| manifest.unsupported@[i].environments is Some;
    let n = manifest.unsupported@.len() as int;
    law_scoped_entries_take_precedence(applies, scoped, n);
    assert forall|i: int| 0 <= i < n implies (applies(i) <==> tags.contains(
        (#[trigger] manifest.unsupported@[i]).tag@,
    ) && (manifest.unsupported@[i].environments matches Some(names) ==> exists|k: int|
        0 <= k < names@.len() && (#[trigger] names@[k])@ == environment)) by {
        if let Some(names) = manifest.unsupported@[i].environments {
            lemma_names(names@, environment);
        }
    }
}

/// A test is expected to fail in an environment exactly if some entry names the test and
/// either names that environment or names none at all.
pub proof fn law_expected_to_fail_where_an_entry_names_it(
    manifest: Manifest,
    test_id: Seq<char>,
    environment: Seq<char>,
)
    ensures
        manifest.expected_fail_at(test_id, environment) is Some <==> exists|i: int|
            0 <= i < manifest.expected_fail@.len() && (
            #[trigger] manifest.expected_fail@[i]).test@ == test_id && (
            manifest.expected_fail@[i].environments matches Some(names) ==> exists|k: int|
                0 <= k < names@.len() && (#[trigger] names@[k])@ == environment),
        manifest.expected_fail_at(test_id, environment) matches Some(i) ==> 0 <= i
            < manifest.expected_fail@.len() && manifest.expected_fail@[i].test@ == test_id,
{
    let applies = |i: int| manifest.expected_fail@[i].applies(test_id, environment);
    let scoped = |i: int| manifest.expected_fail@[i].environments is Some;
    let n = manifest.expected_fail@.len() as int;
    law_scoped_entries_take_precedence(applies, scoped, n);
    assert forall|i: int| 0 <= i < n implies (applies(i) <==> (
    #[trigger] manifest.expected_fail@[i]).test@ == test_id && (
    manifest.expected_fail@[i].environments matches Some(names) ==> exists|k: int|
        0 <= k < names@.len() && (#[trigger] names@[k])@ == environment)) by {
        if let Some(names) = manifest.expected_fail@[i].environments {
            lemma_names(names@, environment);
        }
    }
}

proof fn lemma_names(names: Seq<String>, environment: Seq<char>)
    ensures
        texts(names).contains(environment) <==> exists|k: int|
            0 <= k < names.len() && (#[trigger] names[k])@ == environment,
{
    if texts(names).contains(environment) {
        let k = texts(names).index_of(environment);
        assert(names[k]@ == environment);
    }
    if exists|k: int| 0 <= k < names.len() && (#[trigger] names[k])@ == environment {
        let k = choose|k: int| 0 <= k < names.len() && (#[trigger] names[k])@ == environment;
        assert(texts(names)[k] == environment);
    }
}

/// Of two entries that both apply, the one that names its environments decides, wherever
/// it stands.
pub proof fn law_the_named_environment_decides(
    manifest: Manifest,
    test_id: Seq<char>,
    environment: Seq<char>,
    i: int,
)
    requires
        0 <= i < manifest.expected_fail@.len(),
        manifest.expected_fail@[i].test@ == test_id,
        manifest.expected_fail@[i].environments matches Some(names) && texts(names@).contains(
            environment,
        ),
    ensures
        manifest.expected_fail_at(test_id, environment) matches Some(k)
            && manifest.expected_fail@[k].environments is Some && k >= i,
{
    let applies = |i: int| manifest.expected_fail@[i].applies(test_id, environment);
    let scoped = |i: int| manifest.expected_fail@[i].environments is Some;
    let n = manifest.expected_fail@.len() as int;
    law_scoped_entries_take_precedence(applies, scoped, n);
    assert(applies(i));
}

/// A table is usable exactly if no entry of it has an empty list of environments: an
/// entry without a list is fine, and one with an empty list never applies anywhere.
pub proof fn law_usable_tables_name_environments_or_none(entry: TargetEntry)
    ensures
        entry.problem() is None <==> {
            &&& forall|i: int|
                0 <= i < entry.unsupported@.len() ==> ((
                #[trigger] entry.unsupported@[i]).environments matches Some(names) ==> names@.len()
                    > 0)
            &&& forall|i: int|
                0 <= i < entry.expected_fail@.len() ==> ((
                #[trigger] entry.expected_fail@[i]).environments matches Some(names)
                    ==> names@.len() > 0)
        },
        entry.problem() matches Some(ManifestErrorView::EmptyUnsupportedScope(tag)) ==> exists|i: int|
            0 <= i < entry.unsupported@.len() && (#[trigger] entry.unsupported@[i]).tag@ == tag && (
            entry.unsupported@[i].environments matches Some(names) && names@.len() == 0),
        entry.problem() matches Some(ManifestErrorView::EmptyExpectedFailScope(test)) ==> exists|
            i: int,
        |
            0 <= i < entry.expected_fail@.len() && (#[trigger] entry.expected_fail@[i]).test@ == test
                && (entry.expected_fail@[i].environments matches Some(names) && names@.len() == 0),
{
    lemma_empty_unsupported_scope(entry.unsupported@);
    lemma_empty_expected_fail_scope(entry.expected_fail@);
}

proof fn lemma_empty_unsupported_scope(entries: Seq<Unsupported>)
    ensures
        match empty_unsupported_scope(entries) {
            None => forall|i: int|
                0 <= i < entries.len() ==> !((#[trigger] entries[i]).environments matches Some(names)
                    && names@.len() == 0),
            Some(tag) => exists|i: int|
                0 <= i < entries.len() && (#[trigger] entries[i]).tag@ == tag && (
                entries[i].environments matches Some(names) && names@.len() == 0),
        },
    decreases entries.len(),
{
    if entries.len() > 0 && !scope_is_empty(entries[0].environments) {
        let rest = entries.drop_first();
        lemma_empty_unsupported_scope(rest);
        assert(forall|i: int| 0 < i < entries.len() ==> #[trigger] entries[i] == rest[i - 1]);
        if let Some(tag) = empty_unsupported_scope(entries) {
            let i = choose|i: int|
                0 <= i < rest.len() && (#[trigger] rest[i]).tag@ == tag && (
                rest[i].environments matches Some(names) && names@.len() == 0);
            assert(entries[i + 1] == rest[i]);
        }
    }
}

proof fn lemma_empty_expected_fail_scope(entries: Seq<ExpectedFail>)
    ensures
        match empty_expected_fail_scope(entries) {
            None => forall|i: int|
                0 <= i < entries.len() ==> !((#[trigger] entries[i]).environments matches Some(names)
                    && names@.len() == 0),
            Some(test) => exists|i: int|
                0 <= i < entries.len() && (#[trigger] entries[i]).test@ == test && (
                entries[i].environments matches Some(names) && names@.len() == 0),
        },
    decreases entries.len(),
{
    if entries.len() > 0 && !scope_is_empty(entries[0].environments) {
        let rest = entries.drop_first();
        lemma_empty_expected_fail_scope(rest);
        assert(forall|i: int| 0 < i < entries.len() ==> #[trigger] entries[i] == rest[i - 1]);
        if let Some(test) = empty_expected_fail_scope(entries) {
            let i = choose|i: int|
                0 <= i < rest.len() && (#[trigger] rest[i]).test@ == test && (
                rest[i].environments matches Some(names) && names@.len() == 0);
            assert(entries[i + 1] == rest[i]);
        }
    }
}

/// The message of an unusable table names the kind of entry and what the entry is about:
/// a tag for an `unsupported` one, a test for an `expected-fail` one.
pub proof fn law_messages_name_the_entry(name: String, id: String)
    ensures
        has_prefix(
            ManifestError::EmptyUnsupportedScope(name).text(),
            "`unsupported` entry for tag "@ + debug_quoted(name@) + " has an empty "@,
        ),
        has_prefix(
            ManifestError::EmptyExpectedFailScope(name).text(),
            "`expected-fail` entry for test "@ + debug_quoted(name@) + " has an empty "@,
        ),
        forall|error: ManifestError|
            (#[trigger] (TargetError { id, error }).context_text()) == "validating target "@
                + debug_quoted(id@),
{
    reveal_strlit(" has an empty ");
    reveal_strlit(" has an empty `environments` list; ");
    assert(" has an empty `environments` list; "@.take(14) =~= " has an empty "@);
    let a = "`unsupported` entry for tag "@ + debug_quoted(name@);
    let b = "`expected-fail` entry for test "@ + debug_quoted(name@);
    let end = " has an empty `environments` list; "@;
    let tail = "omit the key to apply to every environment"@;
    assert((a + end + tail).take((a.len() + 14) as int) =~= a + " has an empty "@);
    assert((b + end + tail).take((b.len() + 14) as int) =~= b + " has an empty "@);
}

} // verus!
