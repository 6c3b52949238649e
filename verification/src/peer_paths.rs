//! Where the binaries and components of a peer are: paths made absolute, and bare names
//! found on `PATH`.
//!
//! A peer may be started from any directory, so its command names absolute paths only.
//! What the file system and the environment say is handed in as [`Surroundings`];
//! [`bin_candidates`] lists the paths that have to be looked at for a binary.

use vstd::prelude::*;

use crate::lab::{join_path, joined_path};
use crate::peer_command::{PeerCommand, PeerKind};
use crate::text::{concat2, contains, has_prefix, has_substring, same, starts_with, texts};

verus! {

// ----- surroundings ------------------------------------------------------------------------------

/// What the file system says of a path.
#[derive(Debug, Clone)]
pub struct Seen {
    pub path: String,
    /// The canonical, absolute form of the path, if something is there.
    pub canonical: Option<String>,
    /// Whether a file is there.
    pub is_file: bool,
}

/// The contents of a [`Seen`].
pub struct SeenView {
    pub path: Seq<char>,
    pub canonical: Option<Seq<char>>,
    pub is_file: bool,
}

impl View for Seen {
    type V = SeenView;

    open spec fn view(&self) -> SeenView {
        SeenView {
            path: self.path@,
            canonical: match self.canonical {
                Some(path) => Some(path@),
                None => None,
            },
            is_file: self.is_file,
        }
    }
}

/// What a path is resolved against.
#[derive(Debug, Clone)]
pub struct Surroundings {
    /// The current directory, if there is one.
    pub cwd: Option<String>,
    /// The directories of `PATH`, if it is set.
    pub path: Option<Vec<String>>,
    /// What is known of the file system. Nothing is at a path that is not listed.
    pub seen: Vec<Seen>,
}

/// The contents of [`Surroundings`].
pub struct SurroundingsView {
    pub cwd: Option<Seq<char>>,
    pub path: Option<Seq<Seq<char>>>,
    pub seen: Seq<SeenView>,
}

impl View for Surroundings {
    type V = SurroundingsView;

    open spec fn view(&self) -> SurroundingsView {
        SurroundingsView {
            cwd: match self.cwd {
                Some(cwd) => Some(cwd@),
                None => None,
            },
            path: match self.path {
                Some(path) => Some(texts(path@)),
                None => None,
            },
            seen: self.seen@.map_values(|s: Seen| s@),
        }
    }
}

/// Why a peer command cannot be resolved.
#[derive(Debug, Clone)]
pub enum ResolveError {
    /// There is no current directory.
    NoCurrentDir,
    /// `PATH` is not set.
    NoPath,
    /// No directory of `PATH` holds a file of this name.
    NotOnPath(String),
}

/// The contents of a [`ResolveError`].
#[verifier::ext_equal]
pub enum ResolveErrorView {
    NoCurrentDir,
    NoPath,
    NotOnPath(Seq<char>),
}

impl View for ResolveError {
    type V = ResolveErrorView;

    open spec fn view(&self) -> ResolveErrorView {
        match self {
            ResolveError::NoCurrentDir => ResolveErrorView::NoCurrentDir,
            ResolveError::NoPath => ResolveErrorView::NoPath,
            ResolveError::NotOnPath(bin) => ResolveErrorView::NotOnPath(bin@),
        }
    }
}

impl ResolveErrorView {
    /// The message of this error.
    pub open spec fn text(self) -> Seq<char> {
        match self {
            ResolveErrorView::NoCurrentDir => "getting current directory"@,
            ResolveErrorView::NoPath => "reading PATH"@,
            ResolveErrorView::NotOnPath(bin) => bin + " not found on PATH"@,
        }
    }
}

impl ResolveError {
    /// The message of this error.
    pub fn message(&self) -> (r: String)
        ensures
            r@ == self@.text(),
    {
        match self {
            ResolveError::NoCurrentDir => "getting current directory".to_string(),
            ResolveError::NoPath => "reading PATH".to_string(),
            ResolveError::NotOnPath(bin) => concat2(bin.as_str(), " not found on PATH"),
        }
    }
}

// ----- paths ---------------------------------------------------------------------------------------

/// A path from the root.
pub open spec fn is_absolute(path: Seq<char>) -> bool {
    has_prefix(path, "/"@)
}

/// A path as seen from a directory.
pub open spec fn placed(dir: Seq<char>, path: Seq<char>) -> Seq<char> {
    if is_absolute(path) {
        path
    } else {
        joined_path(dir, path)
    }
}

fn place(dir: &str, path: &str) -> (r: String)
    ensures
        r@ == placed(dir@, path@),
{
    if starts_with(path, "/") {
        path.to_string()
    } else {
        join_path(dir, path)
    }
}

impl SurroundingsView {
    /// What is said of `path`, from the `i`-th report on.
    pub open spec fn seen_from(self, path: Seq<char>, i: int) -> Option<SeenView>
        decreases self.seen.len() - i,
    {
        if i >= self.seen.len() {
            None
        } else if self.seen[i].path == path {
            Some(self.seen[i])
        } else {
            self.seen_from(path, i + 1)
        }
    }

    /// The canonical form of `path`, if something is there.
    pub open spec fn canonical(self, path: Seq<char>) -> Option<Seq<char>> {
        match self.seen_from(path, 0) {
            Some(seen) => seen.canonical,
            None => None,
        }
    }

    /// A file is at `path`.
    pub open spec fn has_file(self, path: Seq<char>) -> bool {
        match self.seen_from(path, 0) {
            Some(seen) => seen.is_file,
            None => false,
        }
    }

    /// `path` as seen from the current directory.
    pub open spec fn from_cwd(self, path: Seq<char>) -> Result<Seq<char>, ResolveErrorView> {
        match self.cwd {
            Some(cwd) => Ok(placed(cwd, path)),
            None => Err(ResolveErrorView::NoCurrentDir),
        }
    }

    /// `path` made absolute: its canonical form if something is there, else as seen
    /// from the current directory.
    pub open spec fn absolute(self, path: Seq<char>) -> Result<Seq<char>, ResolveErrorView> {
        match self.canonical(path) {
            Some(canonical) => Ok(canonical),
            None => self.from_cwd(path),
        }
    }

    /// The first of `dirs`, from the `i`-th on, that holds a file named `bin`.
    pub open spec fn found_from(
        self,
        dirs: Seq<Seq<char>>,
        bin: Seq<char>,
        i: int,
    ) -> Option<Seq<char>>
        decreases dirs.len() - i,
    {
        if i >= dirs.len() {
            None
        } else if self.has_file(joined_path(dirs[i], bin)) {
            Some(joined_path(dirs[i], bin))
        } else {
            self.found_from(dirs, bin, i + 1)
        }
    }

    /// A binary named by path or bare name: a bare name (no path separator) is searched
    /// for on `PATH`; anything else is made absolute. A file found in a relative
    /// directory is made absolute too.
    pub open spec fn binary(self, bin: Seq<char>) -> Result<Seq<char>, ResolveErrorView> {
        if has_substring(bin, "/"@) {
            self.absolute(bin)
        } else {
            match self.path {
                None => Err(ResolveErrorView::NoPath),
                Some(dirs) => match self.found_from(dirs, bin, 0) {
                    None => Err(ResolveErrorView::NotOnPath(bin)),
                    Some(file) => if is_absolute(file) {
                        Ok(file)
                    } else {
                        self.from_cwd(file)
                    },
                },
            }
        }
    }
}

impl Surroundings {
    fn look_up(&self, path: &str) -> (r: Option<&Seen>)
        ensures
            match r {
                Some(seen) => self@.seen_from(path@, 0) == Some(seen@),
                None => self@.seen_from(path@, 0) is None,
            },
    {
        let mut i: usize = 0;
        while i < self.seen.len()
            invariant
                i <= self.seen@.len(),
                self@.seen_from(path@, 0) == self@.seen_from(path@, i as int),
            decreases self.seen@.len() - i,
        {
            assert(self@.seen[i as int] == self.seen@[i as int]@);
            if same(self.seen[i].path.as_str(), path) {
                return Some(&self.seen[i]);
            }
            i += 1;
        }
        None
    }

    fn from_cwd(&self, path: &str) -> (r: Result<String, ResolveError>)
        ensures
            outcome(r) == self@.from_cwd(path@),
    {
        match &self.cwd {
            Some(cwd) => Ok(place(cwd.as_str(), path)),
            None => Err(ResolveError::NoCurrentDir),
        }
    }

    /// Resolve `path` to an absolute path, so it survives being handed to a process
    /// that runs in another directory: its canonical form if something is there, else
    /// as seen from the current directory.
    pub fn absolute(&self, path: &str) -> (r: Result<String, ResolveError>)
        ensures
            outcome(r) == self@.absolute(path@),
    {
        if let Some(seen) = self.look_up(path) {
            if let Some(canonical) = &seen.canonical {
                return Ok(canonical.clone());
            }
        }
        self.from_cwd(path)
    }

    /// Resolve a binary named by path or bare name: a bare name (no path separator) is
    /// searched for on `PATH`; anything else is made absolute.
    pub fn resolve_bin(&self, bin: &str) -> (r: Result<String, ResolveError>)
        ensures
            outcome(r) == self@.binary(bin@),
    {
        if contains(bin, "/") {
            return self.absolute(bin);
        }
        let dirs = match &self.path {
            Some(dirs) => dirs,
            None => return Err(ResolveError::NoPath),
        };
        let ghost list = texts(dirs@);
        let mut i: usize = 0;
        while i < dirs.len()
            invariant
                i <= dirs@.len(),
                list == texts(dirs@),
                self@.path == Some(list),
                !has_substring(bin@, "/"@),
                self@.found_from(list, bin@, 0) == self@.found_from(list, bin@, i as int),
            decreases dirs@.len() - i,
        {
            assert(list[i as int] == dirs@[i as int]@);
            let candidate = join_path(dirs[i].as_str(), bin);
            if let Some(seen) = self.look_up(candidate.as_str()) {
                if seen.is_file {
                    if starts_with(candidate.as_str(), "/") {
                        return Ok(candidate);
                    }
                    return self.from_cwd(candidate.as_str());
                }
            }
            i += 1;
        }
        Err(ResolveError::NotOnPath(bin.to_string()))
    }
}

/// What resolving a path came to.
pub open spec fn outcome(r: Result<String, ResolveError>) -> Result<Seq<char>, ResolveErrorView> {
    match r {
        Ok(path) => Ok(path@),
        Err(e) => Err(e@),
    }
}

// ----- peer commands -------------------------------------------------------------------------------

/// The contents of a [`PeerCommand`].
#[verifier::ext_equal]
pub enum PeerCommandView {
    Wasmtime { peer_bin: Seq<char>, guest: Seq<char> },
    Wasip3Guest { wasmtime_bin: Seq<char>, component: Seq<char> },
}

impl View for PeerCommand {
    type V = PeerCommandView;

    open spec fn view(&self) -> PeerCommandView {
        match self {
            PeerCommand::Wasmtime { peer_bin, guest } => PeerCommandView::Wasmtime {
                peer_bin: peer_bin@,
                guest: guest@,
            },
            PeerCommand::Wasip3Guest { wasmtime_bin, component } => PeerCommandView::Wasip3Guest {
                wasmtime_bin: wasmtime_bin@,
                component: component@,
            },
        }
    }
}

/// The command of a peer kind, its binary and what it runs resolved in that order.
pub open spec fn resolved(
    kind: PeerKind,
    peer_bin: Seq<char>,
    guest: Seq<char>,
    wasmtime_bin: Seq<char>,
    component: Seq<char>,
    at: SurroundingsView,
) -> Result<PeerCommandView, ResolveErrorView> {
    match kind {
        PeerKind::Wasmtime => match (at.absolute(peer_bin), at.absolute(guest)) {
            (Err(e), _) => Err(e),
            (_, Err(e)) => Err(e),
            (Ok(peer_bin), Ok(guest)) => Ok(PeerCommandView::Wasmtime { peer_bin, guest }),
        },
        PeerKind::Wasip3Guest => match (at.binary(wasmtime_bin), at.absolute(component)) {
            (Err(e), _) => Err(e),
            (_, Err(e)) => Err(e),
            (Ok(wasmtime_bin), Ok(component)) => Ok(
                PeerCommandView::Wasip3Guest { wasmtime_bin, component },
            ),
        },
    }
}

impl PeerCommand {
    /// Resolve `kind`'s binaries and components to absolute paths. `guest` and
    /// `peer_bin` serve the `wasmtime` kind; `wasmtime_bin` (a path or a bare name
    /// looked up on `PATH`) and `component` serve the `wasip3-guest` kind.
    pub fn resolve(
        kind: PeerKind,
        peer_bin: &str,
        guest: &str,
        wasmtime_bin: &str,
        component: &str,
        at: &Surroundings,
    ) -> (r: Result<Self, ResolveError>)
        ensures
            match r {
                Ok(command) => resolved(kind, peer_bin@, guest@, wasmtime_bin@, component@, at@)
                    == Ok::<PeerCommandView, ResolveErrorView>(command@),
                Err(e) => resolved(kind, peer_bin@, guest@, wasmtime_bin@, component@, at@) == Err::<
                    PeerCommandView,
                    ResolveErrorView,
                >(e@),
            },
    {
        match kind {
            PeerKind::Wasmtime => {
                let peer_bin = match at.absolute(peer_bin) {
                    Ok(path) => path,
                    Err(e) => return Err(e),
                };
                let guest = match at.absolute(guest) {
                    Ok(path) => path,
                    Err(e) => return Err(e),
                };
                Ok(PeerCommand::Wasmtime { peer_bin, guest })
            },
            PeerKind::Wasip3Guest => {
                let wasmtime_bin = match at.resolve_bin(wasmtime_bin) {
                    Ok(path) => path,
                    Err(e) => return Err(e),
                };
                let component = match at.absolute(component) {
                    Ok(path) => path,
                    Err(e) => return Err(e),
                };
                Ok(PeerCommand::Wasip3Guest { wasmtime_bin, component })
            },
        }
    }
}

/// The paths that decide where `bin` is: itself if it is a path, else what the
/// directories of `PATH` may hold under its name.
pub open spec fn candidates(bin: Seq<char>, dirs: Seq<Seq<char>>) -> Seq<Seq<char>> {
    if has_substring(bin, "/"@) {
        seq![bin]
    } else {
        Seq::new(dirs.len(), |i: int| joined_path(dirs[i], bin))
    }
}

/// The paths that have to be looked at to resolve a binary, in the order in which they
/// are tried.
pub fn bin_candidates(bin: &str, dirs: &[String]) -> (r: Vec<String>)
    ensures
        texts(r@) == candidates(bin@, texts(dirs@)),
{
    let mut out: Vec<String> = Vec::new();
    if contains(bin, "/") {
        out.push(bin.to_string());
        assert(texts(out@) =~= candidates(bin@, texts(dirs@)));
        return out;
    }
    let mut i: usize = 0;
    while i < dirs.len()
        invariant
            i <= dirs@.len(),
            !has_substring(bin@, "/"@),
            texts(out@) == candidates(bin@, texts(dirs@)).take(i as int),
        decreases dirs@.len() - i,
    {
        let ghost before = texts(out@);
        out.push(join_path(dirs[i].as_str(), bin));
        assert(texts(out@) =~= candidates(bin@, texts(dirs@)).take(i + 1)) by {
            assert(texts(dirs@)[i as int] == dirs@[i as int]@);
            assert(texts(out@) =~= before.push(joined_path(dirs@[i as int]@, bin@)));
        }
        i += 1;
    }
    assert(texts(out@) =~= candidates(bin@, texts(dirs@)));
    out
}

// ----- laws ----------------------------------------------------------------------------------------

/// The current directory and every canonical form are absolute paths.
pub open spec fn is_sound(at: SurroundingsView) -> bool {
    &&& at.cwd matches Some(cwd) ==> is_absolute(cwd)
    &&& forall|i: int|
        0 <= i < at.seen.len() ==> ((#[trigger] at.seen[i]).canonical matches Some(path)
            ==> is_absolute(path))
}

proof fn lemma_seen(at: SurroundingsView, path: Seq<char>, i: int)
    requires
        0 <= i,
    ensures
        at.seen_from(path, i) matches Some(seen) ==> exists|k: int|
            i <= k < at.seen.len() && #[trigger] at.seen[k] == seen,
    decreases at.seen.len() - i,
{
    if i < at.seen.len() {
        if at.seen[i].path == path {
            assert(at.seen[i] == at.seen_from(path, i)->Some_0);
        } else {
            lemma_seen(at, path, i + 1);
        }
    }
}

proof fn lemma_absolute(at: SurroundingsView, path: Seq<char>)
    requires
        is_sound(at),
    ensures
        at.absolute(path) matches Ok(found) ==> is_absolute(found),
        at.from_cwd(path) matches Ok(found) ==> is_absolute(found),
{
    lemma_seen(at, path, 0);
    if let Some(cwd) = at.cwd {
        reveal_strlit("/");
        let from_cwd = joined_path(cwd, path);
        assert(cwd.subrange(0, 1)[0] == '/');
        assert(from_cwd.subrange(0, 1) =~= "/"@);
    }
}

/// Every path of a resolved command is absolute, whatever directory of `PATH` its binary
/// was found in, and the command is one of the kind that was asked for.
pub proof fn law_resolved_paths_are_absolute(
    kind: PeerKind,
    peer_bin: Seq<char>,
    guest: Seq<char>,
    wasmtime_bin: Seq<char>,
    component: Seq<char>,
    at: SurroundingsView,
)
    requires
        is_sound(at),
        resolved(kind, peer_bin, guest, wasmtime_bin, component, at) is Ok,
    ensures
        match resolved(kind, peer_bin, guest, wasmtime_bin, component, at)->Ok_0 {
            PeerCommandView::Wasmtime { peer_bin, guest } => kind is Wasmtime && is_absolute(
                peer_bin,
            ) && is_absolute(guest),
            PeerCommandView::Wasip3Guest { wasmtime_bin, component } => kind is Wasip3Guest
                && is_absolute(wasmtime_bin) && is_absolute(component),
        },
{
    lemma_absolute(at, peer_bin);
    lemma_absolute(at, guest);
    lemma_absolute(at, component);
    lemma_absolute(at, wasmtime_bin);
    if let Some(dirs) = at.path {
        if let Some(file) = at.found_from(dirs, wasmtime_bin, 0) {
            lemma_absolute(at, file);
        }
    }
}

/// Each kind reads its own two paths and no other: what the other kind would run need
/// not be there.
pub proof fn law_a_kind_reads_its_own_paths(
    peer_bin: Seq<char>,
    guest: Seq<char>,
    wasmtime_bin: Seq<char>,
    component: Seq<char>,
    one: Seq<char>,
    other: Seq<char>,
    at: SurroundingsView,
)
    ensures
        resolved(PeerKind::Wasmtime, peer_bin, guest, wasmtime_bin, component, at) == resolved(
            PeerKind::Wasmtime,
            peer_bin,
            guest,
            one,
            other,
            at,
        ),
        resolved(PeerKind::Wasip3Guest, peer_bin, guest, wasmtime_bin, component, at) == resolved(
            PeerKind::Wasip3Guest,
            one,
            other,
            wasmtime_bin,
            component,
            at,
        ),
{
}

proof fn lemma_found(at: SurroundingsView, dirs: Seq<Seq<char>>, bin: Seq<char>, i: int)
    requires
        0 <= i,
    ensures
        at.found_from(dirs, bin, i) is None <==> forall|k: int|
            i <= k < dirs.len() ==> !at.has_file(joined_path(#[trigger] dirs[k], bin)),
        at.found_from(dirs, bin, i) matches Some(file) ==> exists|k: int|
            i <= k < dirs.len() && file == joined_path(#[trigger] dirs[k], bin) && at.has_file(file)
                && forall|j: int| i <= j < k ==> !at.has_file(joined_path(#[trigger] dirs[j], bin)),
    decreases dirs.len() - i,
{
    if i < dirs.len() {
        lemma_found(at, dirs, bin, i + 1);
        if at.has_file(joined_path(dirs[i], bin)) {
            assert(!(!at.has_file(joined_path(dirs[i], bin))));
        }
    }
}

/// A bare name is that of the first directory of `PATH` that holds such a file; where
/// none does, the command cannot be resolved and the error names the binary.
pub proof fn law_bare_names_are_searched_for(
    bin: Seq<char>,
    component: Seq<char>,
    dirs: Seq<Seq<char>>,
    at: SurroundingsView,
)
    requires
        !has_substring(bin, "/"@),
        at.path == Some(dirs),
    ensures
        at.binary(bin) == Err::<Seq<char>, ResolveErrorView>(ResolveErrorView::NotOnPath(bin)) <==> (
        forall|k: int|
            0 <= k < dirs.len() ==> !at.has_file(joined_path(#[trigger] dirs[k], bin))),
        at.binary(bin) is Err ==> resolved(
            PeerKind::Wasip3Guest,
            seq![],
            seq![],
            bin,
            component,
            at,
        ) == Err::<PeerCommandView, ResolveErrorView>(at.binary(bin)->Err_0),
        at.binary(bin) matches Ok(file) ==> exists|k: int|
            0 <= k < dirs.len() && at.has_file(joined_path(#[trigger] dirs[k], bin)) && (file
                == joined_path(dirs[k], bin) || at.from_cwd(joined_path(dirs[k], bin)) == Ok::<
                Seq<char>,
                ResolveErrorView,
            >(file)) && forall|j: int|
                0 <= j < k ==> !at.has_file(joined_path(#[trigger] dirs[j], bin)),
{
    lemma_found(at, dirs, bin, 0);
}

/// What the errors say: that there is no current directory, that there is no `PATH`, or
/// which binary is not on it.
pub proof fn law_errors_say_what_is_missing(bin: Seq<char>)
    ensures
        ResolveErrorView::NoCurrentDir.text() == "getting current directory"@,
        ResolveErrorView::NoPath.text() == "reading PATH"@,
        ResolveErrorView::NotOnPath(bin).text() == bin + " not found on PATH"@,
{
}

/// A path from the root stays as it is wherever it is seen from; any other stands in the
/// directory it is seen from.
pub proof fn law_absolute_paths_stay(dir: Seq<char>, path: Seq<char>, rest: Seq<char>)
    ensures
        placed(dir, "/"@ + rest) == "/"@ + rest,
        path.len() > 0 && path[0] != '/' && dir.len() > 0 && dir.last() != '/' ==> placed(dir, path)
            == dir + "/"@ + path,
        path.len() > 0 && path[0] != '/' && dir.len() > 0 && dir.last() == '/' ==> placed(dir, path)
            == dir + path,
{
    reveal_strlit("/");
    assert(("/"@ + rest).subrange(0, 1) =~= "/"@);
    if path.len() > 0 && is_absolute(path) {
        assert(path.subrange(0, 1)[0] == path[0]);
    }
}

/// What is there is known by its canonical form, wherever the current directory is; what is
/// not is seen from the current directory, and cannot be resolved without one.
pub proof fn law_what_is_there_is_canonical(at: SurroundingsView, path: Seq<char>, i: int)
    requires
        0 <= i < at.seen.len(),
        at.seen[i].path == path,
        forall|k: int| 0 <= k < i ==> (#[trigger] at.seen[k]).path != path,
    ensures
        at.seen[i].canonical matches Some(canonical) ==> at.absolute(path) == Ok::<
            Seq<char>,
            ResolveErrorView,
        >(canonical),
        at.seen[i].canonical is None ==> (at.absolute(path) is Err <==> at.cwd is None),
        at.seen[i].canonical is None ==> (at.cwd matches Some(cwd) ==> at.absolute(path) == Ok::<
            Seq<char>,
            ResolveErrorView,
        >(placed(cwd, path))),
        at.has_file(path) <==> at.seen[i].is_file,
{
    lemma_first_seen(at, path, 0, i);
}

proof fn lemma_first_seen(at: SurroundingsView, path: Seq<char>, j: int, i: int)
    requires
        0 <= j <= i < at.seen.len(),
        at.seen[i].path == path,
        forall|k: int| 0 <= k < i ==> (#[trigger] at.seen[k]).path != path,
    ensures
        at.seen_from(path, j) == Some(at.seen[i]),
    decreases i - j,
{
    if j < i {
        lemma_first_seen(at, path, j + 1, i);
    }
}

/// Nothing is at a path that nothing is known of: no file, and no canonical form.
pub proof fn law_nothing_is_where_nothing_was_seen(at: SurroundingsView, path: Seq<char>)
    requires
        forall|k: int| 0 <= k < at.seen.len() ==> (#[trigger] at.seen[k]).path != path,
    ensures
        !at.has_file(path),
        at.canonical(path) is None,
        at.absolute(path) == at.from_cwd(path),
{
    lemma_seen_path(at, path, 0);
}

proof fn lemma_seen_path(at: SurroundingsView, path: Seq<char>, i: int)
    requires
        0 <= i,
        forall|k: int| 0 <= k < at.seen.len() ==> (#[trigger] at.seen[k]).path != path,
    ensures
        at.seen_from(path, i) is None,
    decreases at.seen.len() - i,
{
    if i < at.seen.len() {
        lemma_seen_path(at, path, i + 1);
    }
}

/// A name with a separator is a path, whatever is on `PATH`; without one it needs a `PATH`.
pub proof fn law_paths_are_not_searched_for(at: SurroundingsView, bin: Seq<char>)
    ensures
        has_substring(bin, "/"@) ==> at.binary(bin) == at.absolute(bin),
        !has_substring(bin, "/"@) && at.path is None ==> at.binary(bin) == Err::<
            Seq<char>,
            ResolveErrorView,
        >(ResolveErrorView::NoPath),
{
}

/// The candidates of a binary decide where it is: a path is its own only candidate, and a
/// bare name has one in each directory, in the order of `PATH`; the file that a name is
/// found at is one of them.
pub proof fn law_candidates_decide(bin: Seq<char>, dirs: Seq<Seq<char>>, at: SurroundingsView)
    ensures
        has_substring(bin, "/"@) ==> candidates(bin, dirs) == seq![bin],
        !has_substring(bin, "/"@) ==> candidates(bin, dirs).len() == dirs.len() && forall|i: int|
            0 <= i < dirs.len() ==> #[trigger] candidates(bin, dirs)[i] == joined_path(dirs[i], bin),
        !has_substring(bin, "/"@) ==> (at.found_from(dirs, bin, 0) matches Some(file)
            ==> candidates(bin, dirs).contains(file) && at.has_file(file)),
{
    if !has_substring(bin, "/"@) {
        lemma_found(at, dirs, bin, 0);
        if let Some(file) = at.found_from(dirs, bin, 0) {
            let k = choose|k: int|
                0 <= k < dirs.len() && file == joined_path(#[trigger] dirs[k], bin) && at.has_file(
                    file,
                );
            assert(candidates(bin, dirs)[k] == file);
        }
    }
}

/// A command is resolved from its two paths, the binary first: the first that cannot be
/// resolved gives the error.
pub proof fn law_the_binary_is_resolved_first(
    peer_bin: Seq<char>,
    guest: Seq<char>,
    wasmtime_bin: Seq<char>,
    component: Seq<char>,
    at: SurroundingsView,
)
    ensures
        ({
            let native = resolved(
                PeerKind::Wasmtime,
                peer_bin,
                guest,
                wasmtime_bin,
                component,
                at,
            );
            &&& native is Ok <==> at.absolute(peer_bin) is Ok && at.absolute(guest) is Ok
            &&& native matches Ok(PeerCommandView::Wasmtime { peer_bin: a, guest: b }) ==> at.absolute(
                peer_bin,
            ) == Ok::<Seq<char>, ResolveErrorView>(a) && at.absolute(guest) == Ok::<
                Seq<char>,
                ResolveErrorView,
            >(b)
            &&& at.absolute(peer_bin) matches Err(e) ==> native == Err::<
                PeerCommandView,
                ResolveErrorView,
            >(e)
        }),
        ({
            let composed = resolved(
                PeerKind::Wasip3Guest,
                peer_bin,
                guest,
                wasmtime_bin,
                component,
                at,
            );
            &&& composed is Ok <==> at.binary(wasmtime_bin) is Ok && at.absolute(component) is Ok
            &&& composed matches Ok(PeerCommandView::Wasip3Guest { wasmtime_bin: a, component: b })
                ==> at.binary(wasmtime_bin) == Ok::<Seq<char>, ResolveErrorView>(a) && at.absolute(
                component,
            ) == Ok::<Seq<char>, ResolveErrorView>(b)
            &&& at.binary(wasmtime_bin) matches Err(e) ==> composed == Err::<
                PeerCommandView,
                ResolveErrorView,
            >(e)
        }),
{
}

} // verus!
