//! The global configuration store: per-machine mirrors of local projects.
//!
//! Each project entry is keyed by the canonical absolute path of the local
//! store's backing file — at most one entry per path. It mirrors the local
//! setups by name, carries machine-only overrides (a private env
//! directory), and the current `(setup, env)` selection. The sync engine
//! reconciles a project entry against a local store: it registers a
//! missing project, creates missing setup mirrors, and never overwrites or
//! removes an existing one.

use vstd::prelude::*;

use crate::errors::Error;
use crate::local::{LocalCfg, SetupView};

verus! {

// ---------------------------------------------------------------------------
// Views
// ---------------------------------------------------------------------------

/// What one mirrored setup holds, at the specification level.
pub struct GlobalSetupView {
    pub name: Seq<char>,
    pub private_env_dir: Option<Seq<char>>,
}

/// What one project entry holds, at the specification level.
pub struct ProjectView {
    /// The key: the absolute path of the local store's backing file.
    pub file: Seq<char>,
    /// The persisted current `(setup, env)` selection.
    pub current: Option<(Seq<char>, Seq<char>)>,
    pub setups: Seq<GlobalSetupView>,
}

/// Whether a mirrored setup of this name is present.
pub open spec fn has_global_setup(setups: Seq<GlobalSetupView>, name: Seq<char>) -> bool {
    exists|i: int| 0 <= i < setups.len() && setups[i].name == name
}

/// Index of the first project entry keyed by `file`.
pub open spec fn find_project(projects: Seq<ProjectView>, file: Seq<char>) -> Option<int>
    decreases projects.len(),
{
    if projects.len() == 0 {
        None
    } else if projects[0].file == file {
        Some(0)
    } else {
        match find_project(projects.drop_first(), file) {
            Some(i) => Some(i + 1),
            None => None,
        }
    }
}

/// `find_project` returns the first index keyed by `file`, and `None`
/// exactly when no entry is.
pub proof fn lemma_find_project_props(projects: Seq<ProjectView>, file: Seq<char>)
    ensures
        match find_project(projects, file) {
            Some(i) => 0 <= i < projects.len() && projects[i].file == file && (forall|j: int|
                0 <= j < i ==> projects[j].file != file),
            None => forall|i: int| 0 <= i < projects.len() ==> projects[i].file != file,
        },
    decreases projects.len(),
{
    if projects.len() > 0 {
        let rest = projects.drop_first();
        lemma_find_project_props(rest, file);
        if projects[0].file != file {
            assert(forall|i: int| 0 <= i < rest.len() ==> #[trigger] rest[i] == projects[i + 1]);
            match find_project(rest, file) {
                Some(i) => {
                    assert(projects[i + 1].file == file);
                    assert forall|j: int| 0 <= j < i + 1 implies projects[j].file != file by {
                        if j > 0 {
                            assert(rest[j - 1] == projects[j]);
                        }
                    }
                },
                None => {
                    assert forall|i: int| 0 <= i < projects.len() implies projects[i].file
                        != file by {
                        if i > 0 {
                            assert(rest[i - 1] == projects[i]);
                        }
                    }
                },
            }
        }
    }
}

/// A path may key a project entry when it is absolute and names a file.
pub open spec fn valid_project_file(file: Seq<char>) -> bool {
    crate::paths::is_absolute_spec(file) && crate::paths::base_name_spec(file).len() > 0
}

// ---------------------------------------------------------------------------
// The sync engine, at the specification level
// ---------------------------------------------------------------------------

/// The mirror a local setup gets on first sync: same name, no overrides.
pub open spec fn mirror_of(s: SetupView) -> GlobalSetupView {
    GlobalSetupView { name: s.name, private_env_dir: None }
}

/// One upsert step: add a mirror of this name unless one is present; an
/// existing mirror is never touched.
pub open spec fn upsert_setup(gs: Seq<GlobalSetupView>, name: Seq<char>) -> Seq<GlobalSetupView> {
    if has_global_setup(gs, name) {
        gs
    } else {
        gs.push(GlobalSetupView { name, private_env_dir: None })
    }
}

/// Every local setup mirrored into the global ones, in local order.
pub open spec fn sync_setups(gs: Seq<GlobalSetupView>, ls: Seq<SetupView>) -> Seq<GlobalSetupView>
    decreases ls.len(),
{
    if ls.len() == 0 {
        gs
    } else {
        sync_setups(upsert_setup(gs, ls[0].name), ls.drop_first())
    }
}

/// What syncing a local store keyed by `file` does to the project
/// entries: the matching entry gets the missing setup mirrors, or a fresh
/// entry is registered; nothing else moves.
pub open spec fn sync_spec(
    projects: Seq<ProjectView>,
    file: Seq<char>,
    ls: Seq<SetupView>,
) -> Seq<ProjectView> {
    match find_project(projects, file) {
        Some(i) => projects.update(
            i,
            ProjectView {
                file: projects[i].file,
                current: projects[i].current,
                setups: sync_setups(projects[i].setups, ls),
            },
        ),
        None => projects.push(
            ProjectView { file, current: None, setups: sync_setups(Seq::empty(), ls) },
        ),
    }
}

// ---------------------------------------------------------------------------
// One mirrored setup
// ---------------------------------------------------------------------------

/// The per-machine mirror of one local setup: its name and the overrides
/// that stay out of the project — provider data is local-only.
#[derive(Debug)]
pub struct GlobalProjectSetupCfg {
    name: String,
    private_env_dir: Option<String>,
}

impl View for GlobalProjectSetupCfg {
    type V = GlobalSetupView;

    closed spec fn view(&self) -> GlobalSetupView {
        GlobalSetupView {
            name: self.name@,
            private_env_dir: match self.private_env_dir {
                Some(d) => Some(d@),
                None => None,
            },
        }
    }
}

impl GlobalProjectSetupCfg {
    /// A mirror with empty overrides.
    pub fn new(name: String) -> (r: GlobalProjectSetupCfg)
        ensures
            r@.name == name@,
            r@.private_env_dir is None,
    {
        GlobalProjectSetupCfg { name, private_env_dir: None }
    }

    /// The mirrored setup's name.
    pub fn name(&self) -> (r: String)
        ensures
            r@ == self@.name,
    {
        self.name.clone()
    }

    /// The machine-only env directory, if one is set.
    pub fn private_env_dir(&self) -> (r: Option<&String>)
        ensures
            match r {
                Some(d) => self@.private_env_dir == Some(d@),
                None => self@.private_env_dir is None,
            },
    {
        self.private_env_dir.as_ref()
    }

    /// Set or clear the machine-only env directory.
    pub fn set_private_env_dir(&mut self, dir: Option<String>)
        ensures
            final(self)@.name == old(self)@.name,
            final(self)@.private_env_dir == match dir {
                Some(d) => Some(d@),
                None => None::<Seq<char>>,
            },
    {
        self.private_env_dir = dir;
    }
}

// ---------------------------------------------------------------------------
// One project entry
// ---------------------------------------------------------------------------

/// One project entry of the global store.
#[derive(Debug)]
pub struct GlobalProjectCfg {
    file: String,
    current: Option<(String, String)>,
    setups: Vec<GlobalProjectSetupCfg>,
}

impl View for GlobalProjectCfg {
    type V = ProjectView;

    closed spec fn view(&self) -> ProjectView {
        ProjectView {
            file: self.file@,
            current: match self.current {
                Some(c) => Some((c.0@, c.1@)),
                None => None,
            },
            setups: Seq::new(self.setups@.len(), |i: int| self.setups@[i]@),
        }
    }
}

impl GlobalProjectCfg {
    /// An entry keyed by the local store's backing file; the key must be
    /// an absolute path with a file name.
    pub fn new(file: &String) -> (r: Result<GlobalProjectCfg, Error>)
        ensures
            if valid_project_file(file@) {
                r matches Ok(p) && p@ == (ProjectView {
                    file: file@,
                    current: None,
                    setups: Seq::empty(),
                })
            } else {
                r matches Err(e) && e matches Error::InvalidPath { path } && path@ == file@
            },
    {
        if !crate::paths::is_absolute(file.as_str()) {
            return Err(Error::InvalidPath { path: file.clone() });
        }
        let base = crate::paths::base_name(file.as_str());
        if base.as_str().unicode_len() == 0 {
            return Err(Error::InvalidPath { path: file.clone() });
        }
        let r = GlobalProjectCfg { file: file.clone(), current: None, setups: Vec::new() };
        proof {
            assert(r@.setups =~= Seq::<GlobalSetupView>::empty());
        }
        Ok(r)
    }

    /// The key: the local store's backing file.
    pub fn file(&self) -> (r: &String)
        ensures
            r@ == self@.file,
    {
        &self.file
    }

    /// Re-key the entry, with the same validity demands as `new`.
    pub fn set_file(&mut self, file: &String) -> (r: Result<(), Error>)
        ensures
            final(self)@.current == old(self)@.current,
            final(self)@.setups == old(self)@.setups,
            if valid_project_file(file@) {
                r is Ok && final(self)@.file == file@
            } else {
                r matches Err(e) && e matches Error::InvalidPath { path } && path@ == file@
                    && final(self)@.file == old(self)@.file
            },
    {
        if !crate::paths::is_absolute(file.as_str()) {
            return Err(Error::InvalidPath { path: file.clone() });
        }
        let base = crate::paths::base_name(file.as_str());
        if base.as_str().unicode_len() == 0 {
            return Err(Error::InvalidPath { path: file.clone() });
        }
        self.file = file.clone();
        Ok(())
    }

    /// Mirror one setup in: a no-op when a mirror of the same name is
    /// already present — existing mirrors are never overwritten.
    pub fn add_setup(&mut self, setup: GlobalProjectSetupCfg)
        ensures
            final(self)@.file == old(self)@.file,
            final(self)@.current == old(self)@.current,
            final(self)@.setups == if has_global_setup(old(self)@.setups, setup@.name) {
                old(self)@.setups
            } else {
                old(self)@.setups.push(setup@)
            },
    {
        match self.get_setup(setup.name.as_str()) {
            Some(_) => {
                proof {
                    assert(self@.setups =~= old(self)@.setups);
                }
            },
            None => {
                self.setups.push(setup);
                proof {
                    assert(self@.setups =~= old(self)@.setups.push(setup@));
                }
            },
        }
    }

    /// Index of the first mirrored setup bearing this name, if any.
    pub fn get_setup(&self, name: &str) -> (r: Option<usize>)
        ensures
            match r {
                Some(u) => u < self@.setups.len() && self@.setups[u as int].name == name@,
                None => !has_global_setup(self@.setups, name@),
            },
    {
        let ghost ss = self@.setups;
        let key = String::from_str(name);
        let n = self.setups.len();
        let mut i: usize = 0;
        while i < n
            invariant
                0 <= i <= n,
                n == self.setups@.len(),
                ss == self@.setups,
                key@ == name@,
                forall|j: int| 0 <= j < i ==> ss[j].name != name@,
            decreases n - i,
        {
            proof {
                assert(self.setups@[i as int]@ == ss[i as int]);
            }
            if self.setups[i].name == key {
                return Some(i);
            }
            i = i + 1;
        }
        None
    }

    /// The mirrored setup at a known index.
    pub fn setup_at(&self, i: usize) -> (r: &GlobalProjectSetupCfg)
        requires
            i < self@.setups.len(),
        ensures
            r@ == self@.setups[i as int],
    {
        proof {
            assert(self.setups@[i as int]@ == self@.setups[i as int]);
        }
        &self.setups[i]
    }

    /// How many setups are mirrored.
    pub fn setups_len(&self) -> (r: usize)
        ensures
            r == self@.setups.len(),
    {
        self.setups.len()
    }

    /// Set or clear the machine-only env directory of the setup at `i`.
    pub fn set_setup_private_env_dir(&mut self, i: usize, dir: Option<String>)
        requires
            i < old(self)@.setups.len(),
        ensures
            final(self)@.file == old(self)@.file,
            final(self)@.current == old(self)@.current,
            final(self)@.setups == old(self)@.setups.update(
                i as int,
                GlobalSetupView {
                    name: old(self)@.setups[i as int].name,
                    private_env_dir: match dir {
                        Some(d) => Some(d@),
                        None => None::<Seq<char>>,
                    },
                },
            ),
    {
        proof {
            assert(self.setups@[i as int]@ == self@.setups[i as int]);
        }
        self.setups[i].set_private_env_dir(dir);
        proof {
            assert(self@.setups =~= old(self)@.setups.update(
                i as int,
                GlobalSetupView {
                    name: old(self)@.setups[i as int].name,
                    private_env_dir: match dir {
                        Some(d) => Some(d@),
                        None => None::<Seq<char>>,
                    },
                },
            ));
        }
    }

    /// The persisted current `(setup, env)` selection.
    pub fn current(&self) -> (r: Option<&(String, String)>)
        ensures
            match r {
                Some(c) => self@.current == Some((c.0@, c.1@)),
                None => self@.current is None,
            },
    {
        self.current.as_ref()
    }

    /// Persist the current `(setup, env)` selection.
    pub fn set_current(&mut self, setup: String, env: String)
        ensures
            final(self)@.file == old(self)@.file,
            final(self)@.setups == old(self)@.setups,
            final(self)@.current == Some((setup@, env@)),
    {
        self.current = Some((setup, env));
    }

    /// Mirror in, one by one and in local order, every setup of `local`
    /// that has no mirror yet.
    fn sync_setups_from(&mut self, local: &LocalCfg)
        ensures
            final(self)@.file == old(self)@.file,
            final(self)@.current == old(self)@.current,
            final(self)@.setups == sync_setups(old(self)@.setups, local@.setups),
    {
        let ghost ls = local@.setups;
        let ghost gs0 = self@.setups;
        let n = local.setups_len();
        proof {
            assert(ls.skip(0) =~= ls);
        }
        let mut i: usize = 0;
        while i < n
            invariant
                0 <= i <= n,
                n == ls.len(),
                ls == local@.setups,
                self@.file == old(self)@.file,
                self@.current == old(self)@.current,
                sync_setups(self@.setups, ls.skip(i as int)) == sync_setups(gs0, ls),
                gs0 == old(self)@.setups,
            decreases n - i,
        {
            proof {
                assert(ls.skip(i as int)[0] == ls[i as int]);
                assert(ls.skip(i as int).drop_first() =~= ls.skip(i as int + 1));
            }
            let name = local.setup_at(i).name();
            let mirror = GlobalProjectSetupCfg::new(name);
            self.add_setup(mirror);
            i = i + 1;
        }
        proof {
            assert(ls.skip(n as int) =~= Seq::<SetupView>::empty());
        }
    }

    /// Resolve the current selection: an explicit, per-invocation override
    /// beats the persisted pointer; absence of both is an error.
    pub fn current_selection(&self, temporary: &Option<(String, String)>) -> (r: Result<
        (String, String),
        Error,
    >)
        ensures
            match temporary {
                Some(t) => r matches Ok(c) && c.0@ == t.0@ && c.1@ == t.1@,
                None => match self@.current {
                    Some(p) => r matches Ok(c) && (c.0@, c.1@) == p,
                    None => r matches Err(e) && e is NoCurrentSelection,
                },
            },
    {
        match temporary {
            Some(t) => Ok((t.0.clone(), t.1.clone())),
            None => match &self.current {
                Some(c) => Ok((c.0.clone(), c.1.clone())),
                None => Err(Error::NoCurrentSelection),
            },
        }
    }
}

// ---------------------------------------------------------------------------
// The store
// ---------------------------------------------------------------------------

/// What registering a project entry does: nothing when one of the same key
/// is already present, else an append.
pub open spec fn add_project_spec(projects: Seq<ProjectView>, p: ProjectView) -> Seq<ProjectView> {
    if find_project(projects, p.file) is Some {
        projects
    } else {
        projects.push(p)
    }
}

/// The global store: project entries, at most one per key path.
#[derive(Debug)]
pub struct GlobalCfg {
    projects: Vec<GlobalProjectCfg>,
}

impl View for GlobalCfg {
    type V = Seq<ProjectView>;

    closed spec fn view(&self) -> Seq<ProjectView> {
        Seq::new(self.projects@.len(), |i: int| self.projects@[i]@)
    }
}

impl GlobalCfg {
    /// An empty store.
    pub fn new() -> (r: GlobalCfg)
        ensures
            r@ == Seq::<ProjectView>::empty(),
    {
        let r = GlobalCfg { projects: Vec::new() };
        proof {
            assert(r@ =~= Seq::<ProjectView>::empty());
        }
        r
    }

    /// Register a project entry; a no-op when one of the same key path is
    /// already present — registration never duplicates.
    pub fn add_project(&mut self, project: GlobalProjectCfg)
        ensures
            final(self)@ == add_project_spec(old(self)@, project@),
    {
        match self.get_project_by_file(project.file()) {
            Some(_) => {
                proof {
                    assert(self@ =~= old(self)@);
                }
            },
            None => {
                self.projects.push(project);
                proof {
                    assert(self@ =~= old(self)@.push(project@));
                }
            },
        }
    }

    /// Index of the entry keyed exactly by `file`, if any.
    pub fn get_project_by_file(&self, file: &String) -> (r: Option<usize>)
        ensures
            match find_project(self@, file@) {
                Some(i) => r matches Some(u) && u as int == i,
                None => r is None,
            },
    {
        let ghost g = self@;
        proof {
            lemma_find_project_props(g, file@);
        }
        let n = self.projects.len();
        let mut i: usize = 0;
        while i < n
            invariant
                0 <= i <= n,
                n == self.projects@.len(),
                g == self@,
                forall|j: int| 0 <= j < i ==> g[j].file != file@,
            decreases n - i,
        {
            proof {
                assert(self.projects@[i as int]@ == g[i as int]);
            }
            if self.projects[i].file == *file {
                proof {
                    lemma_find_project_props(g, file@);
                    assert(g[i as int].file == file@);
                    match find_project(g, file@) {
                        Some(i0) => {
                            if i0 < i as int {
                                assert(g[i0].file != file@);
                            }
                        },
                        None => {
                            assert(false);
                        },
                    }
                }
                return Some(i);
            }
            i = i + 1;
        }
        None
    }

    /// The project entry at a known index.
    pub fn project_at(&self, i: usize) -> (r: &GlobalProjectCfg)
        requires
            i < self@.len(),
        ensures
            r@ == self@[i as int],
    {
        proof {
            assert(self.projects@[i as int]@ == self@[i as int]);
        }
        &self.projects[i]
    }

    /// How many project entries the store holds.
    pub fn projects_len(&self) -> (r: usize)
        ensures
            r == self@.len(),
    {
        self.projects.len()
    }

    /// Re-key the entry at `i`, with the validity demands of
    /// `GlobalProjectCfg::new`; a key another entry already holds is
    /// refused, so at most one entry per path survives every re-key.
    /// Lookups and removals use the current key: after a re-key, the old
    /// path no longer matches.
    pub fn set_project_file(&mut self, i: usize, file: &String) -> (r: Result<(), Error>)
        requires
            i < old(self)@.len(),
        ensures
            if !valid_project_file(file@) {
                (r matches Err(e) && e matches Error::InvalidPath { path } && path@ == file@)
                    && final(self)@ == old(self)@
            } else if match find_project(old(self)@, file@) {
                Some(j) => j != i as int,
                None => false,
            } {
                (r matches Err(e) && e matches Error::AlreadyExists { name } && name@ == file@)
                    && final(self)@ == old(self)@
            } else {
                r is Ok && final(self)@ == old(self)@.update(
                    i as int,
                    ProjectView {
                        file: file@,
                        current: old(self)@[i as int].current,
                        setups: old(self)@[i as int].setups,
                    },
                )
            },
    {
        if !crate::paths::is_absolute(file.as_str()) {
            return Err(Error::InvalidPath { path: file.clone() });
        }
        let base = crate::paths::base_name(file.as_str());
        if base.as_str().unicode_len() == 0 {
            return Err(Error::InvalidPath { path: file.clone() });
        }
        match self.get_project_by_file(file) {
            Some(j) if j != i => {
                return Err(Error::AlreadyExists { name: file.clone() });
            },
            _ => {},
        }
        proof {
            assert(self.projects@[i as int]@ == self@[i as int]);
        }
        let r = self.projects[i].set_file(file);
        proof {
            assert(self@ =~= old(self)@.update(
                i as int,
                ProjectView {
                    file: file@,
                    current: old(self)@[i as int].current,
                    setups: old(self)@[i as int].setups,
                },
            ));
        }
        r
    }

    /// Set or clear the machine-only env directory of setup `j` of the
    /// project entry at `pi`.
    pub fn set_project_setup_private_env_dir(&mut self, pi: usize, j: usize, dir: Option<String>)
        requires
            pi < old(self)@.len(),
            j < old(self)@[pi as int].setups.len(),
        ensures
            final(self)@ == old(self)@.update(
                pi as int,
                ProjectView {
                    file: old(self)@[pi as int].file,
                    current: old(self)@[pi as int].current,
                    setups: old(self)@[pi as int].setups.update(
                        j as int,
                        GlobalSetupView {
                            name: old(self)@[pi as int].setups[j as int].name,
                            private_env_dir: match dir {
                                Some(d) => Some(d@),
                                None => None::<Seq<char>>,
                            },
                        },
                    ),
                },
            ),
    {
        proof {
            assert(self.projects@[pi as int]@ == self@[pi as int]);
        }
        self.projects[pi].set_setup_private_env_dir(j, dir);
        proof {
            assert(self@ =~= old(self)@.update(
                pi as int,
                ProjectView {
                    file: old(self)@[pi as int].file,
                    current: old(self)@[pi as int].current,
                    setups: old(self)@[pi as int].setups.update(
                        j as int,
                        GlobalSetupView {
                            name: old(self)@[pi as int].setups[j as int].name,
                            private_env_dir: match dir {
                                Some(d) => Some(d@),
                                None => None::<Seq<char>>,
                            },
                        },
                    ),
                },
            ));
        }
    }

    /// Persist the current `(setup, env)` selection of the project entry
    /// at `pi`.
    pub fn set_project_current(&mut self, pi: usize, setup: String, env: String)
        requires
            pi < old(self)@.len(),
        ensures
            final(self)@ == old(self)@.update(
                pi as int,
                ProjectView {
                    file: old(self)@[pi as int].file,
                    current: Some((setup@, env@)),
                    setups: old(self)@[pi as int].setups,
                },
            ),
    {
        proof {
            assert(self.projects@[pi as int]@ == self@[pi as int]);
        }
        self.projects[pi].set_current(setup, env);
        proof {
            assert(self@ =~= old(self)@.update(
                pi as int,
                ProjectView {
                    file: old(self)@[pi as int].file,
                    current: Some((setup@, env@)),
                    setups: old(self)@[pi as int].setups,
                },
            ));
        }
    }

    /// Remove the entry keyed exactly by `file`; a no-op when absent.
    pub fn remove_project_by_file(&mut self, file: &String)
        ensures
            match find_project(old(self)@, file@) {
                Some(i) => final(self)@ == old(self)@.remove(i),
                None => final(self)@ == old(self)@,
            },
    {
        proof {
            lemma_find_project_props(self@, file@);
        }
        match self.get_project_by_file(file) {
            Some(i) => {
                self.projects.remove(i);
                proof {
                    assert(self@ =~= old(self)@.remove(i as int));
                }
            },
            None => {
                proof {
                    assert(self@ =~= old(self)@);
                }
            },
        }
    }

    /// Reconcile the store against a local one: demand a persisted and
    /// valid key path, register the project entry when missing, and mirror
    /// in every local setup that has no mirror yet. Existing entries and
    /// mirrors are never overwritten or removed. Returns the index of the
    /// project entry.
    pub fn sync_local_project(&mut self, local: &LocalCfg) -> (r: Result<usize, Error>)
        ensures
            match local@.file {
                None => final(self)@ == old(self)@ && (r matches Err(e) && e is MissingPath),
                Some(f) => {
                    if find_project(old(self)@, f) is Some || valid_project_file(f) {
                        &&& final(self)@ == sync_spec(old(self)@, f, local@.setups)
                        &&& r matches Ok(i) && find_project(final(self)@, f) == Some(i as int)
                    } else {
                        &&& final(self)@ == old(self)@
                        &&& r matches Err(e) && e matches Error::InvalidPath { path } && path@
                            == f
                    }
                },
            },
    {
        let ghost g0 = self@;
        let file = match local.file() {
            Ok(f) => f.clone(),
            Err(e) => {
                return Err(e);
            },
        };
        let ghost f = file@;
        match self.get_project_by_file(&file) {
            Some(i) => {
                proof {
                    lemma_find_project_props(g0, f);
                    assert(self.projects@[i as int]@ == g0[i as int]);
                }
                let mut proj = self.projects.remove(i);
                proj.sync_setups_from(local);
                self.projects.insert(i, proj);
                proof {
                    assert(self@ =~= g0.update(
                        i as int,
                        ProjectView {
                            file: g0[i as int].file,
                            current: g0[i as int].current,
                            setups: sync_setups(g0[i as int].setups, local@.setups),
                        },
                    ));
                    lemma_find_project_update_same_file(g0, i as int, self@[i as int], f);
                }
                Ok(i)
            },
            None => {
                let mut proj = match GlobalProjectCfg::new(&file) {
                    Ok(p) => p,
                    Err(e) => {
                        return Err(e);
                    },
                };
                proj.sync_setups_from(local);
                let i = self.projects.len();
                self.projects.push(proj);
                proof {
                    assert(self@ =~= g0.push(
                        ProjectView {
                            file: f,
                            current: None,
                            setups: sync_setups(Seq::empty(), local@.setups),
                        },
                    ));
                    lemma_find_project_push(g0, self@[i as int], f);
                }
                Ok(i)
            },
        }
    }
}

// ---------------------------------------------------------------------------
// Laws of the sync engine
// ---------------------------------------------------------------------------

/// Finding a key is unmoved by an update that keeps every entry's key.
proof fn lemma_find_project_update_same_file(
    projects: Seq<ProjectView>,
    i: int,
    p: ProjectView,
    file: Seq<char>,
)
    requires
        0 <= i < projects.len(),
        p.file == projects[i].file,
    ensures
        find_project(projects.update(i, p), file) == find_project(projects, file),
    decreases projects.len(),
{
    let g2 = projects.update(i, p);
    if i == 0 {
        assert(g2[0] == p);
        if projects[0].file != file {
            assert(g2.drop_first() =~= projects.drop_first());
        }
    } else {
        assert(g2[0] == projects[0]);
        if projects[0].file != file {
            assert(g2.drop_first() =~= projects.drop_first().update(i - 1, p));
            assert(projects.drop_first()[i - 1] == projects[i]);
            lemma_find_project_update_same_file(projects.drop_first(), i - 1, p, file);
        }
    }
}

/// Where a key is appended: an earlier match still wins; else the new
/// entry is found exactly when it bears the key.
proof fn lemma_find_project_push(projects: Seq<ProjectView>, p: ProjectView, file: Seq<char>)
    ensures
        find_project(projects.push(p), file) == match find_project(projects, file) {
            Some(i) => Some(i),
            None => if p.file == file {
                Some(projects.len() as int)
            } else {
                None
            },
        },
{
    let g2 = projects.push(p);
    lemma_find_project_props(projects, file);
    lemma_find_project_props(g2, file);
    assert(forall|j: int| 0 <= j < projects.len() ==> #[trigger] g2[j] == projects[j]);
    assert(g2[projects.len() as int] == p);
    match find_project(projects, file) {
        Some(i) => {
            match find_project(g2, file) {
                Some(i2) => {
                    if i2 < i {
                        assert(projects[i2].file == file);
                        assert(false);
                    }
                    if i2 > i {
                        assert(g2[i].file == file);
                        assert(false);
                    }
                },
                None => {
                    assert(g2[i].file == file);
                    assert(false);
                },
            }
        },
        None => {
            match find_project(g2, file) {
                Some(i2) => {
                    if i2 < projects.len() {
                        assert(projects[i2].file == file);
                        assert(false);
                    }
                    assert(p.file == file);
                },
                None => {
                    assert(g2[projects.len() as int].file != file);
                    assert(p.file != file);
                },
            }
        },
    }
}

/// Membership under one append.
proof fn lemma_has_global_setup_push(gs: Seq<GlobalSetupView>, s: GlobalSetupView, m: Seq<char>)
    ensures
        has_global_setup(gs.push(s), m) == (has_global_setup(gs, m) || s.name == m),
{
    let g2 = gs.push(s);
    if has_global_setup(gs, m) {
        let i = choose|i: int| 0 <= i < gs.len() && gs[i].name == m;
        assert(g2[i].name == m);
    }
    if s.name == m {
        assert(g2[gs.len() as int].name == m);
    }
    if has_global_setup(g2, m) && !(s.name == m) {
        let i = choose|i: int| 0 <= i < g2.len() && g2[i].name == m;
        assert(i < gs.len() && gs[i].name == m);
    }
}

/// A name is mirrored after a sync exactly when it was mirrored before or
/// a local setup bears it.
proof fn lemma_sync_setups_membership(gs: Seq<GlobalSetupView>, ls: Seq<SetupView>, m: Seq<char>)
    ensures
        has_global_setup(sync_setups(gs, ls), m) == (has_global_setup(gs, m) || exists|i: int|
            0 <= i < ls.len() && ls[i].name == m),
    decreases ls.len(),
{
    if ls.len() == 0 {
    } else {
        let g1 = upsert_setup(gs, ls[0].name);
        lemma_sync_setups_membership(g1, ls.drop_first(), m);
        if !has_global_setup(gs, ls[0].name) {
            lemma_has_global_setup_push(gs, GlobalSetupView { name: ls[0].name, private_env_dir: None }, m);
        }
        assert(forall|i: int| 0 <= i < ls.drop_first().len() ==> #[trigger] ls.drop_first()[i]
            == ls[i + 1]);
        if exists|i: int| 0 <= i < ls.len() && ls[i].name == m {
            let i = choose|i: int| 0 <= i < ls.len() && ls[i].name == m;
            if i > 0 {
                assert(ls.drop_first()[i - 1].name == m);
            }
        }
    }
}

/// Syncing adds nothing when every local setup already has its mirror.
proof fn lemma_sync_setups_noop(gs: Seq<GlobalSetupView>, ls: Seq<SetupView>)
    requires
        forall|i: int| 0 <= i < ls.len() ==> has_global_setup(gs, #[trigger] ls[i].name),
    ensures
        sync_setups(gs, ls) == gs,
    decreases ls.len(),
{
    if ls.len() > 0 {
        assert(has_global_setup(gs, ls[0].name));
        assert(forall|i: int| 0 <= i < ls.drop_first().len() ==> #[trigger] ls.drop_first()[i]
            == ls[i + 1]);
        lemma_sync_setups_noop(gs, ls.drop_first());
    }
}

/// Syncing one setup more mirrors it at the end, after everything else.
proof fn lemma_sync_setups_snoc(gs: Seq<GlobalSetupView>, ls: Seq<SetupView>, s: SetupView)
    ensures
        sync_setups(gs, ls.push(s)) == upsert_setup(sync_setups(gs, ls), s.name),
    decreases ls.len(),
{
    if ls.len() == 0 {
        assert(ls.push(s)[0] == s);
        assert(ls.push(s).drop_first() =~= Seq::<SetupView>::empty());
        assert(sync_setups(gs, ls.push(s)) == sync_setups(
            upsert_setup(gs, s.name),
            Seq::<SetupView>::empty(),
        ));
        assert(sync_setups(gs, ls) == gs);
    } else {
        assert(ls.push(s)[0] == ls[0]);
        assert(ls.push(s).drop_first() =~= ls.drop_first().push(s));
        lemma_sync_setups_snoc(upsert_setup(gs, ls[0].name), ls.drop_first(), s);
        assert(sync_setups(gs, ls.push(s)) == sync_setups(
            upsert_setup(gs, ls[0].name),
            ls.drop_first().push(s),
        ));
        assert(sync_setups(gs, ls) == sync_setups(upsert_setup(gs, ls[0].name), ls.drop_first()));
    }
}

/// Sync is idempotent: syncing an unchanged local store a second time
/// moves nothing — no duplicate project entry, no duplicate mirror.
pub proof fn lemma_sync_idempotent(projects: Seq<ProjectView>, file: Seq<char>, ls: Seq<SetupView>)
    ensures
        sync_spec(sync_spec(projects, file, ls), file, ls) == sync_spec(projects, file, ls),
{
    let g1 = sync_spec(projects, file, ls);
    lemma_find_project_props(projects, file);
    match find_project(projects, file) {
        Some(i) => {
            let p1 = ProjectView {
                file: projects[i].file,
                current: projects[i].current,
                setups: sync_setups(projects[i].setups, ls),
            };
            lemma_find_project_update_same_file(projects, i, p1, file);
            assert(g1[i] == p1);
            assert forall|j: int| 0 <= j < ls.len() implies has_global_setup(
                p1.setups,
                #[trigger] ls[j].name,
            ) by {
                lemma_sync_setups_membership(projects[i].setups, ls, ls[j].name);
            }
            lemma_sync_setups_noop(p1.setups, ls);
            assert(sync_spec(g1, file, ls) =~= g1.update(i, g1[i]));
            assert(g1.update(i, g1[i]) =~= g1);
        },
        None => {
            let p1 = ProjectView { file, current: None, setups: sync_setups(Seq::empty(), ls) };
            lemma_find_project_push(projects, p1, file);
            assert(g1 == projects.push(p1));
            assert(g1[projects.len() as int] == p1);
            assert forall|j: int| 0 <= j < ls.len() implies has_global_setup(
                p1.setups,
                #[trigger] ls[j].name,
            ) by {
                lemma_sync_setups_membership(Seq::empty(), ls, ls[j].name);
            }
            lemma_sync_setups_noop(p1.setups, ls);
            assert(sync_spec(g1, file, ls) =~= g1.update(projects.len() as int, p1));
            assert(g1.update(projects.len() as int, p1) =~= g1);
        },
    }
}

/// Sync upserts: a newly added local setup name gains exactly one mirror,
/// appended with empty overrides, and no pre-existing mirror or its
/// override fields move.
pub proof fn lemma_sync_upsert(
    projects: Seq<ProjectView>,
    file: Seq<char>,
    ls: Seq<SetupView>,
    s: SetupView,
)
    requires
        forall|i: int| 0 <= i < ls.len() ==> (#[trigger] ls[i].name) != s.name,
        match find_project(projects, file) {
            Some(i) => !has_global_setup(projects[i].setups, s.name),
            None => true,
        },
    ensures
        match find_project(projects, file) {
            Some(i) => sync_spec(projects, file, ls.push(s)) == sync_spec(
                projects,
                file,
                ls,
            ).update(
                i,
                ProjectView {
                    file: projects[i].file,
                    current: projects[i].current,
                    setups: sync_setups(projects[i].setups, ls).push(mirror_of(s)),
                },
            ),
            None => sync_spec(projects, file, ls.push(s)) == projects.push(
                ProjectView {
                    file,
                    current: None,
                    setups: sync_setups(Seq::empty(), ls).push(mirror_of(s)),
                },
            ),
        },
{
    lemma_find_project_props(projects, file);
    match find_project(projects, file) {
        Some(i) => {
            lemma_sync_setups_snoc(projects[i].setups, ls, s);
            lemma_sync_setups_membership(projects[i].setups, ls, s.name);
            assert(upsert_setup(sync_setups(projects[i].setups, ls), s.name) == sync_setups(
                projects[i].setups,
                ls,
            ).push(mirror_of(s)));
            let p1 = ProjectView {
                file: projects[i].file,
                current: projects[i].current,
                setups: sync_setups(projects[i].setups, ls),
            };
            lemma_find_project_update_same_file(projects, i, p1, file);
            assert(sync_spec(projects, file, ls.push(s)) =~= sync_spec(
                projects,
                file,
                ls,
            ).update(
                i,
                ProjectView {
                    file: projects[i].file,
                    current: projects[i].current,
                    setups: sync_setups(projects[i].setups, ls).push(mirror_of(s)),
                },
            ));
        },
        None => {
            lemma_sync_setups_snoc(Seq::empty(), ls, s);
            lemma_sync_setups_membership(Seq::empty(), ls, s.name);
        },
    }
}

/// The store's key invariant: at most one project entry per path.
pub open spec fn unique_project_files(projects: Seq<ProjectView>) -> bool {
    forall|i: int, j: int|
        0 <= i < j < projects.len() ==> (#[trigger] projects[i].file) != (#[trigger] projects[j].file)
}

/// Registration preserves the key invariant: it appends only a key that no
/// entry holds.
pub proof fn lemma_add_project_preserves_unique(projects: Seq<ProjectView>, p: ProjectView)
    requires
        unique_project_files(projects),
    ensures
        unique_project_files(add_project_spec(projects, p)),
{
    lemma_find_project_props(projects, p.file);
    if find_project(projects, p.file) is None {
        let g2 = projects.push(p);
        assert forall|i: int, j: int|
            0 <= i < j < g2.len() implies (#[trigger] g2[i].file) != (#[trigger] g2[j].file) by {
            if j < projects.len() {
                assert(g2[i] == projects[i] && g2[j] == projects[j]);
            } else {
                assert(g2[i] == projects[i] && g2[j] == p);
            }
        }
    }
}

/// Syncing preserves the key invariant: it re-keys nothing and appends
/// only a key that no entry holds.
pub proof fn lemma_sync_preserves_unique(
    projects: Seq<ProjectView>,
    file: Seq<char>,
    ls: Seq<SetupView>,
)
    requires
        unique_project_files(projects),
    ensures
        unique_project_files(sync_spec(projects, file, ls)),
{
    lemma_find_project_props(projects, file);
    let g2 = sync_spec(projects, file, ls);
    match find_project(projects, file) {
        Some(i) => {
            assert forall|a: int, b: int|
                0 <= a < b < g2.len() implies (#[trigger] g2[a].file) != (#[trigger] g2[b].file) by {
                assert(g2[a].file == projects[a].file && g2[b].file == projects[b].file);
            }
        },
        None => {
            assert forall|a: int, b: int|
                0 <= a < b < g2.len() implies (#[trigger] g2[a].file) != (#[trigger] g2[b].file) by {
                if b < projects.len() {
                    assert(g2[a] == projects[a] && g2[b] == projects[b]);
                } else {
                    assert(g2[a] == projects[a] && g2[b].file == file);
                }
            }
        },
    }
}

/// A re-key that `set_project_file` lets through preserves the key
/// invariant: the new key is either the entry's own or nobody's.
pub proof fn lemma_rekey_preserves_unique(projects: Seq<ProjectView>, i: int, p: ProjectView)
    requires
        unique_project_files(projects),
        0 <= i < projects.len(),
        match find_project(projects, p.file) {
            Some(j) => j == i,
            None => true,
        },
    ensures
        unique_project_files(projects.update(i, p)),
{
    lemma_find_project_props(projects, p.file);
    let g2 = projects.update(i, p);
    assert forall|a: int, b: int|
        0 <= a < b < g2.len() implies (#[trigger] g2[a].file) != (#[trigger] g2[b].file) by {
        if a != i && b != i {
            assert(g2[a] == projects[a] && g2[b] == projects[b]);
        } else {
            let other: int = if a == i {
                b
            } else {
                a
            };
            assert(g2[other] == projects[other]);
            if projects[other].file == p.file {
                match find_project(projects, p.file) {
                    Some(j) => {
                        assert(j == i);
                        if other < j {
                            assert(projects[other].file != p.file);
                        } else {
                            assert(projects[j].file == projects[other].file);
                        }
                    },
                    None => {
                        assert(projects[other].file != p.file);
                    },
                }
            }
        }
    }
}

/// Registering the same key path twice stores exactly one entry.
pub proof fn lemma_add_project_idempotent(
    projects: Seq<ProjectView>,
    p1: ProjectView,
    p2: ProjectView,
)
    requires
        p2.file == p1.file,
    ensures
        add_project_spec(add_project_spec(projects, p1), p2) == add_project_spec(projects, p1),
{
    if find_project(projects, p1.file) is Some {
    } else {
        lemma_find_project_push(projects, p1, p2.file);
    }
}

} // verus!
