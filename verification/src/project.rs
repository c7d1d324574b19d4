//! The two stores assembled for one command run.
//!
//! A `Projects` value pairs the project-local store with the per-machine
//! global one, keyed by project name: the global side carries where the
//! project lives on this machine, a private env directory, and which
//! project and env are current. A per-invocation override of the current
//! selection beats the persisted pointer and is never persisted itself.

use vstd::prelude::*;

use crate::errors::Error;

verus! {

// ---------------------------------------------------------------------------
// Views
// ---------------------------------------------------------------------------

/// What an aws provider descriptor holds, at the specification level.
pub struct AwsView {
    pub region: Seq<char>,
    pub template_path: Option<Seq<char>>,
}

/// What one project-local record holds, at the specification level.
pub struct LocalProjectView {
    pub name: Seq<char>,
    pub public_env_directory: Option<Seq<char>>,
    pub provider: AwsView,
}

/// What one per-machine record holds, at the specification level.
pub struct GlobalProjectView {
    pub name: Seq<char>,
    pub path: Option<Seq<char>>,
    pub private_env_directory: Option<Seq<char>>,
}

/// A current selection: a project name and, optionally, an env name.
pub struct CurrentProjectView {
    pub name: Seq<char>,
    pub env: Option<Seq<char>>,
}

/// What the local store holds, at the specification level.
pub struct LocalProjectsView {
    pub current_dir: Seq<char>,
    pub all: Seq<LocalProjectView>,
}

/// What the global store holds, at the specification level.
pub struct GlobalProjectsView {
    pub current: Option<CurrentProjectView>,
    pub all: Seq<GlobalProjectView>,
}

/// What the assembled stores hold, at the specification level.
pub struct ProjectsView {
    pub temp_current: Option<CurrentProjectView>,
    pub local: LocalProjectsView,
    pub global: GlobalProjectsView,
}

/// Index of the first local record bearing this name.
pub open spec fn find_local_project(ls: Seq<LocalProjectView>, name: Seq<char>) -> Option<int>
    decreases ls.len(),
{
    if ls.len() == 0 {
        None
    } else if ls[0].name == name {
        Some(0)
    } else {
        match find_local_project(ls.drop_first(), name) {
            Some(i) => Some(i + 1),
            None => None,
        }
    }
}

/// Index of the first global record bearing this name.
pub open spec fn find_global_project(gs: Seq<GlobalProjectView>, name: Seq<char>) -> Option<int>
    decreases gs.len(),
{
    if gs.len() == 0 {
        None
    } else if gs[0].name == name {
        Some(0)
    } else {
        match find_global_project(gs.drop_first(), name) {
            Some(i) => Some(i + 1),
            None => None,
        }
    }
}

/// `find_local_project` returns the first index bearing the name, and
/// `None` exactly when no record does.
pub proof fn lemma_find_local_project_props(ls: Seq<LocalProjectView>, name: Seq<char>)
    ensures
        match find_local_project(ls, name) {
            Some(i) => 0 <= i < ls.len() && ls[i].name == name && (forall|j: int|
                0 <= j < i ==> ls[j].name != name),
            None => forall|i: int| 0 <= i < ls.len() ==> ls[i].name != name,
        },
    decreases ls.len(),
{
    if ls.len() > 0 {
        let rest = ls.drop_first();
        lemma_find_local_project_props(rest, name);
        if ls[0].name != name {
            assert(forall|i: int| 0 <= i < rest.len() ==> #[trigger] rest[i] == ls[i + 1]);
            match find_local_project(rest, name) {
                Some(i) => {
                    assert(ls[i + 1].name == name);
                    assert forall|j: int| 0 <= j < i + 1 implies ls[j].name != name by {
                        if j > 0 {
                            assert(rest[j - 1] == ls[j]);
                        }
                    }
                },
                None => {
                    assert forall|i: int| 0 <= i < ls.len() implies ls[i].name != name by {
                        if i > 0 {
                            assert(rest[i - 1] == ls[i]);
                        }
                    }
                },
            }
        }
    }
}

/// `find_global_project` returns the first index bearing the name, and
/// `None` exactly when no record does.
pub proof fn lemma_find_global_project_props(gs: Seq<GlobalProjectView>, name: Seq<char>)
    ensures
        match find_global_project(gs, name) {
            Some(i) => 0 <= i < gs.len() && gs[i].name == name && (forall|j: int|
                0 <= j < i ==> gs[j].name != name),
            None => forall|i: int| 0 <= i < gs.len() ==> gs[i].name != name,
        },
    decreases gs.len(),
{
    if gs.len() > 0 {
        let rest = gs.drop_first();
        lemma_find_global_project_props(rest, name);
        if gs[0].name != name {
            assert(forall|i: int| 0 <= i < rest.len() ==> #[trigger] rest[i] == gs[i + 1]);
            match find_global_project(rest, name) {
                Some(i) => {
                    assert(gs[i + 1].name == name);
                    assert forall|j: int| 0 <= j < i + 1 implies gs[j].name != name by {
                        if j > 0 {
                            assert(rest[j - 1] == gs[j]);
                        }
                    }
                },
                None => {
                    assert forall|i: int| 0 <= i < gs.len() implies gs[i].name != name by {
                        if i > 0 {
                            assert(rest[i - 1] == gs[i]);
                        }
                    }
                },
            }
        }
    }
}

// ---------------------------------------------------------------------------
// Provider
// ---------------------------------------------------------------------------

/// An aws provider descriptor: the deployment region and the
/// cloudformation template the project deploys.
#[derive(Debug)]
pub struct AwsCfg {
    region: String,
    template_path: Option<String>,
}

impl View for AwsCfg {
    type V = AwsView;

    closed spec fn view(&self) -> AwsView {
        AwsView {
            region: self.region@,
            template_path: match self.template_path {
                Some(p) => Some(p@),
                None => None,
            },
        }
    }
}

impl Clone for AwsCfg {
    /// An equal descriptor.
    fn clone(&self) -> (r: Self)
        ensures
            r@ == self@,
    {
        AwsCfg {
            region: self.region.clone(),
            template_path: match &self.template_path {
                Some(p) => Some(p.clone()),
                None => None,
            },
        }
    }
}

impl AwsCfg {
    /// A descriptor with no region and no template yet.
    pub fn new() -> (r: AwsCfg)
        ensures
            r@.region == Seq::<char>::empty(),
            r@.template_path is None,
    {
        AwsCfg { region: String::new(), template_path: None }
    }

    /// The deployment region.
    pub fn region(&self) -> (r: &String)
        ensures
            r@ == self@.region,
    {
        &self.region
    }

    /// Record the template file, relative to the project directory.
    pub fn set_template_path(&mut self, path: &str)
        ensures
            final(self)@.region == old(self)@.region,
            final(self)@.template_path == Some(path@),
    {
        self.template_path = Some(String::from_str(path));
    }

    /// The template file; fails with `NotFound` when none is recorded.
    pub fn template_path(&self) -> (r: Result<String, Error>)
        ensures
            match self@.template_path {
                Some(p) => r matches Ok(s) && s@ == p,
                None => r matches Err(e) && e matches Error::NotFound { .. },
            },
    {
        match &self.template_path {
            Some(p) => Ok(p.clone()),
            None => Err(Error::NotFound { name: String::from_str("template_path") }),
        }
    }
}

/// The provider a project deploys through; a closed set with room for
/// more providers.
#[derive(Debug)]
pub enum ProviderCfg {
    ConfAws(AwsCfg),
}

impl View for ProviderCfg {
    type V = AwsView;

    open spec fn view(&self) -> AwsView {
        match self {
            ProviderCfg::ConfAws(aws) => aws@,
        }
    }
}

impl Clone for ProviderCfg {
    /// An equal descriptor.
    fn clone(&self) -> (r: Self)
        ensures
            r@ == self@,
    {
        match self {
            ProviderCfg::ConfAws(aws) => ProviderCfg::ConfAws(aws.clone()),
        }
    }
}

impl ProviderCfg {
    /// The aws descriptor inside, when the provider is aws.
    pub fn aws(&self) -> (r: Result<&AwsCfg, Error>)
        ensures
            r matches Ok(aws) && aws@ == self@,
    {
        match self {
            ProviderCfg::ConfAws(aws) => Ok(aws),
        }
    }
}

// ---------------------------------------------------------------------------
// The local records
// ---------------------------------------------------------------------------

/// One project as committed inside the project directory.
#[derive(Debug)]
pub struct LocalProject {
    name: String,
    public_env_directory: Option<String>,
    provider: ProviderCfg,
}

impl View for LocalProject {
    type V = LocalProjectView;

    closed spec fn view(&self) -> LocalProjectView {
        LocalProjectView {
            name: self.name@,
            public_env_directory: match self.public_env_directory {
                Some(d) => Some(d@),
                None => None,
            },
            provider: self.provider@,
        }
    }
}

impl Clone for LocalProject {
    /// An equal record.
    fn clone(&self) -> (r: Self)
        ensures
            r@ == self@,
    {
        LocalProject {
            name: self.name.clone(),
            public_env_directory: match &self.public_env_directory {
                Some(d) => Some(d.clone()),
                None => None,
            },
            provider: self.provider.clone(),
        }
    }
}

impl LocalProject {
    /// The project's name.
    pub fn name(&self) -> (r: String)
        ensures
            r@ == self@.name,
    {
        self.name.clone()
    }

    /// The shared env directory, relative to the project directory; fails
    /// with `NotFound` naming the project when none is set.
    pub fn public_env_directory(&self) -> (r: Result<String, Error>)
        ensures
            match self@.public_env_directory {
                Some(d) => r matches Ok(s) && s@ == d,
                None => r matches Err(e) && e matches Error::NotFound { name } && name@
                    == self@.name,
            },
    {
        match &self.public_env_directory {
            Some(d) => Ok(d.clone()),
            None => Err(Error::NotFound { name: self.name.clone() }),
        }
    }

    /// The provider descriptor.
    pub fn provider(&self) -> (r: &ProviderCfg)
        ensures
            r@ == self@.provider,
    {
        &self.provider
    }
}

/// The local store: every project committed under one directory.
#[derive(Debug)]
pub struct LocalProjects {
    current_dir: String,
    all: Vec<LocalProject>,
}

impl View for LocalProjects {
    type V = LocalProjectsView;

    closed spec fn view(&self) -> LocalProjectsView {
        LocalProjectsView {
            current_dir: self.current_dir@,
            all: Seq::new(self.all@.len(), |i: int| self.all@[i]@),
        }
    }
}

impl LocalProjects {
    /// An empty store rooted at `current_dir`.
    pub fn new(current_dir: &str) -> (r: LocalProjects)
        ensures
            r@.current_dir == current_dir@,
            r@.all == Seq::<LocalProjectView>::empty(),
    {
        let r = LocalProjects { current_dir: String::from_str(current_dir), all: Vec::new() };
        proof {
            assert(r@.all =~= Seq::<LocalProjectView>::empty());
        }
        r
    }

    /// The directory the store is rooted at.
    pub fn current_dir(&self) -> (r: &String)
        ensures
            r@ == self@.current_dir,
    {
        &self.current_dir
    }

    /// Add a project record; fails with `AlreadyExists` when one of the
    /// same name is present, leaving the store unchanged.
    pub fn add(&mut self, name: &str, public_env_directory: &str, provider: ProviderCfg) -> (r:
        Result<(), Error>)
        ensures
            final(self)@.current_dir == old(self)@.current_dir,
            if find_local_project(old(self)@.all, name@) is Some {
                &&& r matches Err(e) && e matches Error::AlreadyExists { name: n } && n@ == name@
                &&& final(self)@.all == old(self)@.all
            } else {
                &&& r is Ok
                &&& final(self)@.all == old(self)@.all.push(
                    LocalProjectView {
                        name: name@,
                        public_env_directory: Some(public_env_directory@),
                        provider: provider@,
                    },
                )
            },
    {
        match self.get(name) {
            Some(_) => Err(Error::AlreadyExists { name: String::from_str(name) }),
            None => {
                self.all.push(
                    LocalProject {
                        name: String::from_str(name),
                        public_env_directory: Some(String::from_str(public_env_directory)),
                        provider,
                    },
                );
                proof {
                    assert(self@.all =~= old(self)@.all.push(
                        LocalProjectView {
                            name: name@,
                            public_env_directory: Some(public_env_directory@),
                            provider: provider@,
                        },
                    ));
                }
                Ok(())
            },
        }
    }

    /// The first record bearing this name, if any.
    pub fn get(&self, name: &str) -> (r: Option<&LocalProject>)
        ensures
            match find_local_project(self@.all, name@) {
                Some(i) => r matches Some(p) && p@ == self@.all[i],
                None => r is None,
            },
    {
        let ghost ls = self@.all;
        proof {
            lemma_find_local_project_props(ls, name@);
        }
        let key = String::from_str(name);
        let n = self.all.len();
        let mut i: usize = 0;
        while i < n
            invariant
                0 <= i <= n,
                n == self.all@.len(),
                ls == self@.all,
                key@ == name@,
                forall|j: int| 0 <= j < i ==> ls[j].name != name@,
            decreases n - i,
        {
            proof {
                assert(self.all@[i as int]@ == ls[i as int]);
            }
            if self.all[i].name == key {
                proof {
                    lemma_find_local_project_props(ls, name@);
                    match find_local_project(ls, name@) {
                        Some(i0) => {
                            if i0 < i as int {
                                assert(ls[i0].name != name@);
                            }
                        },
                        None => {
                            assert(false);
                        },
                    }
                }
                return Some(&self.all[i]);
            }
            i = i + 1;
        }
        None
    }

    /// Every record, in store order.
    pub fn get_all(&self) -> (r: &Vec<LocalProject>)
        ensures
            r@.len() == self@.all.len(),
            forall|i: int| 0 <= i < r@.len() ==> #[trigger] r@[i]@ == self@.all[i],
    {
        &self.all
    }

    /// A fixture: two aws projects rooted at `/path/to/local`.
    pub fn fake() -> (r: LocalProjects)
        ensures
            r@ == fake_local_projects_view(),
    {
        let mut aws_cfg_1 = AwsCfg::new();
        aws_cfg_1.set_template_path("./project_test.tpl");
        let mut aws_cfg_2 = AwsCfg::new();
        aws_cfg_2.set_template_path("./project_test_bis.tpl");
        let mut all: Vec<LocalProject> = Vec::new();
        all.push(
            LocalProject {
                name: String::from_str("project_test"),
                public_env_directory: None,
                provider: ProviderCfg::ConfAws(aws_cfg_1),
            },
        );
        all.push(
            LocalProject {
                name: String::from_str("project_test_bis"),
                public_env_directory: None,
                provider: ProviderCfg::ConfAws(aws_cfg_2),
            },
        );
        let r = LocalProjects { current_dir: String::from_str("/path/to/local"), all };
        proof {
            assert(r@.all =~= fake_local_projects_view().all);
            assert(r@ == fake_local_projects_view());
        }
        r
    }
}

/// What the local fixture holds: two aws projects, no shared env
/// directories, rooted at `/path/to/local`.
pub open spec fn fake_local_projects_view() -> LocalProjectsView {
    LocalProjectsView {
        current_dir: ("/path/to/local")@,
        all: seq![
            LocalProjectView {
                name: ("project_test")@,
                public_env_directory: None,
                provider: AwsView {
                    region: Seq::empty(),
                    template_path: Some(("./project_test.tpl")@),
                },
            },
            LocalProjectView {
                name: ("project_test_bis")@,
                public_env_directory: None,
                provider: AwsView {
                    region: Seq::empty(),
                    template_path: Some(("./project_test_bis.tpl")@),
                },
            },
        ],
    }
}

// ---------------------------------------------------------------------------
// The current selection
// ---------------------------------------------------------------------------

/// A current selection: a project name and, optionally, an env name.
#[derive(Debug)]
pub struct CurrentProject {
    name: String,
    env: Option<String>,
}

impl View for CurrentProject {
    type V = CurrentProjectView;

    closed spec fn view(&self) -> CurrentProjectView {
        CurrentProjectView {
            name: self.name@,
            env: match self.env {
                Some(e) => Some(e@),
                None => None,
            },
        }
    }
}

impl Clone for CurrentProject {
    /// An equal selection.
    fn clone(&self) -> (r: Self)
        ensures
            r@ == self@,
    {
        CurrentProject {
            name: self.name.clone(),
            env: match &self.env {
                Some(e) => Some(e.clone()),
                None => None,
            },
        }
    }
}

impl CurrentProject {
    /// A selection of a project, with no env chosen yet.
    pub fn new(name: &str) -> (r: CurrentProject)
        ensures
            r@.name == name@,
            r@.env is None,
    {
        CurrentProject { name: String::from_str(name), env: None }
    }

    /// The same selection with this env chosen.
    pub fn set_env(self, env: &str) -> (r: CurrentProject)
        ensures
            r@.name == self@.name,
            r@.env == Some(env@),
    {
        CurrentProject { name: self.name, env: Some(String::from_str(env)) }
    }

    /// The same selection pointed at this project; the chosen env stays.
    pub fn set_name(self, name: &str) -> (r: CurrentProject)
        ensures
            r@.name == name@,
            r@.env == self@.env,
    {
        CurrentProject { name: String::from_str(name), env: self.env }
    }

    /// The selected project's name.
    pub fn name(&self) -> (r: Result<String, Error>)
        ensures
            r matches Ok(s) && s@ == self@.name,
    {
        Ok(self.name.clone())
    }

    /// The selected env; fails with `NoCurrentSelection` when none is
    /// chosen.
    pub fn env(&self) -> (r: Result<String, Error>)
        ensures
            match self@.env {
                Some(e) => r matches Ok(s) && s@ == e,
                None => r matches Err(e) && e is NoCurrentSelection,
            },
    {
        match &self.env {
            Some(e) => Ok(e.clone()),
            None => Err(Error::NoCurrentSelection),
        }
    }
}

// ---------------------------------------------------------------------------
// The global records
// ---------------------------------------------------------------------------

/// One project as this machine knows it: where it lives and the
/// machine-only env directory.
#[derive(Debug)]
pub struct GlobalProject {
    name: String,
    path: Option<String>,
    private_env_directory: Option<String>,
}

impl View for GlobalProject {
    type V = GlobalProjectView;

    closed spec fn view(&self) -> GlobalProjectView {
        GlobalProjectView {
            name: self.name@,
            path: match self.path {
                Some(p) => Some(p@),
                None => None,
            },
            private_env_directory: match self.private_env_directory {
                Some(d) => Some(d@),
                None => None,
            },
        }
    }
}

impl Clone for GlobalProject {
    /// An equal record.
    fn clone(&self) -> (r: Self)
        ensures
            r@ == self@,
    {
        GlobalProject {
            name: self.name.clone(),
            path: match &self.path {
                Some(p) => Some(p.clone()),
                None => None,
            },
            private_env_directory: match &self.private_env_directory {
                Some(d) => Some(d.clone()),
                None => None,
            },
        }
    }
}

impl GlobalProject {
    /// The project's name.
    pub fn name(&self) -> (r: String)
        ensures
            r@ == self@.name,
    {
        self.name.clone()
    }

    /// The project directory on this machine; fails with `NotFound`
    /// naming the project when none is recorded.
    pub fn path(&self) -> (r: Result<String, Error>)
        ensures
            match self@.path {
                Some(p) => r matches Ok(s) && s@ == p,
                None => r matches Err(e) && e matches Error::NotFound { name } && name@
                    == self@.name,
            },
    {
        match &self.path {
            Some(p) => Ok(p.clone()),
            None => Err(Error::NotFound { name: self.name.clone() }),
        }
    }

    /// The machine-only env directory, relative to the project directory;
    /// fails with `NotFound` naming the project when none is set.
    pub fn private_env_directory(&self) -> (r: Result<String, Error>)
        ensures
            match self@.private_env_directory {
                Some(d) => r matches Ok(s) && s@ == d,
                None => r matches Err(e) && e matches Error::NotFound { name } && name@
                    == self@.name,
            },
    {
        match &self.private_env_directory {
            Some(d) => Ok(d.clone()),
            None => Err(Error::NotFound { name: self.name.clone() }),
        }
    }
}

/// One upsert step of the per-machine store: add a record of this name
/// rooted at `dir` unless one is present; an existing record is never
/// touched.
pub open spec fn upsert_global_project(
    gs: Seq<GlobalProjectView>,
    name: Seq<char>,
    dir: Seq<char>,
) -> Seq<GlobalProjectView> {
    if find_global_project(gs, name) is Some {
        gs
    } else {
        gs.push(GlobalProjectView { name, path: Some(dir), private_env_directory: None })
    }
}

/// Every local record mirrored into the per-machine ones, in local order.
pub open spec fn sync_projects(
    gs: Seq<GlobalProjectView>,
    ls: Seq<LocalProjectView>,
    dir: Seq<char>,
) -> Seq<GlobalProjectView>
    decreases ls.len(),
{
    if ls.len() == 0 {
        gs
    } else {
        sync_projects(upsert_global_project(gs, ls[0].name, dir), ls.drop_first(), dir)
    }
}

/// The per-machine store: one record per project name, plus the persisted
/// current selection.
#[derive(Debug)]
pub struct GlobalProjects {
    current_project: Option<CurrentProject>,
    all: Vec<GlobalProject>,
}

impl View for GlobalProjects {
    type V = GlobalProjectsView;

    closed spec fn view(&self) -> GlobalProjectsView {
        GlobalProjectsView {
            current: match self.current_project {
                Some(c) => Some(c@),
                None => None,
            },
            all: Seq::new(self.all@.len(), |i: int| self.all@[i]@),
        }
    }
}

impl GlobalProjects {
    /// An empty store with no current selection.
    pub fn new() -> (r: GlobalProjects)
        ensures
            r@.current is None,
            r@.all == Seq::<GlobalProjectView>::empty(),
    {
        let r = GlobalProjects { current_project: None, all: Vec::new() };
        proof {
            assert(r@.all =~= Seq::<GlobalProjectView>::empty());
        }
        r
    }

    /// Add a record rooted at `dir`; fails with `AlreadyExists` when one
    /// of the same name is present, leaving the store unchanged.
    pub fn add(&mut self, name: &str, dir: &str) -> (r: Result<(), Error>)
        ensures
            final(self)@.current == old(self)@.current,
            if find_global_project(old(self)@.all, name@) is Some {
                &&& r matches Err(e) && e matches Error::AlreadyExists { name: n } && n@ == name@
                &&& final(self)@.all == old(self)@.all
            } else {
                &&& r is Ok
                &&& final(self)@.all == old(self)@.all.push(
                    GlobalProjectView {
                        name: name@,
                        path: Some(dir@),
                        private_env_directory: None,
                    },
                )
            },
    {
        match self.get(name) {
            Some(_) => Err(Error::AlreadyExists { name: String::from_str(name) }),
            None => {
                self.all.push(
                    GlobalProject {
                        name: String::from_str(name),
                        path: Some(String::from_str(dir)),
                        private_env_directory: None,
                    },
                );
                proof {
                    assert(self@.all =~= old(self)@.all.push(
                        GlobalProjectView {
                            name: name@,
                            path: Some(dir@),
                            private_env_directory: None,
                        },
                    ));
                }
                Ok(())
            },
        }
    }

    /// The first record bearing this name, if any.
    pub fn get(&self, name: &str) -> (r: Option<&GlobalProject>)
        ensures
            match find_global_project(self@.all, name@) {
                Some(i) => r matches Some(p) && p@ == self@.all[i],
                None => r is None,
            },
    {
        let ghost gs = self@.all;
        proof {
            lemma_find_global_project_props(gs, name@);
        }
        let key = String::from_str(name);
        let n = self.all.len();
        let mut i: usize = 0;
        while i < n
            invariant
                0 <= i <= n,
                n == self.all@.len(),
                gs == self@.all,
                key@ == name@,
                forall|j: int| 0 <= j < i ==> gs[j].name != name@,
            decreases n - i,
        {
            proof {
                assert(self.all@[i as int]@ == gs[i as int]);
            }
            if self.all[i].name == key {
                proof {
                    lemma_find_global_project_props(gs, name@);
                }
                return Some(&self.all[i]);
            }
            i = i + 1;
        }
        None
    }

    /// Mirror in, one by one and in local order, every local record that
    /// has none here yet; records it already holds are never touched.
    pub fn sync(&mut self, local: &LocalProjects)
        ensures
            final(self)@.current == old(self)@.current,
            final(self)@.all == sync_projects(
                old(self)@.all,
                local@.all,
                local@.current_dir,
            ),
    {
        let ghost ls = local@.all;
        let ghost dir = local@.current_dir;
        let ghost gs0 = self@.all;
        proof {
            assert(ls.skip(0) =~= ls);
        }
        let locals = local.get_all();
        let n = locals.len();
        let mut i: usize = 0;
        while i < n
            invariant
                0 <= i <= n,
                n == ls.len(),
                ls == local@.all,
                locals@.len() == n,
                forall|j: int| 0 <= j < n ==> #[trigger] locals@[j]@ == ls[j],
                dir == local@.current_dir,
                self@.current == old(self)@.current,
                sync_projects(self@.all, ls.skip(i as int), dir) == sync_projects(gs0, ls, dir),
                gs0 == old(self)@.all,
            decreases n - i,
        {
            proof {
                assert(ls.skip(i as int)[0] == ls[i as int]);
                assert(ls.skip(i as int).drop_first() =~= ls.skip(i as int + 1));
                assert(locals@[i as int]@ == ls[i as int]);
            }
            let ghost pre = self@.all;
            let name = locals[i].name();
            let dir_now = local.current_dir().clone();
            match self.get(name.as_str()) {
                Some(_) => {
                    proof {
                        assert(self@.all =~= upsert_global_project(pre, ls[i as int].name, dir));
                    }
                },
                None => {
                    self.all.push(
                        GlobalProject {
                            name,
                            path: Some(dir_now),
                            private_env_directory: None,
                        },
                    );
                    proof {
                        assert(self@.all =~= pre.push(
                            GlobalProjectView {
                                name: ls[i as int].name,
                                path: Some(dir),
                                private_env_directory: None,
                            },
                        ));
                        assert(self@.all =~= upsert_global_project(pre, ls[i as int].name, dir));
                    }
                },
            }
            i = i + 1;
        }
        proof {
            assert(ls.skip(n as int) =~= Seq::<LocalProjectView>::empty());
        }
    }

    /// The persisted current selection; fails with `NoCurrentSelection`
    /// when none is set.
    pub fn current_project(&self) -> (r: Result<&CurrentProject, Error>)
        ensures
            match self@.current {
                Some(c) => r matches Ok(p) && p@ == c,
                None => r matches Err(e) && e is NoCurrentSelection,
            },
    {
        match &self.current_project {
            Some(c) => Ok(c),
            None => Err(Error::NoCurrentSelection),
        }
    }

    /// Point the current selection at this project; an env already chosen
    /// stays chosen, and none is chosen where none was.
    pub fn set_current_project_name(&mut self, name: &str)
        ensures
            final(self)@.all == old(self)@.all,
            final(self)@.current == Some(
                CurrentProjectView {
                    name: name@,
                    env: match old(self)@.current {
                        Some(c) => c.env,
                        None => None,
                    },
                },
            ),
    {
        match self.current_project.take() {
            Some(current) => {
                self.current_project = Some(current.set_name(name));
            },
            None => {
                self.current_project = Some(CurrentProject::new(name));
            },
        }
        proof {
            assert(self@.all =~= old(self)@.all);
        }
    }

    /// Choose the env of the current selection; fails with
    /// `NoCurrentSelection` when no project is current.
    pub fn set_current_env_name(&mut self, env: &str) -> (r: Result<(), Error>)
        ensures
            final(self)@.all == old(self)@.all,
            match old(self)@.current {
                Some(c) => r is Ok && final(self)@.current == Some(
                    CurrentProjectView { name: c.name, env: Some(env@) },
                ),
                None => (r matches Err(e) && e is NoCurrentSelection) && final(self)@.current
                    is None,
            },
    {
        proof {
            assert(self@.all =~= old(self)@.all);
        }
        match self.current_project.take() {
            Some(c) => {
                self.current_project = Some(c.set_env(env));
                proof {
                    assert(self@.all =~= old(self)@.all);
                }
                Ok(())
            },
            None => Err(Error::NoCurrentSelection),
        }
    }

    /// A fixture: both fake projects known, `project_test` with env
    /// `env_test` current.
    pub fn fake() -> (r: GlobalProjects)
        ensures
            r@ == fake_global_projects_view(),
    {
        let mut all: Vec<GlobalProject> = Vec::new();
        all.push(
            GlobalProject {
                name: String::from_str("project_test"),
                path: Some(String::from_str("/path/to/local")),
                private_env_directory: None,
            },
        );
        all.push(
            GlobalProject {
                name: String::from_str("project_test_bis"),
                path: Some(String::from_str("/path/to/local")),
                private_env_directory: None,
            },
        );
        let r = GlobalProjects {
            current_project: Some(CurrentProject::new("project_test").set_env("env_test")),
            all,
        };
        proof {
            assert(r@.all =~= fake_global_projects_view().all);
            assert(r@ == fake_global_projects_view());
        }
        r
    }
}

/// What the per-machine fixture holds: both fake projects rooted at
/// `/path/to/local` with no overrides, and `project_test` with env
/// `env_test` current.
pub open spec fn fake_global_projects_view() -> GlobalProjectsView {
    GlobalProjectsView {
        current: Some(CurrentProjectView { name: ("project_test")@, env: Some(("env_test")@) }),
        all: seq![
            GlobalProjectView {
                name: ("project_test")@,
                path: Some(("/path/to/local")@),
                private_env_directory: None,
            },
            GlobalProjectView {
                name: ("project_test_bis")@,
                path: Some(("/path/to/local")@),
                private_env_directory: None,
            },
        ],
    }
}

// ---------------------------------------------------------------------------
// One project, both sides
// ---------------------------------------------------------------------------

/// A local record paired with its per-machine record.
pub struct ProjectPairView {
    pub local: LocalProjectView,
    pub global: GlobalProjectView,
}

/// One project as a command works on it: the committed record and this
/// machine's record, taken together.
#[derive(Debug)]
pub struct Project {
    local: LocalProject,
    global: GlobalProject,
}

impl View for Project {
    type V = ProjectPairView;

    closed spec fn view(&self) -> ProjectPairView {
        ProjectPairView { local: self.local@, global: self.global@ }
    }
}

impl Project {
    /// The project's name.
    pub fn name(&self) -> (r: String)
        ensures
            r@ == self@.local.name,
    {
        self.local.name()
    }

    /// The shared env directory as an absolute path.
    pub fn public_env_directory_abs(&self) -> (r: Result<String, Error>)
        ensures
            match self@.local.public_env_directory {
                None => r matches Err(e) && e matches Error::NotFound { .. },
                Some(d) => match self@.global.path {
                    None => r matches Err(e) && e matches Error::NotFound { .. },
                    Some(p) => r matches Ok(s) && s@ == crate::paths::join_spec(p, d),
                },
            },
    {
        let public_env_directory = self.local.public_env_directory()?;
        let path = self.global.path()?;
        Ok(crate::paths::join(path.as_str(), public_env_directory.as_str()))
    }

    /// The machine-only env directory as an absolute path.
    pub fn private_env_directory_abs(&self) -> (r: Result<String, Error>)
        ensures
            match self@.global.private_env_directory {
                None => r matches Err(e) && e matches Error::NotFound { .. },
                Some(d) => match self@.global.path {
                    None => r matches Err(e) && e matches Error::NotFound { .. },
                    Some(p) => r matches Ok(s) && s@ == crate::paths::join_spec(p, d),
                },
            },
    {
        let private_env_directory = self.global.private_env_directory()?;
        let path = self.global.path()?;
        Ok(crate::paths::join(path.as_str(), private_env_directory.as_str()))
    }

    /// The project directory as an absolute path.
    pub fn project_directory_abs(&self) -> (r: Result<String, Error>)
        ensures
            match self@.global.path {
                Some(p) => r matches Ok(s) && s@ == p,
                None => r matches Err(e) && e matches Error::NotFound { .. },
            },
    {
        self.global.path()
    }

    /// The template file as an absolute path.
    pub fn template_file_abs(&self) -> (r: Result<String, Error>)
        ensures
            match self@.global.path {
                None => r matches Err(e) && e matches Error::NotFound { .. },
                Some(p) => match self@.local.provider.template_path {
                    None => r matches Err(e) && e matches Error::NotFound { .. },
                    Some(t) => r matches Ok(s) && s@ == crate::paths::join_spec(p, t),
                },
            },
    {
        let project_path = self.project_directory_abs()?;
        let template_path = self.local.provider().aws()?.template_path()?;
        Ok(crate::paths::join(project_path.as_str(), template_path.as_str()))
    }

    /// The template file relative to the project directory.
    pub fn template_file_rel(&self) -> (r: Result<String, Error>)
        ensures
            match self@.global.path {
                None => r matches Err(e) && e matches Error::NotFound { .. },
                Some(p) => match self@.local.provider.template_path {
                    None => r matches Err(e) && e matches Error::NotFound { .. },
                    Some(t) => match crate::paths::strip_prefix_spec(
                        crate::paths::join_spec(p, t),
                        p,
                    ) {
                        Some(rel) => r matches Ok(s) && s@ == rel,
                        None => r matches Err(e) && e matches Error::InvalidPath { .. },
                    },
                },
            },
    {
        let project_path = self.project_directory_abs()?;
        let template_file = self.template_file_abs()?;
        match crate::paths::strip_prefix(template_file.as_str(), project_path.as_str()) {
            Some(rel) => Ok(rel),
            None => Err(Error::InvalidPath { path: template_file }),
        }
    }

    /// The aws descriptor of the project's provider.
    pub fn aws(&self) -> (r: Result<&AwsCfg, Error>)
        ensures
            r matches Ok(aws) && aws@ == self@.local.provider,
    {
        self.local.provider().aws()
    }
}

// ---------------------------------------------------------------------------
// The stores assembled
// ---------------------------------------------------------------------------

/// The views of a sequence of paired projects.
pub open spec fn views_of_projects(ps: Seq<Project>) -> Seq<ProjectPairView> {
    Seq::new(ps.len(), |i: int| ps[i]@)
}

/// Every local record paired with its per-machine record, in local order;
/// a record with no counterpart is left out.
pub open spec fn list_spec(
    ls: Seq<LocalProjectView>,
    gs: Seq<GlobalProjectView>,
) -> Seq<ProjectPairView>
    decreases ls.len(),
{
    if ls.len() == 0 {
        Seq::empty()
    } else {
        let rest = list_spec(ls.drop_first(), gs);
        match find_global_project(gs, ls[0].name) {
            Some(j) => seq![ProjectPairView { local: ls[0], global: gs[j] }] + rest,
            None => rest,
        }
    }
}

/// The name the current selection points at: a per-invocation override
/// first, else the persisted pointer.
pub open spec fn current_name_spec(v: ProjectsView) -> Option<Seq<char>> {
    match v.temp_current {
        Some(c) => Some(c.name),
        None => match v.global.current {
            Some(c) => Some(c.name),
            None => None,
        },
    }
}

/// The env the current selection points at, under the same precedence:
/// an override without an env hides the persisted one.
pub open spec fn current_env_spec(v: ProjectsView) -> Option<Seq<char>> {
    match v.temp_current {
        Some(c) => c.env,
        None => match v.global.current {
            Some(c) => c.env,
            None => None,
        },
    }
}

/// Both stores, assembled for one command run, with the per-invocation
/// override of the current selection.
#[derive(Debug)]
pub struct Projects {
    temp_current_project: Option<CurrentProject>,
    local: LocalProjects,
    global: GlobalProjects,
}

impl View for Projects {
    type V = ProjectsView;

    closed spec fn view(&self) -> ProjectsView {
        ProjectsView {
            temp_current: match self.temp_current_project {
                Some(c) => Some(c@),
                None => None,
            },
            local: self.local@,
            global: self.global@,
        }
    }
}

impl Projects {
    /// Assemble the two loaded stores, mirroring every local record into
    /// the per-machine one first.
    pub fn from_stores(local: LocalProjects, global: GlobalProjects) -> (r: Projects)
        ensures
            r@.temp_current is None,
            r@.local == local@,
            r@.global.current == global@.current,
            r@.global.all == sync_projects(global@.all, local@.all, local@.current_dir),
    {
        let mut global = global;
        global.sync(&local);
        Projects { temp_current_project: None, local, global }
    }

    /// Register a project in both stores from the absolute path of its
    /// template file: the template must lie strictly under the store's
    /// directory — the directory itself names no template — and its own
    /// directory becomes the shared env directory. The per-machine record
    /// is added first; a duplicate name fails with `AlreadyExists` at
    /// whichever store holds it.
    pub fn add(&mut self, project_name: &str, template_path: &str) -> (r: Result<Project, Error>)
        ensures
            final(self)@.temp_current == old(self)@.temp_current,
            final(self)@.global.current == old(self)@.global.current,
            final(self)@.local.current_dir == old(self)@.local.current_dir,
            match crate::paths::strip_prefix_spec(
                template_path@,
                old(self)@.local.current_dir,
            ) {
                None => {
                    &&& (r matches Err(e) && e matches Error::InvalidPath { path } && path@
                        == template_path@)
                    &&& final(self)@.global.all == old(self)@.global.all
                    &&& final(self)@.local.all == old(self)@.local.all
                },
                Some(rel) => {
                    let gentry = GlobalProjectView {
                        name: project_name@,
                        path: Some(old(self)@.local.current_dir),
                        private_env_directory: None,
                    };
                    let lentry = LocalProjectView {
                        name: project_name@,
                        public_env_directory: Some(crate::paths::parent_spec(rel)),
                        provider: AwsView {
                            region: Seq::empty(),
                            template_path: Some(rel),
                        },
                    };
                    if rel.len() == 0 {
                        &&& (r matches Err(e) && e matches Error::InvalidPath { path } && path@
                            == template_path@)
                        &&& final(self)@.global.all == old(self)@.global.all
                        &&& final(self)@.local.all == old(self)@.local.all
                    } else if find_global_project(old(self)@.global.all, project_name@) is Some {
                        &&& (r matches Err(e) && e matches Error::AlreadyExists { .. })
                        &&& final(self)@.global.all == old(self)@.global.all
                        &&& final(self)@.local.all == old(self)@.local.all
                    } else if find_local_project(old(self)@.local.all, project_name@) is Some {
                        &&& (r matches Err(e) && e matches Error::AlreadyExists { .. })
                        &&& final(self)@.global.all == old(self)@.global.all.push(gentry)
                        &&& final(self)@.local.all == old(self)@.local.all
                    } else {
                        &&& (r matches Ok(p) && p@.local == lentry && p@.global == gentry)
                        &&& final(self)@.global.all == old(self)@.global.all.push(gentry)
                        &&& final(self)@.local.all == old(self)@.local.all.push(lentry)
                    }
                },
            },
    {
        let rel = match crate::paths::strip_prefix(
            template_path,
            self.local.current_dir().as_str(),
        ) {
            Some(rel) => rel,
            None => {
                return Err(Error::InvalidPath { path: String::from_str(template_path) });
            },
        };
        if rel.as_str().unicode_len() == 0 {
            // The template path is the store's directory itself: no file
            // name, so no directory to share envs from.
            return Err(Error::InvalidPath { path: String::from_str(template_path) });
        }
        let public_env_directory = crate::paths::parent(rel.as_str());
        let mut aws_cfg = AwsCfg::new();
        aws_cfg.set_template_path(rel.as_str());
        let dir = self.local.current_dir().clone();
        self.global.add(project_name, dir.as_str())?;
        self.local.add(
            project_name,
            public_env_directory.as_str(),
            ProviderCfg::ConfAws(aws_cfg),
        )?;
        proof {
            lemma_find_global_project_props(self@.global.all, project_name@);
            if find_global_project(self@.global.all, project_name@) is None {
                assert(self@.global.all.last().name == project_name@);
            }
            lemma_find_local_project_props(self@.local.all, project_name@);
            if find_local_project(self@.local.all, project_name@) is None {
                assert(self@.local.all.last().name == project_name@);
            }
        }
        let global = match self.global.get(project_name) {
            Some(g) => g.clone(),
            None => {
                proof {
                    assert(false);
                }
                return Err(Error::NotFound { name: String::from_str(project_name) });
            },
        };
        let local = match self.local.get(project_name) {
            Some(l) => l.clone(),
            None => {
                proof {
                    assert(false);
                }
                return Err(Error::NotFound { name: String::from_str(project_name) });
            },
        };
        proof {
            lemma_find_global_project_props(old(self)@.global.all, project_name@);
            lemma_find_local_project_props(old(self)@.local.all, project_name@);
            let gs = self@.global.all;
            let i = find_global_project(gs, project_name@).unwrap();
            assert(forall|j: int| 0 <= j < gs.len() - 1 ==> #[trigger] gs[j]
                == old(self)@.global.all[j]);
            assert(i == gs.len() - 1);
            let ls = self@.local.all;
            let k = find_local_project(ls, project_name@).unwrap();
            assert(forall|j: int| 0 <= j < ls.len() - 1 ==> #[trigger] ls[j]
                == old(self)@.local.all[j]);
            assert(k == ls.len() - 1);
        }
        Ok(Project { local, global })
    }

    /// The project bearing this name, when both stores know it; fails
    /// with `NotFound` naming it otherwise.
    pub fn found(&self, project_name: &str) -> (r: Result<Project, Error>)
        ensures
            match (
                find_global_project(self@.global.all, project_name@),
                find_local_project(self@.local.all, project_name@),
            ) {
                (Some(i), Some(j)) => r matches Ok(p) && p@.global == self@.global.all[i]
                    && p@.local == self@.local.all[j],
                _ => r matches Err(e) && e matches Error::NotFound { name } && name@
                    == project_name@,
            },
    {
        match (self.global.get(project_name), self.local.get(project_name)) {
            (Some(global), Some(local)) => Ok(
                Project { local: local.clone(), global: global.clone() },
            ),
            _ => Err(Error::NotFound { name: String::from_str(project_name) }),
        }
    }

    /// Every project both stores know, in local order.
    pub fn list(&self) -> (r: Vec<Project>)
        ensures
            views_of_projects(r@) == list_spec(self@.local.all, self@.global.all),
    {
        let ghost ls = self@.local.all;
        let ghost gs = self@.global.all;
        let locals = self.local.get_all();
        let n = locals.len();
        let mut out: Vec<Project> = Vec::new();
        proof {
            assert(ls.skip(0) =~= ls);
            assert(views_of_projects(out@) =~= Seq::<ProjectPairView>::empty());
            assert(views_of_projects(out@) + list_spec(ls, gs) =~= list_spec(ls, gs));
        }
        let mut i: usize = 0;
        while i < n
            invariant
                0 <= i <= n,
                n == ls.len(),
                ls == self@.local.all,
                gs == self@.global.all,
                locals@.len() == n,
                forall|j: int| 0 <= j < n ==> #[trigger] locals@[j]@ == ls[j],
                views_of_projects(out@) + list_spec(ls.skip(i as int), gs) == list_spec(ls, gs),
            decreases n - i,
        {
            proof {
                assert(ls.skip(i as int)[0] == ls[i as int]);
                assert(ls.skip(i as int).drop_first() =~= ls.skip(i as int + 1));
            }
            let name = locals[i].name();
            match self.global.get(name.as_str()) {
                Some(global) => {
                    let pair = Project { local: locals[i].clone(), global: global.clone() };
                    proof {
                        let gj = find_global_project(gs, ls[i as int].name).unwrap();
                        assert(pair@ == (ProjectPairView { local: ls[i as int], global: gs[gj] }));
                        assert(views_of_projects(out@.push(pair)) =~= views_of_projects(out@)
                            + seq![pair@]);
                        assert((views_of_projects(out@) + seq![pair@]) + list_spec(
                            ls.skip(i as int + 1),
                            gs,
                        ) =~= views_of_projects(out@) + (seq![pair@] + list_spec(
                            ls.skip(i as int + 1),
                            gs,
                        )));
                    }
                    out.push(pair);
                },
                None => {
                },
            }
            i = i + 1;
        }
        proof {
            assert(ls.skip(n as int) =~= Seq::<LocalProjectView>::empty());
            assert(views_of_projects(out@) + Seq::<ProjectPairView>::empty() =~= views_of_projects(
                out@,
            ));
        }
        out
    }

    /// Override the current selection for this run only; nothing is
    /// persisted.
    pub fn set_temporary_current_project(&mut self, current_project: CurrentProject)
        ensures
            final(self)@.temp_current == Some(current_project@),
            final(self)@.local == old(self)@.local,
            final(self)@.global == old(self)@.global,
    {
        self.temp_current_project = Some(current_project);
    }

    /// The current project: the override's name first, else the persisted
    /// pointer's; then both stores must know it.
    pub fn current_project(&self) -> (r: Result<Project, Error>)
        ensures
            match current_name_spec(self@) {
                None => r matches Err(e) && e is NoCurrentSelection,
                Some(n) => match (
                    find_global_project(self@.global.all, n),
                    find_local_project(self@.local.all, n),
                ) {
                    (Some(i), Some(j)) => r matches Ok(p) && p@.global == self@.global.all[i]
                        && p@.local == self@.local.all[j],
                    _ => r matches Err(e) && e matches Error::NotFound { name } && name@ == n,
                },
            },
    {
        let project_name = match &self.temp_current_project {
            Some(current_project) => current_project.name()?,
            None => self.global.current_project()?.name()?,
        };
        self.found(project_name.as_str())
    }

    /// The current env name, under the same precedence: an override
    /// without an env hides the persisted one.
    pub fn current_env(&self) -> (r: Result<String, Error>)
        ensures
            match current_env_spec(self@) {
                Some(e) => r matches Ok(s) && s@ == e,
                None => r matches Err(err) && err is NoCurrentSelection,
            },
    {
        match &self.temp_current_project {
            Some(current_project) => current_project.env(),
            None => {
                let current_project = self.global.current_project()?;
                current_project.env()
            },
        }
    }

    /// Persist the current project pointer; an env already chosen stays
    /// chosen.
    pub fn set_current_project_name(&mut self, project_name: &str)
        ensures
            final(self)@.temp_current == old(self)@.temp_current,
            final(self)@.local == old(self)@.local,
            final(self)@.global.all == old(self)@.global.all,
            final(self)@.global.current == Some(
                CurrentProjectView {
                    name: project_name@,
                    env: match old(self)@.global.current {
                        Some(c) => c.env,
                        None => None,
                    },
                },
            ),
    {
        self.global.set_current_project_name(project_name)
    }

    /// Persist the env of the current pointer; fails with
    /// `NoCurrentSelection` when no project is current.
    pub fn set_current_env_name(&mut self, env: &str) -> (r: Result<(), Error>)
        ensures
            final(self)@.temp_current == old(self)@.temp_current,
            final(self)@.local == old(self)@.local,
            final(self)@.global.all == old(self)@.global.all,
            match old(self)@.global.current {
                Some(c) => r is Ok && final(self)@.global.current == Some(
                    CurrentProjectView { name: c.name, env: Some(env@) },
                ),
                None => (r matches Err(e) && e is NoCurrentSelection)
                    && final(self)@.global.current is None,
            },
    {
        self.global.set_current_env_name(env)
    }

    /// A fixture: both fake stores, with no override.
    pub fn fake() -> (r: Projects)
        ensures
            r@.temp_current is None,
            r@.local == fake_local_projects_view(),
            r@.global == fake_global_projects_view(),
    {
        Projects {
            temp_current_project: None,
            local: LocalProjects::fake(),
            global: GlobalProjects::fake(),
        }
    }
}

} // verus!
