//! The run ledger: durable records of dispatched runs and their lineage —
//! which project, which source reference, which command definition — with
//! the access contracts the coordinator relies on.  A run is written with
//! its source reference and its definition in one transaction: all three
//! rows land, or none.
use vstd::prelude::*;

use crate::ext::new_uuid;
use crate::ext::now_timestamp;

verus! {

/// The errors the ledger reports: a row that is not there, or a write the
/// ledger's constraints refuse whole.
#[derive(Clone, Copy, Debug, PartialEq, Eq, Structural)]
pub enum LedgerError {
    NotFound,
    Conflict,
}

/// What a stored project row holds.
#[verifier::ext_equal]
pub ghost struct ProjectView {
    pub uuid: Seq<char>,
    pub name: Seq<char>,
    pub created_at: int,
}

/// A project row: unique per name, created lazily the first time a
/// configured project is seen without a matching row.
#[derive(Debug)]
pub struct Project {
    pub uuid: String,
    pub name: String,
    pub created_at: i64,
}

impl View for Project {
    type V = ProjectView;

    open spec fn view(&self) -> ProjectView {
        ProjectView { uuid: self.uuid@, name: self.name@, created_at: self.created_at as int }
    }
}

impl Clone for Project {
    fn clone(&self) -> (r: Self)
        ensures
            r@ == self@,
    {
        Project {
            uuid: self.uuid.clone(),
            name: self.name.clone(),
            created_at: self.created_at,
        }
    }
}

impl Project {
    /// A fresh row for `name`, stamped now.
    pub fn new(name: &str) -> (p: Project)
        ensures
            p@.name == name@,
            p@.uuid.len() == 36,
    {
        Project { uuid: new_uuid(), name: name.to_owned(), created_at: now_timestamp() }
    }
}

impl Default for Project {
    /// A placeholder row named `Default Project`.
    fn default() -> (p: Self)
        ensures
            p@.name == "Default Project"@,
            p@.uuid.len() == 36,
    {
        Project::new("Default Project")
    }
}

/// What a stored source-reference row holds.
#[verifier::ext_equal]
pub ghost struct ScmInfoView {
    pub uuid: Seq<char>,
    pub git_url: Seq<char>,
    pub scm_ref: Seq<char>,
    pub created_at: int,
}

/// One run's source reference, immutable once written.
#[derive(Debug)]
pub struct ScmInfo {
    pub uuid: String,
    pub git_url: String,
    pub scm_ref: String,
    pub created_at: i64,
}

impl View for ScmInfo {
    type V = ScmInfoView;

    open spec fn view(&self) -> ScmInfoView {
        ScmInfoView {
            uuid: self.uuid@,
            git_url: self.git_url@,
            scm_ref: self.scm_ref@,
            created_at: self.created_at as int,
        }
    }
}

impl Clone for ScmInfo {
    fn clone(&self) -> (r: Self)
        ensures
            r@ == self@,
    {
        ScmInfo {
            uuid: self.uuid.clone(),
            git_url: self.git_url.clone(),
            scm_ref: self.scm_ref.clone(),
            created_at: self.created_at,
        }
    }
}

impl ScmInfo {
    /// A fresh reference to `git_url` at `scm_ref`, stamped now.
    pub fn new(git_url: &str, scm_ref: &str) -> (s: ScmInfo)
        ensures
            s@.git_url == git_url@,
            s@.scm_ref == scm_ref@,
            s@.uuid.len() == 36,
    {
        ScmInfo {
            uuid: new_uuid(),
            git_url: git_url.to_owned(),
            scm_ref: scm_ref.to_owned(),
            created_at: now_timestamp(),
        }
    }
}

impl Default for ScmInfo {
    fn default() -> (s: Self)
        ensures
            s@.git_url == "https://example.com/some/repo.git"@,
            s@.scm_ref == "main"@,
            s@.uuid.len() == 36,
    {
        ScmInfo::new("https://example.com/some/repo.git", "main")
    }
}

/// What a stored definition row holds.
#[verifier::ext_equal]
pub ghost struct RunDefinitionView {
    pub uuid: Seq<char>,
    pub definition: Seq<char>,
    pub created_at: int,
}

/// The raw build-definition text behind one run, immutable once written.
#[derive(Debug)]
pub struct RunDefinition {
    pub uuid: String,
    pub definition: String,
    pub created_at: i64,
}

impl View for RunDefinition {
    type V = RunDefinitionView;

    open spec fn view(&self) -> RunDefinitionView {
        RunDefinitionView {
            uuid: self.uuid@,
            definition: self.definition@,
            created_at: self.created_at as int,
        }
    }
}

impl Clone for RunDefinition {
    fn clone(&self) -> (r: Self)
        ensures
            r@ == self@,
    {
        RunDefinition {
            uuid: self.uuid.clone(),
            definition: self.definition.clone(),
            created_at: self.created_at,
        }
    }
}

impl RunDefinition {
    /// A fresh row holding `definition`, stamped now.
    pub fn new(definition: &str) -> (d: RunDefinition)
        ensures
            d@.definition == definition@,
            d@.uuid.len() == 36,
    {
        RunDefinition {
            uuid: new_uuid(),
            definition: definition.to_owned(),
            created_at: now_timestamp(),
        }
    }
}

impl Default for RunDefinition {
    fn default() -> (d: Self)
        ensures
            d@.definition == Seq::<char>::empty(),
            d@.uuid.len() == 36,
    {
        let d = RunDefinition::new("");
        proof {
            reveal_strlit("");
            assert(d@.definition =~= Seq::<char>::empty());
        }
        d
    }
}

/// What a stored run row holds.  `project`, `definition` and `scm_info`
/// are foreign keys: the uuids of the referenced rows.
#[verifier::ext_equal]
pub ghost struct RunRowView {
    pub uuid: Seq<char>,
    pub num: int,
    pub status: int,
    pub log_url: Seq<char>,
    pub project: Seq<char>,
    pub definition: Seq<char>,
    pub scm_info: Seq<char>,
    pub created_at: int,
}

/// The flat row of the runs table: the run's display number, its exit
/// status (zero is success), where its log lives, and the uuids of its
/// lineage rows.
#[derive(Debug)]
pub struct RunRow {
    pub uuid: String,
    pub num: i64,
    pub status: i64,
    pub log_url: String,
    pub project: String,
    pub definition: String,
    pub scm_info: String,
    pub created_at: i64,
}

impl View for RunRow {
    type V = RunRowView;

    open spec fn view(&self) -> RunRowView {
        RunRowView {
            uuid: self.uuid@,
            num: self.num as int,
            status: self.status as int,
            log_url: self.log_url@,
            project: self.project@,
            definition: self.definition@,
            scm_info: self.scm_info@,
            created_at: self.created_at as int,
        }
    }
}

impl Clone for RunRow {
    fn clone(&self) -> (r: Self)
        ensures
            r@ == self@,
    {
        RunRow {
            uuid: self.uuid.clone(),
            num: self.num,
            status: self.status,
            log_url: self.log_url.clone(),
            project: self.project.clone(),
            definition: self.definition.clone(),
            scm_info: self.scm_info.clone(),
            created_at: self.created_at,
        }
    }
}

impl Default for RunRow {
    /// A placeholder row: run number 42, success status, an example log
    /// URL, and fresh uuids in every reference.
    fn default() -> (r: Self)
        ensures
            r@.num == 42,
            r@.status == 0,
            r@.log_url == "https://example.com/console.log"@,
            r@.uuid.len() == 36,
            r@.project.len() == 36,
            r@.definition.len() == 36,
            r@.scm_info.len() == 36,
    {
        RunRow {
            uuid: new_uuid(),
            num: 42,
            status: 0,
            log_url: "https://example.com/console.log".to_owned(),
            project: new_uuid(),
            definition: new_uuid(),
            scm_info: new_uuid(),
            created_at: now_timestamp(),
        }
    }
}

/// What one aggregate run holds.
#[verifier::ext_equal]
pub ghost struct RunView {
    pub run: RunRowView,
    pub project: ProjectView,
    pub scm_info: ScmInfoView,
    pub definition: RunDefinitionView,
}

/// The aggregate record of one dispatch: the run row and the three rows of
/// its lineage.
#[derive(Debug)]
pub struct Run {
    pub run: RunRow,
    pub project: Project,
    pub scm_info: ScmInfo,
    pub definition: RunDefinition,
}

impl View for Run {
    type V = RunView;

    open spec fn view(&self) -> RunView {
        RunView {
            run: self.run@,
            project: self.project@,
            scm_info: self.scm_info@,
            definition: self.definition@,
        }
    }
}

impl Clone for Run {
    fn clone(&self) -> (r: Self)
        ensures
            r@ == self@,
    {
        Run {
            run: self.run.clone(),
            project: self.project.clone(),
            scm_info: self.scm_info.clone(),
            definition: self.definition.clone(),
        }
    }
}

impl Default for Run {
    fn default() -> (r: Self)
        ensures
            r@.run.num == 42,
            r@.run.status == 0,
    {
        Run {
            run: RunRow::default(),
            project: Project::default(),
            scm_info: ScmInfo::default(),
            definition: RunDefinition::default(),
        }
    }
}

/// The first row of `rows` whose key is `k`, under the projection `key`.
pub open spec fn find_by_key<T>(rows: Seq<T>, key: spec_fn(T) -> Seq<char>, k: Seq<char>) -> Option<
    T,
>
    decreases rows.len(),
{
    if rows.len() == 0 {
        None
    } else if key(rows.first()) == k {
        Some(rows.first())
    } else {
        find_by_key(rows.drop_first(), key, k)
    }
}

/// No two rows share a key.
pub open spec fn unique_keys<T>(rows: Seq<T>, key: spec_fn(T) -> Seq<char>) -> bool {
    forall|i: int, j: int|
        0 <= i < j < rows.len() ==> key(#[trigger] rows[i]) != key(#[trigger] rows[j])
}

/// A lookup misses exactly when no row carries the key.
pub proof fn lemma_find_none_iff_absent<T>(rows: Seq<T>, key: spec_fn(T) -> Seq<char>, k: Seq<char>)
    ensures
        find_by_key(rows, key, k) is None <==> (forall|i: int|
            0 <= i < rows.len() ==> key(#[trigger] rows[i]) != k),
    decreases rows.len(),
{
    if rows.len() > 0 {
        lemma_find_none_iff_absent(rows.drop_first(), key, k);
        assert forall|i: int| 1 <= i < rows.len() implies rows.drop_first()[i - 1] == rows[i] by {}
        if key(rows.first()) != k && (forall|i: int|
            0 <= i < rows.drop_first().len() ==> key(#[trigger] rows.drop_first()[i]) != k) {
            assert forall|i: int| 0 <= i < rows.len() implies key(rows[i]) != k by {
                if i > 0 {
                    assert(key(rows.drop_first()[i - 1]) != k);
                }
            }
        }
    }
}

/// What appending one row does to a lookup: an earlier hit stands; a miss
/// turns into the new row exactly when its key is the one sought.
pub proof fn lemma_find_push<T>(rows: Seq<T>, key: spec_fn(T) -> Seq<char>, x: T, k: Seq<char>)
    ensures
        find_by_key(rows.push(x), key, k) == if find_by_key(rows, key, k) is Some {
            find_by_key(rows, key, k)
        } else if key(x) == k {
            Some(x)
        } else {
            None::<T>
        },
    decreases rows.len(),
{
    if rows.len() == 0 {
        assert(find_by_key(rows, key, k) is None);
        assert(rows.push(x).first() == x);
        assert(rows.push(x).drop_first() =~= Seq::<T>::empty());
        if key(x) == k {
            assert(find_by_key(rows.push(x), key, k) == Some(x));
        } else {
            assert(find_by_key(rows.push(x), key, k) == find_by_key(
                Seq::<T>::empty(),
                key,
                k,
            ));
        }
    } else {
        let rest = rows.drop_first();
        assert(rows.push(x).first() == rows.first());
        assert(rows.push(x).drop_first() =~= rest.push(x));
        lemma_find_push(rest, key, x, k);
        if key(rows.first()) == k {
            assert(find_by_key(rows.push(x), key, k) == Some(rows.first()));
            assert(find_by_key(rows, key, k) == Some(rows.first()));
        } else {
            assert(find_by_key(rows.push(x), key, k) == find_by_key(rest.push(x), key, k));
            assert(find_by_key(rows, key, k) == find_by_key(rest, key, k));
        }
    }
}

/// One step of a forward search, seen by the first-match lookup.
pub proof fn lemma_find_skip_step<T>(
    rows: Seq<T>,
    key: spec_fn(T) -> Seq<char>,
    k: Seq<char>,
    i: int,
)
    requires
        0 <= i < rows.len(),
    ensures
        key(rows[i]) == k ==> find_by_key(rows.skip(i), key, k) == Some(rows[i]),
        key(rows[i]) != k ==> find_by_key(rows.skip(i), key, k) == find_by_key(
            rows.skip(i + 1),
            key,
            k,
        ),
{
    assert(rows.skip(i).first() == rows[i]);
    assert(rows.skip(i).drop_first() =~= rows.skip(i + 1));
}

/// Appending a row with an unused key keeps keys unique.
pub proof fn lemma_unique_push<T>(rows: Seq<T>, key: spec_fn(T) -> Seq<char>, x: T)
    requires
        unique_keys(rows, key),
        find_by_key(rows, key, key(x)) is None,
    ensures
        unique_keys(rows.push(x), key),
{
    lemma_find_none_iff_absent(rows, key, key(x));
    let r2 = rows.push(x);
    assert forall|i: int, j: int| 0 <= i < j < r2.len() implies key(#[trigger] r2[i]) != key(
        #[trigger] r2[j],
    ) by {
        if j < rows.len() {
            assert(r2[i] == rows[i] && r2[j] == rows[j]);
        } else {
            assert(r2[j] == x);
            assert(r2[i] == rows[i]);
            assert(key(rows[i]) != key(x));
        }
    }
}

/// The key of each stored project row: its uuid.
pub open spec fn project_uuid_key() -> spec_fn(ProjectView) -> Seq<char> {
    |p: ProjectView| p.uuid
}

/// The alternate key of each stored project row: its name.
pub open spec fn project_name_key() -> spec_fn(ProjectView) -> Seq<char> {
    |p: ProjectView| p.name
}

pub open spec fn scm_uuid_key() -> spec_fn(ScmInfoView) -> Seq<char> {
    |s: ScmInfoView| s.uuid
}

pub open spec fn definition_uuid_key() -> spec_fn(RunDefinitionView) -> Seq<char> {
    |d: RunDefinitionView| d.uuid
}

pub open spec fn run_uuid_key() -> spec_fn(RunRowView) -> Seq<char> {
    |r: RunRowView| r.uuid
}

/// What the ledger holds: its four tables, in insertion order.
#[verifier::ext_equal]
pub ghost struct LedgerView {
    pub projects: Seq<ProjectView>,
    pub scm_info: Seq<ScmInfoView>,
    pub definitions: Seq<RunDefinitionView>,
    pub runs: Seq<RunRowView>,
}

impl LedgerView {
    /// A run row's references all resolve to stored rows.
    pub open spec fn links_resolve(self, r: RunRowView) -> bool {
        &&& find_by_key(self.projects, project_uuid_key(), r.project) is Some
        &&& find_by_key(self.scm_info, scm_uuid_key(), r.scm_info) is Some
        &&& find_by_key(self.definitions, definition_uuid_key(), r.definition) is Some
    }

    /// The ledger's integrity: every table keyed uniquely by uuid, project
    /// names unique as well, and no run row with a dangling reference.
    pub open spec fn wf(self) -> bool {
        &&& unique_keys(self.projects, project_uuid_key())
        &&& unique_keys(self.projects, project_name_key())
        &&& unique_keys(self.scm_info, scm_uuid_key())
        &&& unique_keys(self.definitions, definition_uuid_key())
        &&& unique_keys(self.runs, run_uuid_key())
        &&& forall|i: int| 0 <= i < self.runs.len() ==> self.links_resolve(#[trigger] self.runs[i])
    }
}

/// The run row as stored: its reference columns are filled from the
/// lineage rows written in the same transaction, whatever the submitted
/// flat row carried there.
pub open spec fn normalized_row(r: RunView) -> RunRowView {
    RunRowView {
        uuid: r.run.uuid,
        num: r.run.num,
        status: r.run.status,
        log_url: r.run.log_url,
        project: r.project.uuid,
        definition: r.definition.uuid,
        scm_info: r.scm_info.uuid,
        created_at: r.run.created_at,
    }
}

/// When `create_run` succeeds: the referenced project row is stored
/// exactly as submitted, and the three new uuids are unused.
pub open spec fn create_run_ok(l: LedgerView, r: RunView) -> bool {
    &&& find_by_key(l.projects, project_uuid_key(), r.project.uuid) == Some(r.project)
    &&& find_by_key(l.runs, run_uuid_key(), r.run.uuid) is None
    &&& find_by_key(l.scm_info, scm_uuid_key(), r.scm_info.uuid) is None
    &&& find_by_key(l.definitions, definition_uuid_key(), r.definition.uuid) is None
}

/// What a successful `create_run` leaves: the three rows of one dispatch,
/// appended together.
pub open spec fn create_run_post(l: LedgerView, r: RunView) -> LedgerView {
    LedgerView {
        projects: l.projects,
        scm_info: l.scm_info.push(r.scm_info),
        definitions: l.definitions.push(r.definition),
        runs: l.runs.push(normalized_row(r)),
    }
}

/// The ledger itself.  Each write either lands whole or changes nothing.
#[derive(Debug)]
pub struct Ledger {
    projects: Vec<Project>,
    scm_info: Vec<ScmInfo>,
    definitions: Vec<RunDefinition>,
    runs: Vec<RunRow>,
}

impl View for Ledger {
    type V = LedgerView;

    closed spec fn view(&self) -> LedgerView {
        LedgerView {
            projects: self.projects@.map_values(|p: Project| p@),
            scm_info: self.scm_info@.map_values(|s: ScmInfo| s@),
            definitions: self.definitions@.map_values(|d: RunDefinition| d@),
            runs: self.runs@.map_values(|r: RunRow| r@),
        }
    }
}

impl Ledger {
    pub fn new() -> (l: Ledger)
        ensures
            l@.wf(),
            l@.projects == Seq::<ProjectView>::empty(),
            l@.scm_info == Seq::<ScmInfoView>::empty(),
            l@.definitions == Seq::<RunDefinitionView>::empty(),
            l@.runs == Seq::<RunRowView>::empty(),
    {
        let l = Ledger {
            projects: Vec::new(),
            scm_info: Vec::new(),
            definitions: Vec::new(),
            runs: Vec::new(),
        };
        proof {
            assert(l@.projects =~= Seq::<ProjectView>::empty());
            assert(l@.scm_info =~= Seq::<ScmInfoView>::empty());
            assert(l@.definitions =~= Seq::<RunDefinitionView>::empty());
            assert(l@.runs =~= Seq::<RunRowView>::empty());
        }
        l
    }

    fn project_index_by_uuid(&self, k: &String) -> (r: Option<usize>)
        ensures
            r matches Some(i) ==> i < self@.projects.len() && find_by_key(
                self@.projects,
                project_uuid_key(),
                k@,
            ) == Some(self@.projects[i as int]),
            r is None ==> find_by_key(self@.projects, project_uuid_key(), k@) is None,
    {
        let ghost rows = self@.projects;
        proof {
            assert(rows.skip(0) =~= rows);
        }
        let mut i: usize = 0;
        while i < self.projects.len()
            invariant
                i <= rows.len(),
                rows == self@.projects,
                rows.len() == self.projects@.len(),
                find_by_key(rows, project_uuid_key(), k@) == find_by_key(
                    rows.skip(i as int),
                    project_uuid_key(),
                    k@,
                ),
            decreases rows.len() - i,
        {
            proof {
                lemma_find_skip_step(rows, project_uuid_key(), k@, i as int);
            }
            if self.projects[i].uuid == *k {
                return Some(i);
            }
            i = i + 1;
        }
        proof {
            assert(rows.skip(rows.len() as int) =~= Seq::<ProjectView>::empty());
        }
        None
    }

    fn project_index_by_name(&self, k: &String) -> (r: Option<usize>)
        ensures
            r matches Some(i) ==> i < self@.projects.len() && find_by_key(
                self@.projects,
                project_name_key(),
                k@,
            ) == Some(self@.projects[i as int]),
            r is None ==> find_by_key(self@.projects, project_name_key(), k@) is None,
    {
        let ghost rows = self@.projects;
        proof {
            assert(rows.skip(0) =~= rows);
        }
        let mut i: usize = 0;
        while i < self.projects.len()
            invariant
                i <= rows.len(),
                rows == self@.projects,
                rows.len() == self.projects@.len(),
                find_by_key(rows, project_name_key(), k@) == find_by_key(
                    rows.skip(i as int),
                    project_name_key(),
                    k@,
                ),
            decreases rows.len() - i,
        {
            proof {
                lemma_find_skip_step(rows, project_name_key(), k@, i as int);
            }
            if self.projects[i].name == *k {
                return Some(i);
            }
            i = i + 1;
        }
        proof {
            assert(rows.skip(rows.len() as int) =~= Seq::<ProjectView>::empty());
        }
        None
    }

    fn scm_index_by_uuid(&self, k: &String) -> (r: Option<usize>)
        ensures
            r matches Some(i) ==> i < self@.scm_info.len() && find_by_key(
                self@.scm_info,
                scm_uuid_key(),
                k@,
            ) == Some(self@.scm_info[i as int]),
            r is None ==> find_by_key(self@.scm_info, scm_uuid_key(), k@) is None,
    {
        let ghost rows = self@.scm_info;
        proof {
            assert(rows.skip(0) =~= rows);
        }
        let mut i: usize = 0;
        while i < self.scm_info.len()
            invariant
                i <= rows.len(),
                rows == self@.scm_info,
                rows.len() == self.scm_info@.len(),
                find_by_key(rows, scm_uuid_key(), k@) == find_by_key(
                    rows.skip(i as int),
                    scm_uuid_key(),
                    k@,
                ),
            decreases rows.len() - i,
        {
            proof {
                lemma_find_skip_step(rows, scm_uuid_key(), k@, i as int);
            }
            if self.scm_info[i].uuid == *k {
                return Some(i);
            }
            i = i + 1;
        }
        proof {
            assert(rows.skip(rows.len() as int) =~= Seq::<ScmInfoView>::empty());
        }
        None
    }

    fn definition_index_by_uuid(&self, k: &String) -> (r: Option<usize>)
        ensures
            r matches Some(i) ==> i < self@.definitions.len() && find_by_key(
                self@.definitions,
                definition_uuid_key(),
                k@,
            ) == Some(self@.definitions[i as int]),
            r is None ==> find_by_key(self@.definitions, definition_uuid_key(), k@) is None,
    {
        let ghost rows = self@.definitions;
        proof {
            assert(rows.skip(0) =~= rows);
        }
        let mut i: usize = 0;
        while i < self.definitions.len()
            invariant
                i <= rows.len(),
                rows == self@.definitions,
                rows.len() == self.definitions@.len(),
                find_by_key(rows, definition_uuid_key(), k@) == find_by_key(
                    rows.skip(i as int),
                    definition_uuid_key(),
                    k@,
                ),
            decreases rows.len() - i,
        {
            proof {
                lemma_find_skip_step(rows, definition_uuid_key(), k@, i as int);
            }
            if self.definitions[i].uuid == *k {
                return Some(i);
            }
            i = i + 1;
        }
        proof {
            assert(rows.skip(rows.len() as int) =~= Seq::<RunDefinitionView>::empty());
        }
        None
    }

    fn run_index_by_uuid(&self, k: &String) -> (r: Option<usize>)
        ensures
            r matches Some(i) ==> i < self@.runs.len() && find_by_key(
                self@.runs,
                run_uuid_key(),
                k@,
            ) == Some(self@.runs[i as int]),
            r is None ==> find_by_key(self@.runs, run_uuid_key(), k@) is None,
    {
        let ghost rows = self@.runs;
        proof {
            assert(rows.skip(0) =~= rows);
        }
        let mut i: usize = 0;
        while i < self.runs.len()
            invariant
                i <= rows.len(),
                rows == self@.runs,
                rows.len() == self.runs@.len(),
                find_by_key(rows, run_uuid_key(), k@) == find_by_key(
                    rows.skip(i as int),
                    run_uuid_key(),
                    k@,
                ),
            decreases rows.len() - i,
        {
            proof {
                lemma_find_skip_step(rows, run_uuid_key(), k@, i as int);
            }
            if self.runs[i].uuid == *k {
                return Some(i);
            }
            i = i + 1;
        }
        proof {
            assert(rows.skip(rows.len() as int) =~= Seq::<RunRowView>::empty());
        }
        None
    }

    /// Insert a project row.  The write is refused whole when either key —
    /// the uuid or the name — is already taken.
    pub fn create_project(&mut self, project: &Project) -> (r: Result<(), LedgerError>)
        requires
            old(self)@.wf(),
        ensures
            final(self)@.wf(),
            r is Ok <==> find_by_key(old(self)@.projects, project_uuid_key(), project@.uuid)
                is None && find_by_key(old(self)@.projects, project_name_key(), project@.name)
                is None,
            r is Ok ==> final(self)@ == (LedgerView {
                projects: old(self)@.projects.push(project@),
                scm_info: old(self)@.scm_info,
                definitions: old(self)@.definitions,
                runs: old(self)@.runs,
            }),
            r is Err ==> final(self)@ == old(self)@,
            r matches Err(e) ==> e == LedgerError::Conflict,
    {
        if self.project_index_by_uuid(&project.uuid).is_some() {
            return Err(LedgerError::Conflict);
        }
        if self.project_index_by_name(&project.name).is_some() {
            return Err(LedgerError::Conflict);
        }
        let ghost before = self@;
        self.projects.push(project.clone());
        proof {
            assert(self@.projects =~= before.projects.push(project@));
            assert(self@.scm_info =~= before.scm_info);
            assert(self@.definitions =~= before.definitions);
            assert(self@.runs =~= before.runs);
            assert(project_uuid_key()(project@) == project@.uuid);
            assert(project_name_key()(project@) == project@.name);
            lemma_unique_push(before.projects, project_uuid_key(), project@);
            lemma_unique_push(before.projects, project_name_key(), project@);
            assert forall|i: int| 0 <= i < self@.runs.len() implies self@.links_resolve(
                #[trigger] self@.runs[i],
            ) by {
                assert(before.links_resolve(before.runs[i]));
                lemma_find_push(
                    before.projects,
                    project_uuid_key(),
                    project@,
                    before.runs[i].project,
                );
            }
        }
        Ok(())
    }

    /// The stored project row named `name`, if any.
    pub fn project_by_name(&self, name: &str) -> (r: Result<Project, LedgerError>)
        ensures
            r is Ok <==> find_by_key(self@.projects, project_name_key(), name@) is Some,
            r matches Ok(p) ==> find_by_key(self@.projects, project_name_key(), name@) == Some(p@),
            r matches Err(e) ==> e == LedgerError::NotFound,
    {
        let key: String = name.to_owned();
        match self.project_index_by_name(&key) {
            Some(i) => Ok(self.projects[i].clone()),
            None => Err(LedgerError::NotFound),
        }
    }

    /// Every stored project row, in insertion order.
    pub fn list_projects(&self) -> (r: Vec<Project>)
        ensures
            r@.map_values(|p: Project| p@) == self@.projects,
    {
        let ghost goal = self@.projects;
        let mut r: Vec<Project> = Vec::new();
        let mut i: usize = 0;
        while i < self.projects.len()
            invariant
                i <= self.projects@.len(),
                goal == self@.projects,
                goal.len() == self.projects@.len(),
                r@.map_values(|p: Project| p@) =~= goal.take(i as int),
            decreases self.projects@.len() - i,
        {
            let ghost prefix = r@.map_values(|p: Project| p@);
            let row = self.projects[i].clone();
            r.push(row);
            proof {
                assert(r@.map_values(|p: Project| p@) =~= prefix.push(row@));
                assert(prefix.push(row@) =~= goal.take(i as int + 1));
            }
            i = i + 1;
        }
        proof {
            assert(goal.take(goal.len() as int) =~= goal);
        }
        r
    }

    /// Idempotent bootstrap of a configured project: hand back the stored
    /// row named `name`, or create one when none is there.  An existing
    /// row is never overwritten.
    pub fn find_or_create_project(&mut self, name: &str) -> (r: Result<Project, LedgerError>)
        requires
            old(self)@.wf(),
        ensures
            final(self)@.wf(),
            (find_by_key(old(self)@.projects, project_name_key(), name@) matches Some(p) ==> r
                matches Ok(created) && created@ == p && final(self)@ == old(self)@),
            find_by_key(old(self)@.projects, project_name_key(), name@) is None ==> (r matches Ok(
                created,
            ) ==> created@.name == name@ && created@.uuid.len() == 36 && find_by_key(
                old(self)@.projects,
                project_uuid_key(),
                created@.uuid,
            ) is None && final(self)@ == (LedgerView {
                projects: old(self)@.projects.push(created@),
                scm_info: old(self)@.scm_info,
                definitions: old(self)@.definitions,
                runs: old(self)@.runs,
            })),
            r is Err ==> final(self)@ == old(self)@,
    {
        let key: String = name.to_owned();
        match self.project_index_by_name(&key) {
            Some(i) => Ok(self.projects[i].clone()),
            None => {
                let fresh = Project::new(name);
                match self.create_project(&fresh) {
                    Ok(()) => Ok(fresh),
                    Err(e) => Err(e),
                }
            },
        }
    }

    /// Write one dispatch's lineage — source reference, definition, run —
    /// as a single transaction: either all three rows land, or the ledger
    /// is left exactly as it was.  The referenced project row must already
    /// be stored as submitted, and the three new uuids must be unused.
    pub fn create_run(&mut self, run: &Run) -> (r: Result<(), LedgerError>)
        requires
            old(self)@.wf(),
        ensures
            final(self)@.wf(),
            r is Ok <==> create_run_ok(old(self)@, run@),
            r is Ok ==> final(self)@ == create_run_post(old(self)@, run@),
            r is Err ==> final(self)@ == old(self)@,
            r matches Err(e) ==> if find_by_key(
                old(self)@.projects,
                project_uuid_key(),
                run@.project.uuid,
            ) == Some(run@.project) {
                e == LedgerError::Conflict
            } else {
                e == LedgerError::NotFound
            },
    {
        let pi = match self.project_index_by_uuid(&run.project.uuid) {
            Some(i) => i,
            None => {
                return Err(LedgerError::NotFound);
            },
        };
        if !same_project_row(&self.projects[pi], &run.project) {
            return Err(LedgerError::NotFound);
        }
        if self.run_index_by_uuid(&run.run.uuid).is_some() {
            return Err(LedgerError::Conflict);
        }
        if self.scm_index_by_uuid(&run.scm_info.uuid).is_some() {
            return Err(LedgerError::Conflict);
        }
        if self.definition_index_by_uuid(&run.definition.uuid).is_some() {
            return Err(LedgerError::Conflict);
        }
        let ghost before = self@;
        self.scm_info.push(run.scm_info.clone());
        self.definitions.push(run.definition.clone());
        self.runs.push(
            RunRow {
                uuid: run.run.uuid.clone(),
                num: run.run.num,
                status: run.run.status,
                log_url: run.run.log_url.clone(),
                project: run.project.uuid.clone(),
                definition: run.definition.uuid.clone(),
                scm_info: run.scm_info.uuid.clone(),
                created_at: run.run.created_at,
            },
        );
        proof {
            assert(self@.projects =~= before.projects);
            assert(self@.scm_info =~= before.scm_info.push(run@.scm_info));
            assert(self@.definitions =~= before.definitions.push(run@.definition));
            assert(self@.runs =~= before.runs.push(normalized_row(run@)));
            assert(self@ =~= create_run_post(before, run@));
            assert(scm_uuid_key()(run@.scm_info) == run@.scm_info.uuid);
            assert(definition_uuid_key()(run@.definition) == run@.definition.uuid);
            assert(run_uuid_key()(normalized_row(run@)) == run@.run.uuid);
            lemma_unique_push(before.scm_info, scm_uuid_key(), run@.scm_info);
            lemma_unique_push(before.definitions, definition_uuid_key(), run@.definition);
            lemma_unique_push(before.runs, run_uuid_key(), normalized_row(run@));
            assert forall|i: int| 0 <= i < self@.runs.len() implies self@.links_resolve(
                #[trigger] self@.runs[i],
            ) by {
                if i < before.runs.len() {
                    assert(before.links_resolve(before.runs[i]));
                    assert(self@.runs[i] == before.runs[i]);
                    lemma_find_push(
                        before.scm_info,
                        scm_uuid_key(),
                        run@.scm_info,
                        before.runs[i].scm_info,
                    );
                    lemma_find_push(
                        before.definitions,
                        definition_uuid_key(),
                        run@.definition,
                        before.runs[i].definition,
                    );
                } else {
                    assert(self@.runs[i] == normalized_row(run@));
                    lemma_find_push(
                        before.scm_info,
                        scm_uuid_key(),
                        run@.scm_info,
                        run@.scm_info.uuid,
                    );
                    lemma_find_push(
                        before.definitions,
                        definition_uuid_key(),
                        run@.definition,
                        run@.definition.uuid,
                    );
                }
            }
        }
        Ok(())
    }

    /// Reconstruct the aggregate record of the run stored under `uuid` by
    /// reading the run row and the three rows it references.  There is no
    /// partial result: a missing run row fails the whole read, and a well
    /// formed ledger has no dangling reference.
    pub fn find_run(&self, uuid: &str) -> (r: Result<Run, LedgerError>)
        requires
            self@.wf(),
        ensures
            r is Ok <==> find_by_key(self@.runs, run_uuid_key(), uuid@) is Some,
            r matches Err(e) ==> e == LedgerError::NotFound,
            r matches Ok(found) ==> Some(found@.run) == find_by_key(
                self@.runs,
                run_uuid_key(),
                uuid@,
            ) && Some(found@.project) == find_by_key(
                self@.projects,
                project_uuid_key(),
                found@.run.project,
            ) && Some(found@.scm_info) == find_by_key(
                self@.scm_info,
                scm_uuid_key(),
                found@.run.scm_info,
            ) && Some(found@.definition) == find_by_key(
                self@.definitions,
                definition_uuid_key(),
                found@.run.definition,
            ),
    {
        let key: String = uuid.to_owned();
        let ri = match self.run_index_by_uuid(&key) {
            Some(i) => i,
            None => {
                return Err(LedgerError::NotFound);
            },
        };
        proof {
            assert(self@.links_resolve(self@.runs[ri as int]));
        }
        let pi = match self.project_index_by_uuid(&self.runs[ri].project) {
            Some(i) => i,
            None => {
                proof {
                    assert(false);
                }
                return Err(LedgerError::NotFound);
            },
        };
        let si = match self.scm_index_by_uuid(&self.runs[ri].scm_info) {
            Some(i) => i,
            None => {
                proof {
                    assert(false);
                }
                return Err(LedgerError::NotFound);
            },
        };
        let di = match self.definition_index_by_uuid(&self.runs[ri].definition) {
            Some(i) => i,
            None => {
                proof {
                    assert(false);
                }
                return Err(LedgerError::NotFound);
            },
        };
        Ok(
            Run {
                run: self.runs[ri].clone(),
                project: self.projects[pi].clone(),
                scm_info: self.scm_info[si].clone(),
                definition: self.definitions[di].clone(),
            },
        )
    }
}

/// Field-by-field comparison of two project rows.
fn same_project_row(a: &Project, b: &Project) -> (r: bool)
    ensures
        r == (a@ == b@),
{
    let r = a.uuid == b.uuid && a.name == b.name && a.created_at == b.created_at;
    proof {
        if a.uuid@ == b.uuid@ && a.name@ == b.name@ && a.created_at == b.created_at {
            assert(a@ =~= b@);
        }
    }
    r
}

/// Round trip: what `create_run` writes, `find_run` reads back.  In the
/// ledger a successful `create_run` leaves, the submitted uuid resolves to
/// the stored run row, and that row's references resolve to exactly the
/// submitted project, source-reference and definition rows — so the
/// reconstructed aggregate equals what was submitted.
pub proof fn lemma_run_round_trip(l: LedgerView, r: RunView)
    requires
        l.wf(),
        create_run_ok(l, r),
    ensures
        find_by_key(create_run_post(l, r).runs, run_uuid_key(), r.run.uuid) == Some(
            normalized_row(r),
        ),
        normalized_row(r).uuid == r.run.uuid,
        find_by_key(
            create_run_post(l, r).projects,
            project_uuid_key(),
            normalized_row(r).project,
        ) == Some(r.project),
        find_by_key(create_run_post(l, r).scm_info, scm_uuid_key(), normalized_row(r).scm_info)
            == Some(r.scm_info),
        find_by_key(
            create_run_post(l, r).definitions,
            definition_uuid_key(),
            normalized_row(r).definition,
        ) == Some(r.definition),
{
    lemma_find_push(l.runs, run_uuid_key(), normalized_row(r), r.run.uuid);
    lemma_find_push(l.scm_info, scm_uuid_key(), r.scm_info, r.scm_info.uuid);
    lemma_find_push(l.definitions, definition_uuid_key(), r.definition, r.definition.uuid);
}

/// Idempotent bootstrap: once `find_or_create_project` has created the row
/// for a name — the name was absent, and the call appended row `p` — a
/// lookup of that name finds exactly `p`.  By the contract of
/// `find_or_create_project`, a second call therefore returns the same row,
/// uuid included, and leaves the ledger unchanged: no duplicate is ever
/// created.
pub proof fn lemma_bootstrap_idempotent(projects: Seq<ProjectView>, p: ProjectView)
    requires
        find_by_key(projects, project_name_key(), p.name) is None,
    ensures
        find_by_key(projects.push(p), project_name_key(), p.name) == Some(p),
{
    lemma_find_push(projects, project_name_key(), p, p.name);
}

} // verus!
