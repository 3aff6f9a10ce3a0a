//! Where the database of the editor is: the places in which it is looked for, in
//! order. The file system, the processes and the environment are the caller's: it
//! carries out an action and reports what came of it. `P` is the caller's type of
//! a path.
use vstd::prelude::*;

use crate::text::text_views;

verus! {

/// A path that was configured, and whether there is something at it.
pub struct Candidate<P> {
    pub path: P,
    pub exists: bool,
}

/// The executable of the editor: the one that is configured, where it exists, else
/// that of the running process.
pub open spec fn executable_path<P>(configured: Option<Candidate<P>>, process: Option<P>) -> Option<
    P,
> {
    match configured {
        Some(candidate) => if candidate.exists {
            Some(candidate.path)
        } else {
            process
        },
        None => process,
    }
}

/// A search for the executable of the editor.
pub enum ExecutableSearch<P> {
    /// It is found.
    Found(P),
    /// The running process is to be asked.
    AskProcess,
}

/// What a search comes to, once it is clear what the running process gives.
pub open spec fn settled<P>(search: ExecutableSearch<P>, process: Option<P>) -> Option<P> {
    match search {
        ExecutableSearch::Found(path) => Some(path),
        ExecutableSearch::AskProcess => process,
    }
}

/// Searches for the executable of the editor. The running process is asked where
/// none is configured that exists, and only there.
pub fn get_antigravity_path<P>(configured: Option<Candidate<P>>) -> (r: ExecutableSearch<P>)
    ensures
        forall|process: Option<P>| #[trigger] settled(r, process) == executable_path(
            configured,
            process,
        ),
        r is AskProcess <==> !(configured is Some && configured->0.exists),
{
    match configured {
        Some(candidate) => if candidate.exists {
            ExecutableSearch::Found(candidate.path)
        } else {
            ExecutableSearch::AskProcess
        },
        None => ExecutableSearch::AskProcess,
    }
}

impl<P> ExecutableSearch<P> {
    /// Whether the running process is to be asked.
    pub fn asks_process(&self) -> (r: bool)
        ensures
            r == (*self is AskProcess),
    {
        match self {
            ExecutableSearch::Found(_) => false,
            ExecutableSearch::AskProcess => true,
        }
    }

    /// The executable. `process` is that of the running process, where it was asked.
    pub fn settle(self, process: Option<P>) -> (r: Option<P>)
        ensures
            r == settled(self, process),
    {
        match self {
            ExecutableSearch::Found(path) => Some(path),
            ExecutableSearch::AskProcess => process,
        }
    }
}

/// The systems on which the editor runs.
#[derive(Clone, Copy)]
pub enum Platform {
    MacOs,
    Windows,
    Linux,
}

/// How far the search has come.
#[derive(Clone, Copy)]
pub enum DbStage {
    /// The data directory of the running process is asked for.
    UserDataDir,
    /// The database under it is looked for.
    CustomDb,
    /// The executable is asked for.
    Executable,
    /// Its directory is asked for.
    Parent,
    /// The database under it is looked for.
    PortableDb,
    /// The directory of the user is asked for.
    Base,
    /// There is nothing more to do.
    Over,
}

/// A search for the database.
#[derive(Clone, Copy)]
pub struct DbSearch {
    pub platform: Platform,
    pub stage: DbStage,
}

/// What came of an action.
pub enum DbAnswer<P> {
    /// The path that was asked for, if there is one.
    Path(Option<P>),
    /// There is something at the path, which is this.
    Exists(P),
    /// There is nothing at the path.
    Missing,
}

/// What is to be done next.
pub enum DbAction<P> {
    /// Ask for the data directory with which the editor was started.
    AskUserDataDir,
    /// Ask for the executable of the editor.
    AskExecutable,
    /// Ask for the directory that holds the path.
    AskParent(P),
    /// Ask for the home directory.
    AskHome,
    /// Ask for the directory that the variable `APPDATA` names.
    AskAppData,
    /// Join the names to the path, and look whether there is something.
    Look { base: P, names: Vec<String> },
    /// Take this path: that is the result.
    Use(P),
    /// Join the names to the path: that is the result.
    UseUnder { base: P, names: Vec<String> },
    /// Give up, for this reason.
    Fail(String),
    /// Nothing: the answer was to no question.
    Nothing,
}

pub enum DbActionView<P> {
    AskUserDataDir,
    AskExecutable,
    AskParent(P),
    AskHome,
    AskAppData,
    Look { base: P, names: Seq<Seq<char>> },
    Use(P),
    UseUnder { base: P, names: Seq<Seq<char>> },
    Fail(Seq<char>),
    Nothing,
}

impl<P> View for DbAction<P> {
    type V = DbActionView<P>;

    open spec fn view(&self) -> DbActionView<P> {
        match *self {
            DbAction::AskUserDataDir => DbActionView::AskUserDataDir,
            DbAction::AskExecutable => DbActionView::AskExecutable,
            DbAction::AskParent(path) => DbActionView::AskParent(path),
            DbAction::AskHome => DbActionView::AskHome,
            DbAction::AskAppData => DbActionView::AskAppData,
            DbAction::Look { base, names } => DbActionView::Look {
                base,
                names: text_views(names@),
            },
            DbAction::Use(path) => DbActionView::Use(path),
            DbAction::UseUnder { base, names } => DbActionView::UseUnder {
                base,
                names: text_views(names@),
            },
            DbAction::Fail(reason) => DbActionView::Fail(reason@),
            DbAction::Nothing => DbActionView::Nothing,
        }
    }
}

/// The database under a data directory.
pub open spec fn under_data_dir() -> Seq<Seq<char>> {
    seq!["User"@, "globalStorage"@, "state.vscdb"@]
}

/// The database under the directory of a portable editor.
pub open spec fn under_portable_dir() -> Seq<Seq<char>> {
    seq!["data"@, "user-data"@, "User"@, "globalStorage"@, "state.vscdb"@]
}

/// The database under the directory of the user.
pub open spec fn under_base(platform: Platform) -> Seq<Seq<char>> {
    match platform {
        Platform::MacOs => seq![
            "Library/Application Support/Antigravity/User/globalStorage/state.vscdb"@,
        ],
        Platform::Windows => seq!["Antigravity\\User\\globalStorage\\state.vscdb"@],
        Platform::Linux => seq![".config/Antigravity/User/globalStorage/state.vscdb"@],
    }
}

/// Asks for the directory of the user.
pub open spec fn ask_base<P>(platform: Platform) -> (DbStage, DbActionView<P>) {
    match platform {
        Platform::MacOs => (DbStage::Base, DbActionView::AskHome),
        Platform::Windows => (DbStage::Base, DbActionView::AskAppData),
        Platform::Linux => (DbStage::Base, DbActionView::AskHome),
    }
}

/// Why there is no directory of the user.
pub open spec fn no_base(platform: Platform) -> Seq<char> {
    match platform {
        Platform::MacOs => "Failed to get home directory"@,
        Platform::Windows => "Failed to get APPDATA environment variable"@,
        Platform::Linux => "Failed to get home directory"@,
    }
}

/// What follows an answer. The data directory of the running process goes first,
/// then the directory of a portable editor, each where the database is there; the
/// directory of the user goes last, whether or not it is.
pub open spec fn search_next<P>(search: DbSearch, answer: DbAnswer<P>) -> (
    DbStage,
    DbActionView<P>,
) {
    match (search.stage, answer) {
        (DbStage::UserDataDir, DbAnswer::Path(Some(dir))) => (
            DbStage::CustomDb,
            DbActionView::Look { base: dir, names: under_data_dir() },
        ),
        (DbStage::UserDataDir, DbAnswer::Path(None)) => (
            DbStage::Executable,
            DbActionView::AskExecutable,
        ),
        (DbStage::CustomDb, DbAnswer::Exists(path)) => (DbStage::Over, DbActionView::Use(path)),
        (DbStage::CustomDb, DbAnswer::Missing) => (
            DbStage::Executable,
            DbActionView::AskExecutable,
        ),
        (DbStage::Executable, DbAnswer::Path(Some(path))) => (
            DbStage::Parent,
            DbActionView::AskParent(path),
        ),
        (DbStage::Executable, DbAnswer::Path(None)) => ask_base(search.platform),
        (DbStage::Parent, DbAnswer::Path(Some(dir))) => (
            DbStage::PortableDb,
            DbActionView::Look { base: dir, names: under_portable_dir() },
        ),
        (DbStage::Parent, DbAnswer::Path(None)) => ask_base(search.platform),
        (DbStage::PortableDb, DbAnswer::Exists(path)) => (DbStage::Over, DbActionView::Use(path)),
        (DbStage::PortableDb, DbAnswer::Missing) => ask_base(search.platform),
        (DbStage::Base, DbAnswer::Path(Some(dir))) => (
            DbStage::Over,
            DbActionView::UseUnder { base: dir, names: under_base(search.platform) },
        ),
        (DbStage::Base, DbAnswer::Path(None)) => (
            DbStage::Over,
            DbActionView::Fail(no_base(search.platform)),
        ),
        _ => (search.stage, DbActionView::Nothing),
    }
}

/// Begins a search.
pub fn get_db_path<P>(platform: Platform) -> (r: (DbSearch, DbAction<P>))
    ensures
        r.0 == (DbSearch { platform, stage: DbStage::UserDataDir }),
        r.1@ == DbActionView::<P>::AskUserDataDir,
{
    (DbSearch { platform, stage: DbStage::UserDataDir }, DbAction::AskUserDataDir)
}

fn names_under_data_dir() -> (r: Vec<String>)
    ensures
        text_views(r@) == under_data_dir(),
{
    let r: Vec<String> = vec![
        "User".to_owned(),
        "globalStorage".to_owned(),
        "state.vscdb".to_owned(),
    ];
    assert(text_views(r@) =~= under_data_dir());
    r
}

fn names_under_portable_dir() -> (r: Vec<String>)
    ensures
        text_views(r@) == under_portable_dir(),
{
    let r: Vec<String> = vec![
        "data".to_owned(),
        "user-data".to_owned(),
        "User".to_owned(),
        "globalStorage".to_owned(),
        "state.vscdb".to_owned(),
    ];
    assert(text_views(r@) =~= under_portable_dir());
    r
}

fn names_under_base(platform: Platform) -> (r: Vec<String>)
    ensures
        text_views(r@) == under_base(platform),
{
    let name = match platform {
        Platform::MacOs => "Library/Application Support/Antigravity/User/globalStorage/state.vscdb",
        Platform::Windows => "Antigravity\\User\\globalStorage\\state.vscdb",
        Platform::Linux => ".config/Antigravity/User/globalStorage/state.vscdb",
    };
    let r: Vec<String> = vec![name.to_owned()];
    assert(text_views(r@) =~= under_base(platform));
    r
}

impl DbSearch {
    fn ask_base<P>(&self) -> (r: (DbStage, DbAction<P>))
        ensures
            (r.0, r.1@) == ask_base::<P>(self.platform),
    {
        match self.platform {
            Platform::MacOs => (DbStage::Base, DbAction::AskHome),
            Platform::Windows => (DbStage::Base, DbAction::AskAppData),
            Platform::Linux => (DbStage::Base, DbAction::AskHome),
        }
    }

    /// Takes in what came of the last action, and says what to do next.
    pub fn step<P>(&self, answer: DbAnswer<P>) -> (r: (DbSearch, DbAction<P>))
        ensures
            r.0.platform == self.platform,
            (r.0.stage, r.1@) == search_next(*self, answer),
    {
        let (stage, action) = match (self.stage, answer) {
            (DbStage::UserDataDir, DbAnswer::Path(Some(dir))) => (
                DbStage::CustomDb,
                DbAction::Look { base: dir, names: names_under_data_dir() },
            ),
            (DbStage::UserDataDir, DbAnswer::Path(None)) => (
                DbStage::Executable,
                DbAction::AskExecutable,
            ),
            (DbStage::CustomDb, DbAnswer::Exists(path)) => (DbStage::Over, DbAction::Use(path)),
            (DbStage::CustomDb, DbAnswer::Missing) => (
                DbStage::Executable,
                DbAction::AskExecutable,
            ),
            (DbStage::Executable, DbAnswer::Path(Some(path))) => (
                DbStage::Parent,
                DbAction::AskParent(path),
            ),
            (DbStage::Executable, DbAnswer::Path(None)) => self.ask_base(),
            (DbStage::Parent, DbAnswer::Path(Some(dir))) => (
                DbStage::PortableDb,
                DbAction::Look { base: dir, names: names_under_portable_dir() },
            ),
            (DbStage::Parent, DbAnswer::Path(None)) => self.ask_base(),
            (DbStage::PortableDb, DbAnswer::Exists(path)) => (DbStage::Over, DbAction::Use(path)),
            (DbStage::PortableDb, DbAnswer::Missing) => self.ask_base(),
            (DbStage::Base, DbAnswer::Path(Some(dir))) => (
                DbStage::Over,
                DbAction::UseUnder { base: dir, names: names_under_base(self.platform) },
            ),
            (DbStage::Base, DbAnswer::Path(None)) => {
                let reason = match self.platform {
                    Platform::MacOs => "Failed to get home directory",
                    Platform::Windows => "Failed to get APPDATA environment variable",
                    Platform::Linux => "Failed to get home directory",
                };
                (DbStage::Over, DbAction::Fail(reason.to_owned()))
            },
            (stage, _) => (stage, DbAction::Nothing),
        };
        (DbSearch { platform: self.platform, stage }, action)
    }
}

/// How many answers a search still waits for, at most.
pub open spec fn search_rank(stage: DbStage) -> nat {
    match stage {
        DbStage::UserDataDir => 6,
        DbStage::CustomDb => 5,
        DbStage::Executable => 4,
        DbStage::Parent => 3,
        DbStage::PortableDb => 2,
        DbStage::Base => 1,
        DbStage::Over => 0,
    }
}

/// A search comes to an end: each answer that fits brings it nearer, and one that
/// does not fit changes nothing.
pub proof fn law_search_ends<P>(search: DbSearch, answer: DbAnswer<P>)
    ensures
        search_next(search, answer).1 is Nothing ==> search_next(search, answer).0 == search.stage,
        !(search_next(search, answer).1 is Nothing) ==> search_rank(search_next(search, answer).0)
            < search_rank(search.stage),
{
}

/// The state of a search after these answers, and the action it came to.
pub open spec fn search_run<P>(platform: Platform, answers: Seq<DbAnswer<P>>) -> (
    DbStage,
    DbActionView<P>,
)
    decreases answers.len(),
{
    if answers.len() == 0 {
        (DbStage::UserDataDir, DbActionView::AskUserDataDir)
    } else {
        let stage = search_run(platform, answers.drop_last()).0;
        search_next((DbSearch { platform, stage }), answers.last())
    }
}

proof fn lemma_run_more<P>(platform: Platform, answers: Seq<DbAnswer<P>>, answer: DbAnswer<P>)
    ensures
        search_run(platform, answers.push(answer)) == search_next(
            (DbSearch { platform, stage: search_run(platform, answers).0 }),
            answer,
        ),
{
    assert(answers.push(answer).drop_last() =~= answers);
}

/// A database under the data directory of the running process goes before all
/// others, on every platform.
pub proof fn law_custom_database_goes_first<P>(platform: Platform, dir: P, path: P)
    ensures
        search_run(platform, seq![DbAnswer::Path(Some(dir)), DbAnswer::Exists(path)]) == (
            DbStage::Over,
            DbActionView::Use(path),
        ),
{
    let none: Seq<DbAnswer<P>> = Seq::empty();
    lemma_run_more(platform, none, DbAnswer::Path(Some(dir)));
    lemma_run_more(platform, none.push(DbAnswer::Path(Some(dir))), DbAnswer::Exists(path));
    assert(seq![DbAnswer::Path(Some(dir)), DbAnswer::Exists(path)] =~= none.push(
        DbAnswer::Path(Some(dir)),
    ).push(DbAnswer::Exists(path)));
}

/// The database of a portable editor goes next: it is taken where there is none
/// under the data directory of the running process.
pub proof fn law_portable_database_goes_next<P>(
    platform: Platform,
    custom: Option<P>,
    executable: P,
    dir: P,
    path: P,
)
    ensures
        ({
            let asked = seq![DbAnswer::Path(custom)];
            let looked = if custom is Some {
                asked.push(DbAnswer::Missing)
            } else {
                asked
            };
            search_run(
                platform,
                looked.push(DbAnswer::Path(Some(executable))).push(DbAnswer::Path(Some(dir))).push(
                    DbAnswer::Exists(path),
                ),
            ) == (DbStage::Over, DbActionView::Use(path))
        }),
{
    let none: Seq<DbAnswer<P>> = Seq::empty();
    let asked = seq![DbAnswer::Path(custom)];
    let looked = if custom is Some {
        asked.push(DbAnswer::Missing)
    } else {
        asked
    };
    assert(asked =~= none.push(DbAnswer::Path(custom)));
    lemma_run_more(platform, none, DbAnswer::Path(custom));
    lemma_run_more(platform, asked, DbAnswer::Missing);
    let located = looked.push(DbAnswer::Path(Some(executable)));
    lemma_run_more(platform, looked, DbAnswer::Path(Some(executable)));
    lemma_run_more(platform, located, DbAnswer::Path(Some(dir)));
    lemma_run_more(platform, located.push(DbAnswer::Path(Some(dir))), DbAnswer::Exists(path));
}

/// The answers of a search that finds no database under the data directory of the
/// running process, nor one of a portable editor: each directory is not there, or
/// there is nothing under it.
pub open spec fn found_nowhere<P>(
    custom: Option<P>,
    executable: Option<P>,
    parent: Option<P>,
) -> Seq<DbAnswer<P>> {
    let asked = seq![DbAnswer::Path(custom)];
    let looked = if custom is Some {
        asked.push(DbAnswer::Missing)
    } else {
        asked
    };
    let located = looked.push(DbAnswer::Path(executable));
    if executable is None {
        located
    } else if parent is None {
        located.push(DbAnswer::Path(None))
    } else {
        located.push(DbAnswer::Path(parent)).push(DbAnswer::Missing)
    }
}

/// Where there is no other database, the directory of the user counts, whether or
/// not the database is there, and whatever was missing before; without that
/// directory the search fails.
pub proof fn law_standard_database_goes_last<P>(
    platform: Platform,
    custom: Option<P>,
    executable: Option<P>,
    parent: Option<P>,
    base: Option<P>,
)
    ensures
        search_run(platform, found_nowhere(custom, executable, parent)) == ask_base::<P>(platform),
        search_run(
            platform,
            found_nowhere(custom, executable, parent).push(DbAnswer::Path(base)),
        ) == (
            DbStage::Over,
            match base {
                Some(dir) => DbActionView::UseUnder { base: dir, names: under_base(platform) },
                None => DbActionView::Fail(no_base(platform)),
            },
        ),
{
    let none: Seq<DbAnswer<P>> = Seq::empty();
    let asked = seq![DbAnswer::Path(custom)];
    let looked = if custom is Some {
        asked.push(DbAnswer::Missing)
    } else {
        asked
    };
    let located = looked.push(DbAnswer::Path(executable));
    assert(asked =~= none.push(DbAnswer::Path(custom)));
    lemma_run_more(platform, none, DbAnswer::Path(custom));
    lemma_run_more(platform, asked, DbAnswer::Missing);
    lemma_run_more(platform, looked, DbAnswer::Path(executable));
    lemma_run_more(platform, located, DbAnswer::Path(parent));
    lemma_run_more(platform, located.push(DbAnswer::Path(parent)), DbAnswer::Missing);
    lemma_run_more(
        platform,
        found_nowhere(custom, executable, parent),
        DbAnswer::Path(base),
    );
}

} // verus!
