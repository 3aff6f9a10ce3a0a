//! What holds of the search for the editor's database, name by name.
use vstd::prelude::*;

use crate::db::{
    ask_base, executable_path, no_base, search_next, settled, under_base, under_data_dir,
    under_portable_dir, Candidate, DbActionView, DbAnswer, DbSearch, DbStage, ExecutableSearch,
    Platform,
};

verus! {

/// What the database is called, in each of the places where it is looked for.
pub proof fn law_database_names()
    ensures
        under_data_dir() == seq!["User"@, "globalStorage"@, "state.vscdb"@],
        under_portable_dir() == seq![
            "data"@,
            "user-data"@,
            "User"@,
            "globalStorage"@,
            "state.vscdb"@,
        ],
        under_base(Platform::MacOs) == seq![
            "Library/Application Support/Antigravity/User/globalStorage/state.vscdb"@,
        ],
        under_base(Platform::Windows) == seq!["Antigravity\\User\\globalStorage\\state.vscdb"@],
        under_base(Platform::Linux) == seq![".config/Antigravity/User/globalStorage/state.vscdb"@],
{
}

/// The directory of the user: the home directory, but on Windows the one that
/// `APPDATA` names.
pub proof fn law_base_directory<P>()
    ensures
        ask_base::<P>(Platform::MacOs).1 == DbActionView::<P>::AskHome,
        ask_base::<P>(Platform::Linux).1 == DbActionView::<P>::AskHome,
        ask_base::<P>(Platform::Windows).1 == DbActionView::<P>::AskAppData,
        no_base(Platform::MacOs) == "Failed to get home directory"@,
        no_base(Platform::Linux) == "Failed to get home directory"@,
        no_base(Platform::Windows) == "Failed to get APPDATA environment variable"@,
{
}

/// The database is looked for under the very directory that was asked for: under the
/// data directory of the running process, and under the directory that holds the
/// executable.
pub proof fn law_looks_where_it_was_told<P>(platform: Platform, dir: P, executable: P)
    ensures
        search_next(
            (DbSearch { platform, stage: DbStage::UserDataDir }),
            DbAnswer::Path(Some(dir)),
        ).1 == (DbActionView::Look {
            base: dir,
            names: seq!["User"@, "globalStorage"@, "state.vscdb"@],
        }),
        ({
            let located = search_next(
                (DbSearch { platform, stage: DbStage::Executable }),
                DbAnswer::Path(Some(executable)),
            );
            &&& located.1 == DbActionView::AskParent(executable)
            &&& search_next(
                (DbSearch { platform, stage: located.0 }),
                DbAnswer::Path(Some(dir)),
            ).1 == (DbActionView::Look {
                base: dir,
                names: seq![
                    "data"@,
                    "user-data"@,
                    "User"@,
                    "globalStorage"@,
                    "state.vscdb"@,
                ],
            })
        }),
{
}

/// Whether a path is asked for at this stage.
pub open spec fn asks_for_a_path(stage: DbStage) -> bool {
    stage is UserDataDir || stage is Executable || stage is Parent || stage is Base
}

/// Whether a database is looked for at this stage.
pub open spec fn looks_for_a_database(stage: DbStage) -> bool {
    stage is CustomDb || stage is PortableDb
}

/// An answer to a question that was not asked changes nothing; a database that is
/// there is the result, at either place where it is looked for.
pub proof fn law_search_takes_only_answers<P>(search: DbSearch, answer: DbAnswer<P>, path: P)
    ensures
        answer is Path && !asks_for_a_path(search.stage) ==> search_next(search, answer) == (
            search.stage,
            DbActionView::<P>::Nothing,
        ),
        !(answer is Path) && !looks_for_a_database(search.stage) ==> search_next(search, answer)
            == (search.stage, DbActionView::<P>::Nothing),
        looks_for_a_database(search.stage) ==> search_next(search, DbAnswer::Exists(path)) == (
            DbStage::Over,
            DbActionView::Use(path),
        ),
{
}

/// The configured executable counts where it exists; else that of the process does.
pub proof fn law_executable<P>(path: P, process: Option<P>)
    ensures
        executable_path(Some(Candidate { path, exists: true }), process) == Some(path),
        executable_path(Some(Candidate { path, exists: false }), process) == process,
        executable_path(None, process) == process,
        settled(ExecutableSearch::Found(path), process) == Some(path),
        settled(ExecutableSearch::AskProcess, process) == process,
{
}

} // verus!
