//! The arguments of the command line, once parsed, and the command that
//! they ask for.

use crate::commands::inputs::{
    AddFeedCmd, AddFilterCmd, DeleteFeedCmd, DeleteFilterCmd, ListFeedsCmd, ListFiltersCmd,
    UpdateCmd,
};
use crate::commands::outputs::ConsoleOutput;
use crate::commands::RSSActionCmd;
use crate::db::tables::{RSSActionsDb, StoreError, TablesView};
use crate::models::feed::{url_normal_form, Feed, FeedError};
use crate::models::filter::{Filter, FilterError, FilterView, ScriptFile, EXECUTE_BITS};
use vstd::prelude::*;

verus! {

/// The arguments of one invocation.
#[derive(Debug, PartialEq, Eq)]
pub struct RSSActionsArgs {
    cmd: SubArg,
    /// Overrides the default configuration directory.
    config_dir: Option<String>,
}

/// What is asked for.
#[derive(Debug, PartialEq, Eq)]
pub enum SubArg {
    /// Add a feed or filter to the database.
    Add(AddArg),
    /// Delete a feed or filter from the database.
    Delete(DeleteArg),
    /// Display feeds or filters.
    List(ListArg),
    /// Run an update pass.
    Update,
}

/// What to add.
#[derive(Debug, PartialEq, Eq)]
pub struct AddArg {
    pub cmd: AddSubArg,
}

/// A feed or a filter to add.
#[derive(Debug, PartialEq, Eq)]
pub enum AddSubArg {
    Feed(AddFeed),
    Filter(AddFilter),
}

/// The feed to add.
#[derive(Debug, PartialEq, Eq)]
pub struct AddFeed {
    /// The name used to refer to this feed.
    pub alias: String,
    /// The URL of this feed.
    pub url: String,
}

/// The filter to add.
#[derive(Debug, PartialEq, Eq)]
pub struct AddFilter {
    /// The alias of the feed to filter.
    pub alias: String,
    /// The path to the script to run on the matched entries.
    pub script_path: String,
    /// The keywords to filter the entries with.
    pub keywords: Vec<String>,
}

/// What to delete.
#[derive(Debug, PartialEq, Eq)]
pub struct DeleteArg {
    pub cmd: DeleteSubArg,
}

/// A feed or a filter to delete.
#[derive(Debug, PartialEq, Eq)]
pub enum DeleteSubArg {
    Feed(DeleteFeed),
    Filter(DeleteFilter),
}

/// The feed to delete.
#[derive(Debug, PartialEq, Eq)]
pub struct DeleteFeed {
    /// The name used to refer to the feed to be deleted.
    pub alias: String,
}

/// The filter to delete.
#[derive(Debug, PartialEq, Eq)]
pub struct DeleteFilter {
    /// The alias of the feed that the filter to be deleted is on.
    pub alias: String,
    /// Keywords of the filter: not all of them are needed, but enough to
    /// tell the filter from the others on the feed.
    pub keywords: Vec<String>,
}

/// What to display.
#[derive(Debug, PartialEq, Eq)]
pub struct ListArg {
    pub cmd: ListSubArg,
}

/// The feeds or the filters.
#[derive(Clone, Copy, Debug, PartialEq, Eq, Structural)]
pub enum ListSubArg {
    Feeds,
    Filters,
}

/// A command, ready to be carried out.
#[derive(Debug, PartialEq, Eq)]
pub enum Command {
    ListFeeds(ListFeedsCmd),
    ListFilters(ListFiltersCmd),
    AddFeed(AddFeedCmd),
    AddFilter(AddFilterCmd),
    Update(UpdateCmd),
    DeleteFilter(DeleteFilterCmd),
    DeleteFeed(DeleteFeedCmd),
}

/// Why the arguments give no command.
#[derive(Debug, PartialEq, Eq)]
pub enum CliError {
    /// The feed to add cannot be made.
    Feed(FeedError),
    /// The filter to add cannot be made.
    Filter(FilterError),
}

/// A command that puts out lines for a console.
pub trait RSSActionCLICmd {
    /// What the command makes of the store: the tables as it leaves them,
    /// or `None` if it is refused.
    spec fn leaves(&self, store: TablesView) -> Option<TablesView>;

    /// Whether `lines` is what the command puts out when it succeeds on
    /// the store.
    spec fn prints(&self, store: TablesView, lines: Seq<Seq<char>>) -> bool;

    /// Carries out the command in a transaction of its own, which is
    /// committed if the command succeeds and dropped if it is refused, and
    /// hands back what the command puts out as lines for a console.
    fn execute_console(&self, db: &mut RSSActionsDb) -> (r: Result<Vec<String>, StoreError>)
        requires
            old(db)@.wf(),
        ensures
            final(db)@.wf(),
            match self.leaves(old(db)@) {
                Some(next) => r is Ok && final(db)@ == next,
                None => r is Err && final(db)@ == old(db)@,
            },
            r matches Ok(lines) ==> self.prints(old(db)@, lines.deep_view()),
    ;
}

impl<T: RSSActionCmd> RSSActionCLICmd for T where <T as RSSActionCmd>::CmdOutput: ConsoleOutput {
    open spec fn leaves(&self, store: TablesView) -> Option<TablesView> {
        self.applied(store)
    }

    open spec fn prints(&self, store: TablesView, lines: Seq<Seq<char>>) -> bool {
        exists|output: <T as RSSActionCmd>::CmdOutput|
            #[trigger] self.puts_out(store, output) && lines == output.lines()
    }

    fn execute_console(&self, db: &mut RSSActionsDb) -> (r: Result<Vec<String>, StoreError>) {
        match self.execute(db) {
            Ok(output) => Ok(output.output()),
            Err(e) => Err(e),
        }
    }
}

impl RSSActionsArgs {
    /// The arguments that ask for `cmd`, with the configuration directory
    /// if one was given.
    pub fn new(cmd: SubArg, config_dir: Option<String>) -> (args: RSSActionsArgs)
        ensures
            args.subcommand() == cmd,
            args.cfg_dir() == config_dir,
    {
        RSSActionsArgs { cmd, config_dir }
    }

    /// What is asked for.
    pub closed spec fn subcommand(self) -> SubArg {
        self.cmd
    }

    /// The configuration directory, if one was given.
    pub closed spec fn cfg_dir(self) -> Option<String> {
        self.config_dir
    }

    /// The configuration directory, if one was given.
    pub fn get_cfg_dir(&self) -> (dir: Option<&str>)
        ensures
            match dir {
                Some(path) => self.cfg_dir() matches Some(given) && path@ == given@,
                None => self.cfg_dir() is None,
            },
    {
        match &self.config_dir {
            Some(dir) => Some(dir.as_str()),
            None => None,
        }
    }

    /// The command that the arguments ask for. `script` says what was
    /// found at the path of the script of a filter to add; it is not looked
    /// at otherwise. A feed or a filter that cannot be made gives its
    /// error.
    pub fn to_cmd(self, script: ScriptFile) -> (r: Result<Command, CliError>)
        ensures
            match self.subcommand() {
                SubArg::Add(AddArg { cmd: AddSubArg::Feed(feed) }) => match r {
                    Ok(Command::AddFeed(cmd)) => url_normal_form(feed.url@) == Some(cmd.0.url@)
                        && feed.alias@.len() > 0 && cmd.0.alias@ == feed.alias@,
                    Err(CliError::Feed(FeedError::InvalidUrl { url })) => url_normal_form(
                        feed.url@,
                    ) is None && url@ == feed.url@,
                    Err(CliError::Feed(FeedError::EmptyAlias { url })) => url_normal_form(
                        feed.url@,
                    ) == Some(url@) && feed.alias@.len() == 0,
                    _ => false,
                },
                SubArg::Add(AddArg { cmd: AddSubArg::Filter(filter) }) => match r {
                    Ok(Command::AddFilter(cmd)) => {
                        &&& script matches ScriptFile::Found { mode }
                        &&& mode & EXECUTE_BITS != 0
                        &&& cmd.0@ == (FilterView {
                            alias: filter.alias@,
                            keywords: filter.keywords.deep_view(),
                            script_path: filter.script_path@,
                            last_updated: None,
                        })
                    },
                    Err(CliError::Filter(FilterError::NotAFile { path })) => script is Missing
                        && path@ == filter.script_path@,
                    Err(CliError::Filter(FilterError::NotExecutable { path })) => {
                        &&& script matches ScriptFile::Found { mode }
                        &&& mode & EXECUTE_BITS == 0
                        &&& path@ == filter.script_path@
                    },
                    _ => false,
                },
                SubArg::Delete(DeleteArg { cmd: DeleteSubArg::Feed(feed) }) => r matches Ok(
                    Command::DeleteFeed(cmd),
                ) && cmd.0 == feed.alias,
                SubArg::Delete(DeleteArg { cmd: DeleteSubArg::Filter(filter) }) => r matches Ok(
                    Command::DeleteFilter(cmd),
                ) && cmd.0 == filter.alias && cmd.1 == filter.keywords,
                SubArg::List(ListArg { cmd: ListSubArg::Feeds }) => r matches Ok(
                    Command::ListFeeds(_),
                ),
                SubArg::List(ListArg { cmd: ListSubArg::Filters }) => r matches Ok(
                    Command::ListFilters(_),
                ),
                SubArg::Update => r matches Ok(Command::Update(_)),
            },
    {
        match self.cmd {
            SubArg::Add(add_args) => match add_args.cmd {
                AddSubArg::Feed(feed_args) => {
                    match Feed::new(feed_args.url.as_str(), feed_args.alias.as_str()) {
                        Ok(feed) => Ok(Command::AddFeed(AddFeedCmd(feed))),
                        Err(e) => Err(CliError::Feed(e)),
                    }
                },
                AddSubArg::Filter(filter_args) => {
                    match Filter::new(
                        filter_args.alias.as_str(),
                        filter_args.keywords,
                        filter_args.script_path.as_str(),
                        script,
                    ) {
                        Ok(filter) => Ok(Command::AddFilter(AddFilterCmd(filter))),
                        Err(e) => Err(CliError::Filter(e)),
                    }
                },
            },
            SubArg::Delete(delete_args) => match delete_args.cmd {
                DeleteSubArg::Feed(feed_args) => Ok(
                    Command::DeleteFeed(DeleteFeedCmd(feed_args.alias)),
                ),
                DeleteSubArg::Filter(filter_args) => Ok(
                    Command::DeleteFilter(DeleteFilterCmd(filter_args.alias, filter_args.keywords)),
                ),
            },
            SubArg::List(list_args) => match list_args.cmd {
                ListSubArg::Feeds => Ok(Command::ListFeeds(ListFeedsCmd)),
                ListSubArg::Filters => Ok(Command::ListFilters(ListFiltersCmd)),
            },
            SubArg::Update => Ok(Command::Update(UpdateCmd)),
        }
    }
}

impl CliError {
    /// The error in words.
    pub open spec fn text(self) -> Seq<char> {
        match self {
            CliError::Feed(e) => e.text(),
            CliError::Filter(e) => e.text(),
        }
    }

    /// The error in words.
    pub fn message(&self) -> (r: String)
        ensures
            r@ == self.text(),
    {
        match self {
            CliError::Feed(e) => e.message(),
            CliError::Filter(e) => e.message(),
        }
    }
}

} // verus!
