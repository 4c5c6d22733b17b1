//! Actions: what a filter's script is started with, and what is made of
//! how it ended.

use crate::models::filter::{Filter, FilterView};
use crate::time::{rfc2822_text, Timestamp};
use crate::update::entry::{FeedEntry, FeedEntryView};
use vstd::prelude::*;
use vstd::string::*;

verus! {

/// One run of a filter's script on one entry, to be made by the caller.
#[derive(Debug, PartialEq, Eq)]
pub struct ScriptCall {
    /// The path of the script to start.
    pub script_path: String,
    /// The entry's title.
    pub title: String,
    /// The entry's link.
    pub link: String,
    /// The entry's publish date.
    pub pub_date: Timestamp,
}

/// What a script call holds.
pub struct ScriptCallView {
    pub script_path: Seq<char>,
    pub title: Seq<char>,
    pub link: Seq<char>,
    pub pub_date: Timestamp,
}

/// What a script left behind when it ended.
#[derive(Debug, PartialEq, Eq)]
pub struct ProcessOutput {
    pub stdout: String,
    pub stderr: String,
    /// The exit code, `None` if the script was ended by a signal.
    pub code: Option<i32>,
}

/// What a script's output holds.
pub struct ProcessOutputView {
    pub stdout: Seq<char>,
    pub stderr: Seq<char>,
    pub code: Option<i32>,
}

/// How a run of a script ended.
#[derive(Debug, PartialEq, Eq)]
pub enum ScriptResult {
    /// The script ran and ended.
    Exited(ProcessOutput),
    /// The script could not be started.
    NotStarted { reason: String },
}

/// What the end of a run holds.
pub enum ScriptResultView {
    Exited(ProcessOutputView),
    NotStarted { reason: Seq<char> },
}

/// The variable that carries the entry's title to the script.
pub open spec fn title_variable() -> Seq<char> {
    "RSSACTIONS_ENTRY_TITLE"@
}

/// The variable that carries the entry's link to the script.
pub open spec fn link_variable() -> Seq<char> {
    "RSSACTIONS_ENTRY_URL"@
}

/// The variable that carries the entry's publish date to the script.
pub open spec fn date_variable() -> Seq<char> {
    "RSSACTIONS_ENTRY_DATE"@
}

impl View for ScriptCall {
    type V = ScriptCallView;

    open spec fn view(&self) -> ScriptCallView {
        ScriptCallView {
            script_path: self.script_path@,
            title: self.title@,
            link: self.link@,
            pub_date: self.pub_date,
        }
    }
}

impl View for ProcessOutput {
    type V = ProcessOutputView;

    open spec fn view(&self) -> ProcessOutputView {
        ProcessOutputView { stdout: self.stdout@, stderr: self.stderr@, code: self.code }
    }
}

impl DeepView for ProcessOutput {
    type V = ProcessOutputView;

    open spec fn deep_view(&self) -> ProcessOutputView {
        self@
    }
}

impl View for ScriptResult {
    type V = ScriptResultView;

    open spec fn view(&self) -> ScriptResultView {
        match self {
            ScriptResult::Exited(output) => ScriptResultView::Exited(output@),
            ScriptResult::NotStarted { reason } => ScriptResultView::NotStarted { reason: reason@ },
        }
    }
}

impl Clone for ProcessOutput {
    fn clone(&self) -> (r: ProcessOutput)
        ensures
            r@ == self@,
    {
        ProcessOutput {
            stdout: self.stdout.clone(),
            stderr: self.stderr.clone(),
            code: self.code,
        }
    }
}

impl Clone for ScriptResult {
    fn clone(&self) -> (r: ScriptResult)
        ensures
            r@ == self@,
    {
        match self {
            ScriptResult::Exited(output) => ScriptResult::Exited(output.clone()),
            ScriptResult::NotStarted { reason } => ScriptResult::NotStarted {
                reason: reason.clone(),
            },
        }
    }
}

/// The call that runs a filter's script on an entry.
pub open spec fn call_of(filter: FilterView, entry: FeedEntryView) -> ScriptCallView {
    ScriptCallView {
        script_path: filter.script_path,
        title: entry.title,
        link: entry.link,
        pub_date: entry.pub_date,
    }
}

impl ScriptResultView {
    /// The run succeeded: the script ran and ended with exit code zero.
    pub open spec fn succeeded(self) -> bool {
        self matches ScriptResultView::Exited(output) && output.code == Some(0i32)
    }
}

/// The environment of a call, where `date` is the publish date in the feed
/// date format: the three variables and their values.
pub open spec fn environment_of(call: ScriptCallView, date: Seq<char>) -> Seq<
    (Seq<char>, Seq<char>),
> {
    seq![(title_variable(), call.title), (link_variable(), call.link), (date_variable(), date)]
}

/// What a list of pairs of strings holds.
pub open spec fn pairs_view(pairs: Seq<(String, String)>) -> Seq<(Seq<char>, Seq<char>)> {
    pairs.map_values(|p: (String, String)| (p.0@, p.1@))
}

impl ScriptCall {
    /// The call that runs a filter's script on an entry.
    pub fn new(filter: &Filter, entry: &FeedEntry) -> (call: ScriptCall)
        ensures
            call@ == call_of(filter@, entry@),
    {
        ScriptCall {
            script_path: filter.script_path.clone(),
            title: entry.title.clone(),
            link: entry.link.clone(),
            pub_date: entry.pub_date,
        }
    }

    /// The variables to set for the script, beside those it inherits: the
    /// entry's title, its link, and its publish date in the feed date
    /// format. `None` if the format cannot write the date.
    pub fn environment(&self) -> (r: Option<Vec<(String, String)>>)
        ensures
            r is Some <==> self.pub_date.has_text() && rfc2822_text(
                self.pub_date.secs,
                self.pub_date.nanos,
            ) is Some,
            r matches Some(vars) ==> pairs_view(vars@) == environment_of(
                self@,
                rfc2822_text(self.pub_date.secs, self.pub_date.nanos)->0,
            ),
    {
        match self.pub_date.to_rfc2822() {
            Some(date) => Some(self.environment_with(date)),
            None => None,
        }
    }

    /// The variables to set for the script, where `date` is the entry's
    /// publish date in the feed date format.
    pub fn environment_with(&self, date: String) -> (vars: Vec<(String, String)>)
        ensures
            pairs_view(vars@) == environment_of(self@, date@),
    {
        let mut vars: Vec<(String, String)> = Vec::new();
        vars.push(("RSSACTIONS_ENTRY_TITLE".to_owned(), self.title.clone()));
        vars.push(("RSSACTIONS_ENTRY_URL".to_owned(), self.link.clone()));
        vars.push(("RSSACTIONS_ENTRY_DATE".to_owned(), date));
        assert(pairs_view(vars@) =~= environment_of(self@, date@));
        vars
    }
}

impl ScriptResult {
    /// Whether the run succeeded: the script ran and ended with exit code
    /// zero.
    pub fn success(&self) -> (r: bool)
        ensures
            r == self@.succeeded(),
    {
        match self {
            ScriptResult::Exited(output) => match output.code {
                Some(code) => code == 0,
                None => false,
            },
            ScriptResult::NotStarted { .. } => false,
        }
    }
}

} // verus!
