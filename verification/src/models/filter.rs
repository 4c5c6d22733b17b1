//! A filter: keywords to look for in a feed's entries, the script to run on
//! a match, and the date of the latest entry that it ran on.

use crate::text::{chars_contain, chars_of, occurs_in};
use crate::time::Timestamp;
use vstd::prelude::*;
use vstd::string::*;

verus! {

/// A rule on one feed.
#[derive(Debug, PartialEq, Eq)]
pub struct Filter {
    /// The alias of the feed this filter is on.
    pub alias: String,
    /// The keywords that an entry's title must hold, all of them.
    pub keywords: Vec<String>,
    /// The path to the script to run on matching entries.
    pub script_path: String,
    /// The publish date of the latest entry that the script ran on, `None`
    /// before the first.
    pub last_updated: Option<Timestamp>,
}

/// What a filter holds.
pub struct FilterView {
    pub alias: Seq<char>,
    pub keywords: Seq<Seq<char>>,
    pub script_path: Seq<char>,
    pub last_updated: Option<Timestamp>,
}

/// What the caller found at a script's path.
#[derive(Clone, Copy, Debug, PartialEq, Eq, Structural)]
pub enum ScriptFile {
    /// No regular file.
    Missing,
    /// A regular file with these permission bits.
    Found { mode: u32 },
}

/// Why a filter cannot be made.
#[derive(Debug, PartialEq, Eq)]
pub enum FilterError {
    /// There is no regular file at the script's path.
    NotAFile { path: String },
    /// Nobody may execute the file at the script's path.
    NotExecutable { path: String },
}

/// The permission bits that let the owner, the group or anyone else execute
/// a file.
pub const EXECUTE_BITS: u32 = 0o111;

/// Every keyword occurs in the title, as it is written: capitals count, and
/// a keyword may be part of a longer word. No keywords match every title.
pub open spec fn keywords_match(keywords: Seq<Seq<char>>, title: Seq<char>) -> bool {
    forall|i: int| 0 <= i < keywords.len() ==> occurs_in(#[trigger] keywords[i], title)
}

impl View for Filter {
    type V = FilterView;

    open spec fn view(&self) -> FilterView {
        FilterView {
            alias: self.alias@,
            keywords: self.keywords.deep_view(),
            script_path: self.script_path@,
            last_updated: self.last_updated,
        }
    }
}

impl DeepView for Filter {
    type V = FilterView;

    open spec fn deep_view(&self) -> FilterView {
        self@
    }
}

/// A copy of a list of strings.
pub fn clone_strings(list: &Vec<String>) -> (r: Vec<String>)
    ensures
        r.deep_view() == list.deep_view(),
{
    let mut r: Vec<String> = Vec::new();
    let mut i: usize = 0;
    while i < list.len()
        invariant
            i <= list.len(),
            r.len() == i,
            forall|j: int| 0 <= j < i ==> r[j]@ == list[j]@,
        decreases list.len() - i,
    {
        r.push(list[i].clone());
        i += 1;
    }
    assert(r.deep_view() =~= list.deep_view());
    r
}

impl Clone for Filter {
    fn clone(&self) -> (r: Filter)
        ensures
            r@ == self@,
    {
        Filter {
            alias: self.alias.clone(),
            keywords: clone_strings(&self.keywords),
            script_path: self.script_path.clone(),
            last_updated: self.last_updated,
        }
    }
}

impl Filter {
    /// A filter that has never run, on the feed `alias`. Fails with
    /// `NotAFile` if there is no regular file at the script's path, else
    /// with `NotExecutable` if none of its execute bits is set.
    pub fn new(alias: &str, keywords: Vec<String>, script_path: &str, script: ScriptFile) -> (r:
        Result<Filter, FilterError>)
        ensures
            match r {
                Ok(filter) => {
                    &&& script matches ScriptFile::Found { mode }
                    &&& mode & EXECUTE_BITS != 0
                    &&& filter@ == (FilterView {
                        alias: alias@,
                        keywords: keywords.deep_view(),
                        script_path: script_path@,
                        last_updated: None,
                    })
                },
                Err(FilterError::NotAFile { path }) => script is Missing && path@ == script_path@,
                Err(FilterError::NotExecutable { path }) => {
                    &&& script matches ScriptFile::Found { mode }
                    &&& mode & EXECUTE_BITS == 0
                    &&& path@ == script_path@
                },
            },
    {
        match script {
            ScriptFile::Missing => Err(FilterError::NotAFile { path: script_path.to_owned() }),
            ScriptFile::Found { mode } => {
                if mode & EXECUTE_BITS == 0 {
                    Err(FilterError::NotExecutable { path: script_path.to_owned() })
                } else {
                    Ok(
                        Filter {
                            alias: alias.to_owned(),
                            keywords,
                            script_path: script_path.to_owned(),
                            last_updated: None,
                        },
                    )
                }
            },
        }
    }

    /// Sets the date of the latest entry that the script ran on.
    pub fn update_time(&mut self, update_time: Timestamp)
        ensures
            final(self)@ == (FilterView { last_updated: Some(update_time), ..old(self)@ }),
    {
        self.last_updated = Some(update_time);
    }

    /// Whether the title holds every keyword of this filter.
    pub fn matches_keywords(&self, title: &str) -> (r: bool)
        ensures
            r == keywords_match(self@.keywords, title@),
    {
        let hay = chars_of(title);
        let mut i: usize = 0;
        while i < self.keywords.len()
            invariant
                i <= self.keywords.len(),
                hay@ == title@,
                forall|j: int| 0 <= j < i ==> occurs_in(#[trigger] self@.keywords[j], title@),
            decreases self.keywords.len() - i,
        {
            let needle = chars_of(self.keywords[i].as_str());
            assert(needle@ == self@.keywords[i as int]);
            if !chars_contain(&hay, &needle) {
                return false;
            }
            i += 1;
        }
        true
    }
}

impl FilterError {
    /// The error in words.
    pub open spec fn text(self) -> Seq<char> {
        match self {
            FilterError::NotAFile { path } => "The filter's script path is not a file: "@ + path@,
            FilterError::NotExecutable { path } => "The filter's script path is not executable: "@
                + path@,
        }
    }

    /// The error in words.
    pub fn message(&self) -> (r: String)
        ensures
            r@ == self.text(),
    {
        match self {
            FilterError::NotAFile { path } => String::from_str(
                "The filter's script path is not a file: ",
            ).concat(path.as_str()),
            FilterError::NotExecutable { path } => String::from_str(
                "The filter's script path is not executable: ",
            ).concat(path.as_str()),
        }
    }
}

} // verus!
