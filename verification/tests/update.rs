use rss_actions::update::read_feed;
use rss_actions::update::FeedFault;
use rss_actions::{
    update, AddFeedCmd, AddFilterCmd, ConsoleOutput, Download, Feed, FeedFailure, Filter, ListFiltersCmd,
    ProcessOutput, RSSActionCmd, RSSActionsDb, ScriptCall, ScriptFile, ScriptResult, Timestamp, UpdateAction,
    UpdateError, UpdateEvent, UpdateOutput, UpdatePass,
};

// The feeds that the tests serve.

const SIMPLE_FEED: &str = r#"<?xml version="1.0" encoding="UTF-8" ?>
<rss version="2.0">
<channel>
 <title>RSS Title</title>
 <description>This is an example of an RSS feed</description>
 <link>http://www.example.com/main.html</link>
 <copyright>2020 Example.com All rights reserved</copyright>
 <lastBuildDate>Mon, 06 Sep 2010 00:01:00 +0000</lastBuildDate>
 <pubDate>Sun, 06 Sep 2009 16:20:00 +0000</pubDate>
 <ttl>1800</ttl>
 <item>
  <title>Example entry</title>
  <description>Here is some text containing an interesting description.</description>
  <link>http://www.example.com/blog/post/1</link>
  <guid isPermaLink="false">7bd204c6-1655-4c27-aeee-53f933c5395f</guid>
  <pubDate>Sun, 06 Sep 2009 16:20:00 +0000</pubDate>
 </item>
</channel>
</rss>
"#;

const TWO_ENTRIES: &str = r#"<?xml version="1.0" encoding="UTF-8" ?>
<rss version="2.0">
<channel>
 <title>RSS Title</title>
 <description>This is an example of an RSS feed</description>
 <link>http://www.example.com/main.html</link>
 <item>
  <title>Example entry NYC with random asthmatic words guestbook interspersed</title>
  <description>The newer entry, which the feed lists first.</description>
  <link>http://www.example.com/blog/post/2</link>
  <pubDate>Sun, 06 Sep 2009 16:20:00 +0000</pubDate>
 </item>
 <item>
  <title>Pizza Example marshmallow entry with random listener words interspersed</title>
  <description>The older entry.</description>
  <link>http://www.example.com/blog/post/1</link>
  <pubDate>Sat, 05 Sep 2009 16:20:00 +0000</pubDate>
 </item>
</channel>
</rss>
"#;

const MISSING_DATA: &str = r#"<?xml version="1.0" encoding="UTF-8" ?>
<rss version="2.0">
<channel>
 <title>RSS Title</title>
 <description>This is an example of an RSS feed with an entry that lacks data</description>
 <link>http://www.example.com/main.html</link>
 <item>
  <title>Complete entry</title>
  <link>http://www.example.com/blog/post/1</link>
  <pubDate>Sun, 06 Sep 2009 16:20:00 +0000</pubDate>
 </item>
 <item>
  <title>Entry with missing pubdate</title>
  <link>http://www.example.com/blog/post/2</link>
 </item>
</channel>
</rss>
"#;

const BAD_FEED: &str = "This is not an RSS feed.\n";

/// The feed of a server that starts with one entry and adds one upon every
/// access. The oldest entries are first.
fn make_feed(count: i64) -> String {
    let mut items = String::new();
    for i in 0..(count + 1) {
        items.push_str(&format!(
            " <item>\n  <title>Item {}</title>\n  <link>https://baddata.example.com/item/{}</link>\n  <pubDate>{:02} Jan 2000 00:00:00 +0000</pubDate>\n </item>\n",
            i,
            i,
            i + 1
        ));
    }
    format!(
        "<?xml version=\"1.0\" encoding=\"UTF-8\" ?>\n<rss version=\"2.0\">\n<channel>\n <title>(non)Dynamic RSS title</title>\n <link>https://baddata.example.com/</link>\n <description>This is an example of a dynamically-generated RSS feed</description>\n{}</channel>\n</rss>\n",
        items
    )
}

/// What stands in for the network and for the scripts: feeds by URL, a
/// count of the accesses of the dynamic feed, and the log that the data
/// script writes.
struct World {
    dynamic_accesses: i64,
    log: String,
    calls: Vec<ScriptCall>,
}

const DATA_SCRIPT: &str = "/tmp/test/data_script.sh";

impl World {
    fn new() -> World {
        World { dynamic_accesses: 0, log: String::new(), calls: Vec::new() }
    }

    fn fetch(&mut self, feed: &Feed) -> Download {
        let name = feed.url.rsplit('/').next().unwrap();
        match name {
            "simple_feed.rss" => Download::Fetched(SIMPLE_FEED.as_bytes().to_vec()),
            "two_entries.rss" => Download::Fetched(TWO_ENTRIES.as_bytes().to_vec()),
            "missing_data.rss" => Download::Fetched(MISSING_DATA.as_bytes().to_vec()),
            "bad_feed.rss" => Download::Fetched(BAD_FEED.as_bytes().to_vec()),
            "updates_every_access.rss" => {
                let count = self.dynamic_accesses;
                self.dynamic_accesses += 1;
                Download::Fetched(make_feed(count).into_bytes())
            }
            _ => Download::Failed { reason: format!("error sending request for url ({})", feed.url) },
        }
    }

    fn run(&mut self, call: &ScriptCall) -> ScriptResult {
        self.calls.push(ScriptCall {
            script_path: call.script_path.clone(),
            title: call.title.clone(),
            link: call.link.clone(),
            pub_date: call.pub_date,
        });
        let env = call.environment().expect("the entry's date has a text");
        let get = |name: &str| env.iter().find(|(k, _)| k == name).map(|(_, v)| v.clone()).unwrap();
        match call.script_path.as_str() {
            DATA_SCRIPT => {
                self.log.push_str("rss action script start\n");
                self.log.push_str(&format!("title: {}\n", get("RSSACTIONS_ENTRY_TITLE")));
                self.log.push_str(&format!("url: {}\n", get("RSSACTIONS_ENTRY_URL")));
                self.log.push_str("rss action script end\n");
                ScriptResult::Exited(ProcessOutput { stdout: String::new(), stderr: String::new(), code: Some(0) })
            }
            "/bin/true" => {
                ScriptResult::Exited(ProcessOutput { stdout: String::new(), stderr: String::new(), code: Some(0) })
            }
            "/bin/false" => {
                ScriptResult::Exited(ProcessOutput { stdout: String::new(), stderr: String::new(), code: Some(1) })
            }
            other => ScriptResult::NotStarted { reason: format!("No such file or directory: {}", other) },
        }
    }

    /// Runs one update pass as a command does: in a transaction that is
    /// committed if the pass ends with a report.
    fn update(&mut self, db: &mut RSSActionsDb) -> Result<UpdateOutput, UpdateError> {
        let mut tx = db.transaction();
        let mut pass = UpdatePass::new();
        let mut event = UpdateEvent::Start;
        loop {
            match update(&mut tx, &mut pass, event)? {
                UpdateAction::Download(feeds) => {
                    event = UpdateEvent::Downloaded(feeds.iter().map(|feed| self.fetch(feed)).collect());
                }
                UpdateAction::RunScript(call) => {
                    event = UpdateEvent::ScriptFinished(self.run(&call));
                }
                UpdateAction::Done(report) => {
                    tx.commit(db);
                    return Ok(report);
                }
            }
        }
    }
}

fn serve(name: &str) -> String {
    format!("http://127.0.0.1:8080/feeds/{}", name)
}

fn add_feed(db: &mut RSSActionsDb, alias: &str, url: &str) {
    AddFeedCmd(Feed::new(url, alias).unwrap()).execute(db).unwrap();
}

fn add_filter(db: &mut RSSActionsDb, alias: &str, keywords: &[&str], script_path: &str) {
    let keywords = keywords.iter().map(|k| k.to_string()).collect();
    AddFilterCmd(Filter::new(alias, keywords, script_path, ScriptFile::Found { mode: 0o755 }).unwrap())
        .execute(db)
        .unwrap();
}

fn file_name(path: &str) -> &str {
    path.rsplit('/').next().unwrap()
}

fn at(secs: i64) -> Timestamp {
    Timestamp { secs, nanos: 0 }
}

/// 2009-09-06 16:20:00 UTC
const SEP_6: i64 = 1_252_254_000;
/// 2000-01-01 00:00:00 UTC
const JAN_1: i64 = 946_684_800;
const DAY: i64 = 86_400;

const SEP_6_TEXT: &str = "Sun, 6 Sep 2009 16:20:00 +0000";
const JAN_1_TEXT: &str = "Sat, 1 Jan 2000 00:00:00 +0000";
const JAN_3_TEXT: &str = "Mon, 3 Jan 2000 00:00:00 +0000";

#[test]
fn test_rss_file_server() {
    let entries = read_feed(SIMPLE_FEED.as_bytes());
    assert!(entries.is_ok(), "Couldn't parse example RSS feed: {:?}", entries.unwrap_err());
    let entries = entries.unwrap();
    assert_eq!(entries.len(), 1);
    assert_eq!(entries[0].title, "Example entry");
    assert_eq!(entries[0].link, "http://www.example.com/blog/post/1");
    assert_eq!(entries[0].pub_date, at(SEP_6));

    assert_eq!(read_feed(BAD_FEED.as_bytes()), Err(FeedFault::Parse));
}

#[test]
fn test_rss_dynamic_server() {
    let entries = read_feed(make_feed(0).as_bytes()).unwrap();
    assert_eq!(entries.len(), 1);
    assert_eq!(entries[0].title, "Item 0");

    let entries = read_feed(make_feed(1).as_bytes()).unwrap();
    assert_eq!(entries.len(), 2);
    assert_eq!(entries[0].title, "Item 0");
    assert_eq!(entries[1].title, "Item 1");

    let entries = read_feed(make_feed(2).as_bytes()).unwrap();
    assert_eq!(entries.len(), 3);
    assert_eq!(entries[2].title, "Item 2");
    assert_eq!(entries[2].link, "https://baddata.example.com/item/2");
    assert_eq!(entries[2].pub_date, at(JAN_1 + 2 * DAY));
}

/// Update with nothing in database says there's nothing to update as long as there are no filters.
#[test]
fn update_empty_db_no_updates() {
    let mut db = RSSActionsDb::open_in_memory();
    let mut world = World::new();

    let res = world.update(&mut db);
    assert!(res.is_ok(), "Error running update with empty database: {:?}", res.unwrap_err());
    assert_eq!(res.unwrap().output(), vec!["No filters in the database to update."]);

    // Add a feed but no filter, still print "Nothing to update."
    add_feed(&mut db, "example_1", "https://example.com/feed.rss");

    let res = world.update(&mut db);
    assert!(res.is_ok(), "Error running update with feed but no filter: {:?}", res.unwrap_err());
    let output = res.unwrap();
    assert_eq!(output.output(), vec!["No filters in the database to update."]);
    assert_eq!((output.successes, output.failures, output.updates), (0, 0, 0));
    assert!(output.executed_feeds.is_empty());
}

/// Update with a filter that hasn't been updated and no matching keywords in feed has no matches
/// and the filter is not updated.
#[test]
fn update_new_filter_but_no_matching_entries() {
    let mut db = RSSActionsDb::open_in_memory();
    let mut world = World::new();

    add_feed(&mut db, "local1", &serve("simple_feed.rss"));
    add_filter(&mut db, "local1", &["xxx"], DATA_SCRIPT);

    // Execute update with filter
    let res = world.update(&mut db);
    assert!(res.is_ok(), "Error running update: {:?}", res.unwrap_err());

    let output = res.unwrap();
    assert_eq!(output.successes, 1);
    assert_eq!(output.updates, 0);
    assert_eq!(output.failures, 0);
    assert_eq!(output.executed_feeds.len(), 1);
    assert_eq!(output.executed_filters.len(), 1);

    // Check that script was not run
    assert!(world.log.is_empty(), "Script was run on non-matching filter: {}", world.log);

    // Check that filters are not updated
    let res = ListFiltersCmd.execute(&mut db);
    assert!(res.is_ok(), "Executing list command failed: {:?}", res.unwrap_err());

    let output = res.unwrap();
    assert_eq!(output.filters.len(), 1);
    assert!(output.filters[0].last_updated.is_none());
}

/// Test that with one un-updated filter, and a keyword-matching rss entry, the script is executed.
#[test]
fn more_recent_entry_updates_filter() {
    let mut db = RSSActionsDb::open_in_memory();
    let mut world = World::new();

    add_feed(&mut db, "local1", &serve("two_entries.rss"));
    add_filter(&mut db, "local1", &["asthmatic", "NYC", "guestbook"], DATA_SCRIPT);

    // Execute update with filter
    let res = world.update(&mut db);
    assert!(res.is_ok(), "Error running update with filter on matching entry: {:?}", res.unwrap_err());

    // Check that only one entry was matched
    let output = res.unwrap();
    assert_eq!(output.successes, 1);
    assert_eq!(output.updates, 1);
    assert_eq!(output.failures, 0);
    assert_eq!(output.executed_feeds.len(), 1);
    assert_eq!(output.executed_filters.len(), 1);

    // Check that script was run once
    let expected_output = vec![
        "rss action script start",
        "title: Example entry NYC with random asthmatic words guestbook interspersed",
        "url: http://www.example.com/blog/post/2",
        "rss action script end\n",
    ]
    .join("\n");
    assert_eq!(world.log, expected_output);

    // Check that filter is updated in db
    let res = ListFiltersCmd.execute(&mut db);
    assert!(res.is_ok(), "Executing list command failed: {:?}", res.unwrap_err());

    let output = res.unwrap();
    assert_eq!(output.filters.len(), 1);
    assert_eq!(output.filters[0].last_updated.unwrap(), at(SEP_6));
}

/// Make sure that when there are two new entries in a feed, the last_updated for that filter is the newest
/// of their pubdates.
#[test]
fn two_matching_entries_updates_last_updated_to_newest() {
    let mut db = RSSActionsDb::open_in_memory();
    let mut world = World::new();

    add_feed(&mut db, "local1", &serve("two_entries.rss"));
    // "Example" is in the title of both entries
    add_filter(&mut db, "local1", &["Example"], DATA_SCRIPT);

    // Execute update with filter
    let res = world.update(&mut db);
    assert!(res.is_ok(), "Error running update with filter on matching entry: {:?}", res.unwrap_err());

    // Check that the output is correct
    let output = res.unwrap();
    assert_eq!(output.successes, 1);
    assert_eq!(output.updates, 1);
    assert_eq!(output.failures, 0);
    assert_eq!(output.executed_feeds.len(), 1);
    assert_eq!(output.executed_filters.len(), 1);

    // Check that script was run twice, and older entry was processed first
    let expected_output = vec![
        "rss action script start",
        "title: Pizza Example marshmallow entry with random listener words interspersed",
        "url: http://www.example.com/blog/post/1",
        "rss action script end",
        "rss action script start",
        "title: Example entry NYC with random asthmatic words guestbook interspersed",
        "url: http://www.example.com/blog/post/2",
        "rss action script end\n",
    ]
    .join("\n");
    assert_eq!(world.log, expected_output);
    assert_eq!(world.calls.len(), 2);
    assert_eq!(world.calls[0].pub_date, at(SEP_6 - DAY));
    assert_eq!(world.calls[1].pub_date, at(SEP_6));
    assert_eq!(output.executed_filters[0].1.as_ref().unwrap().len(), 2);

    // Check that filter is updated in db
    let res = ListFiltersCmd.execute(&mut db);
    assert!(res.is_ok(), "Executing list command failed: {:?}", res.unwrap_err());

    let output = res.unwrap();
    assert_eq!(output.filters.len(), 1);
    assert_eq!(output.filters[0].alias, "local1");
    assert_eq!(output.filters[0].keywords, ["Example"]);
    assert_eq!(file_name(&output.filters[0].script_path), "data_script.sh");
    assert_eq!(output.filters[0].last_updated.unwrap(), at(SEP_6));
}

/// Test that with one updated filter, and a keyword-matching rss entry, the script is not
/// executed. This is achieved by just running update twice and checking via the log that the
/// script was only executed once.
#[test]
fn older_entry_does_not_update_filter() {
    let mut db = RSSActionsDb::open_in_memory();
    let mut world = World::new();

    add_feed(&mut db, "local1", &serve("two_entries.rss"));
    add_filter(&mut db, "local1", &["asthmatic", "NYC", "guestbook"], DATA_SCRIPT);

    // Execute update with filter
    let res = world.update(&mut db);
    assert!(res.is_ok(), "Error running update with filter matching entries: {:?}", res.unwrap_err());

    let output = res.unwrap();
    assert_eq!(output.successes, 1);
    assert_eq!(output.updates, 1);
    assert_eq!(output.failures, 0);
    assert_eq!(output.executed_feeds.len(), 1);
    assert_eq!(output.executed_filters.len(), 1);

    // Execute update again
    let res = world.update(&mut db);
    assert!(res.is_ok(), "Error running update with filter matching entries: {:?}", res.unwrap_err());
    let output = res.unwrap();
    assert_eq!(output.successes, 1);
    assert_eq!(output.updates, 0);
    assert_eq!(output.failures, 0);
    assert_eq!(output.executed_feeds.len(), 1);
    assert_eq!(output.executed_filters.len(), 1);

    // Check that script was run only once
    let expected_output = vec![
        "rss action script start",
        "title: Example entry NYC with random asthmatic words guestbook interspersed",
        "url: http://www.example.com/blog/post/2",
        "rss action script end\n",
    ]
    .join("\n");
    assert_eq!(world.log, expected_output);

    // Check that filter is updated in db
    let res = ListFiltersCmd.execute(&mut db);
    assert!(res.is_ok(), "Executing list command failed: {:?}", res.unwrap_err());

    let output = res.unwrap();
    assert_eq!(output.filters.len(), 1);
    assert_eq!(output.filters[0].alias, "local1");
    assert_eq!(output.filters[0].keywords, ["NYC", "asthmatic", "guestbook"]);
    assert_eq!(file_name(&output.filters[0].script_path), "data_script.sh");
    assert_eq!(output.filters[0].last_updated.unwrap(), at(SEP_6));
}

/// With a feed that gains an entry between two passes, only the new entry is acted on in the
/// second.
#[test]
fn update_filter_with_new_entries_only_processes_new_items() {
    let mut db = RSSActionsDb::open_in_memory();
    let mut world = World::new();

    add_feed(&mut db, "local1", &serve("updates_every_access.rss"));
    add_filter(&mut db, "local1", &["Item"], DATA_SCRIPT);

    // Execute update with filter
    let res = world.update(&mut db);
    assert!(res.is_ok(), "Error running update with filter matching entries: {:?}", res.unwrap_err());

    let output = res.unwrap();
    assert_eq!(output.successes, 1);
    assert_eq!(output.updates, 1);
    assert_eq!(output.failures, 0);
    assert_eq!(output.executed_feeds.len(), 1);
    assert_eq!(output.executed_filters.len(), 1);

    let expected_output = vec![
        "rss action script start",
        "title: Item 0",
        "url: https://baddata.example.com/item/0",
        "rss action script end\n",
    ]
    .join("\n");
    assert_eq!(world.log, expected_output);

    let output = ListFiltersCmd.execute(&mut db).unwrap();
    assert_eq!(output.filters.len(), 1);
    assert_eq!(output.filters[0].alias, "local1");
    assert_eq!(output.filters[0].keywords, ["Item"]);
    assert_eq!(file_name(&output.filters[0].script_path), "data_script.sh");
    assert_eq!(output.filters[0].last_updated.unwrap(), at(JAN_1));

    // Clear the log and run again on the feed with one more entry
    world.log.clear();

    let res = world.update(&mut db);
    assert!(res.is_ok(), "Error running update with filter matching entries: {:?}", res.unwrap_err());

    let output = res.unwrap();
    assert_eq!(output.successes, 1);
    assert_eq!(output.updates, 1);
    assert_eq!(output.failures, 0);
    assert_eq!(output.executed_feeds.len(), 1);
    assert_eq!(output.executed_filters.len(), 1);

    let expected_output = vec![
        "rss action script start",
        "title: Item 1",
        "url: https://baddata.example.com/item/1",
        "rss action script end\n",
    ]
    .join("\n");
    assert_eq!(world.log, expected_output);

    let output = ListFiltersCmd.execute(&mut db).unwrap();
    assert_eq!(output.filters.len(), 1);
    assert_eq!(output.filters[0].alias, "local1");
    assert_eq!(output.filters[0].keywords, ["Item"]);
    assert_eq!(file_name(&output.filters[0].script_path), "data_script.sh");
    assert_eq!(output.filters[0].last_updated.unwrap(), at(JAN_1 + DAY));
}

/// With two filters on two feeds, check that if one updates and the other doesn't, the
/// last_updated times are correct.
#[test]
fn update_one_feed_new_and_one_not_updated() {
    let mut db = RSSActionsDb::open_in_memory();
    let mut world = World::new();

    add_feed(&mut db, "local1", &serve("updates_every_access.rss"));
    add_feed(&mut db, "local2", &serve("simple_feed.rss"));
    add_filter(&mut db, "local1", &["Item"], "/bin/true");
    add_filter(&mut db, "local2", &["Example", "entry"], "/bin/true");

    // Execute update with filters
    let res = world.update(&mut db);
    assert!(res.is_ok(), "Error running update: {:?}", res.unwrap_err());

    let output = res.unwrap();
    assert_eq!(output.successes, 2);
    assert_eq!(output.updates, 2);
    assert_eq!(output.failures, 0);
    assert_eq!(output.executed_feeds.len(), 2);
    assert_eq!(output.executed_filters.len(), 2);

    // List filters and check that both updated
    let output = ListFiltersCmd.execute(&mut db).unwrap();

    assert_eq!(output.filters.len(), 2);
    assert_eq!(output.filters[0].alias, "local2");
    assert_eq!(output.filters[0].keywords, ["Example", "entry"]);
    assert_eq!(file_name(&output.filters[0].script_path), "true");
    assert_eq!(output.filters[0].last_updated.unwrap(), at(SEP_6));
    assert_eq!(output.filters[1].alias, "local1");
    assert_eq!(output.filters[1].keywords, ["Item"]);
    assert_eq!(file_name(&output.filters[1].script_path), "true");
    assert_eq!(output.filters[1].last_updated.unwrap(), at(JAN_1));

    // Execute update again and see that only one filter was updated
    let res = world.update(&mut db);
    assert!(res.is_ok(), "Error running update: {:?}", res.unwrap_err());

    let output = res.unwrap();
    assert_eq!(output.successes, 2);
    assert_eq!(output.updates, 1);
    assert_eq!(output.failures, 0);
    assert_eq!(output.executed_feeds.len(), 2);
    assert_eq!(output.executed_filters.len(), 2);

    // List filters and check that 1 updated and 1 not updated
    let output = ListFiltersCmd.execute(&mut db).unwrap();

    assert_eq!(output.filters.len(), 2);
    assert_eq!(output.filters[0].alias, "local2");
    assert_eq!(output.filters[0].keywords, ["Example", "entry"]);
    assert_eq!(file_name(&output.filters[0].script_path), "true");
    assert_eq!(output.filters[0].last_updated.unwrap(), at(SEP_6));
    assert_eq!(output.filters[1].alias, "local1");
    assert_eq!(output.filters[1].keywords, ["Item"]);
    assert_eq!(file_name(&output.filters[1].script_path), "true");
    assert_eq!(output.filters[1].last_updated.unwrap(), at(JAN_1 + DAY));
}

/// With three feeds and some filters each, check the correct updates are made and that
/// list-filters lists the correct last_updated times.
#[test]
fn update_multiple_filters_with_multiple_feeds() {
    let mut db = RSSActionsDb::open_in_memory();
    let mut world = World::new();

    // Feed 1
    add_feed(&mut db, "local1", &serve("simple_feed.rss"));
    // Will not match
    add_filter(&mut db, "local1", &["Example", "xxx"], DATA_SCRIPT);
    // Will match
    add_filter(&mut db, "local1", &["Example"], DATA_SCRIPT);

    // Feed 2
    add_feed(&mut db, "local2", &serve("two_entries.rss"));

    // Feed 3
    add_feed(&mut db, "local3", &serve("updates_every_access.rss"));
    // Will only match after the third update
    add_filter(&mut db, "local3", &["Item", "2"], DATA_SCRIPT);
    // Will match on the first update
    add_filter(&mut db, "local3", &["Item", "0"], DATA_SCRIPT);

    let res = world.update(&mut db);
    assert!(res.is_ok(), "Failed to execute update {:?}", res.unwrap_err());

    let output = res.unwrap();
    assert_eq!(output.successes, 4);
    assert_eq!(output.updates, 2);
    assert_eq!(output.failures, 0);
    assert_eq!(output.executed_feeds.len(), 3);
    assert_eq!(output.executed_filters.len(), 4);

    // Check that script was run twice
    assert!(world.log.matches("rss action script start").count() == 2, "script output:\n{}", world.log);
    assert!(world.log.matches("title: Item 0").count() == 1, "script output:\n{}", world.log);
    assert!(world.log.matches("title: Example entry").count() == 1, "script output:\n{}", world.log);
    world.log.clear();

    let message = ListFiltersCmd.execute(&mut db).unwrap();
    let filter_line1 = ["local1", "Example", "data_script.sh", SEP_6_TEXT].join("\t");
    let filter_line2 = ["local3", "0, Item", "data_script.sh", JAN_1_TEXT].join("\t");
    let filter_line3 = ["local1", "Example, xxx", "data_script.sh", "Never updated"].join("\t");
    let filter_line4 = ["local3", "2, Item", "data_script.sh", "Never updated"].join("\t");
    assert_eq!(
        message.output(),
        vec!["Current filters:", "", &filter_line1, &filter_line2, &filter_line3, &filter_line4]
    );

    // Update again, nothing should change
    let res = world.update(&mut db);
    assert!(res.is_ok(), "Failed to execute update {:?}", res.unwrap_err());

    let output = res.unwrap();
    assert_eq!(output.successes, 4);
    assert_eq!(output.updates, 0);
    assert_eq!(output.failures, 0);
    assert_eq!(output.executed_feeds.len(), 3);
    assert_eq!(output.executed_filters.len(), 4);

    // Check that script was not run
    assert!(world.log.is_empty(), "Script was run on filter with no updates: {}", world.log);

    let message = ListFiltersCmd.execute(&mut db).unwrap();
    assert_eq!(
        message.output(),
        vec!["Current filters:", "", &filter_line1, &filter_line2, &filter_line3, &filter_line4]
    );

    // Update again, the third feed now has "Item 2"
    let res = world.update(&mut db);
    assert!(res.is_ok(), "Failed to execute update {:?}", res.unwrap_err());

    let output = res.unwrap();
    assert_eq!(output.successes, 4);
    assert_eq!(output.updates, 1);
    assert_eq!(output.failures, 0);
    assert_eq!(output.executed_feeds.len(), 3);
    assert_eq!(output.executed_filters.len(), 4);

    assert_eq!(world.log.matches("rss action script start").count(), 1, "script output:\n{}", world.log);
    assert_eq!(world.log.matches("title: Item 2").count(), 1, "script output:\n{}", world.log);
    assert_eq!(world.log.matches("\n").count(), 4, "script output:\n{}", world.log);
    world.log.clear();

    let message = ListFiltersCmd.execute(&mut db).unwrap();
    let filter_line1 = ["local1", "Example", "data_script.sh", SEP_6_TEXT].join("\t");
    let filter_line2 = ["local3", "2, Item", "data_script.sh", JAN_3_TEXT].join("\t");
    let filter_line3 = ["local3", "0, Item", "data_script.sh", JAN_1_TEXT].join("\t");
    let filter_line4 = ["local1", "Example, xxx", "data_script.sh", "Never updated"].join("\t");
    assert_eq!(
        message.output(),
        vec!["Current filters:", "", &filter_line1, &filter_line2, &filter_line3, &filter_line4]
    );

    // Add a filter on the second feed
    add_filter(&mut db, "local2", &["interspersed"], DATA_SCRIPT);

    let message = ListFiltersCmd.execute(&mut db).unwrap();
    let filter_line5 = ["local2", "interspersed", "data_script.sh", "Never updated"].join("\t");
    assert_eq!(
        message.output(),
        vec!["Current filters:", "", &filter_line1, &filter_line2, &filter_line3, &filter_line4, &filter_line5]
    );

    let res = world.update(&mut db);
    assert!(res.is_ok(), "Failed to execute update {:?}", res.unwrap_err());

    let output = res.unwrap();
    assert_eq!(output.successes, 5);
    assert_eq!(output.updates, 1);
    assert_eq!(output.failures, 0);
    assert_eq!(output.executed_feeds.len(), 3);
    assert_eq!(output.executed_filters.len(), 5);

    assert_eq!(world.log.matches("rss action script start").count(), 2, "script output:\n{}", world.log);
    assert_eq!(
        world
            .log
            .matches("title: Example entry NYC with random asthmatic words guestbook interspersed")
            .count(),
        1,
        "script output:\n{}",
        world.log
    );
    assert_eq!(
        world
            .log
            .matches("title: Pizza Example marshmallow entry with random listener words interspersed")
            .count(),
        1,
        "script output:\n{}",
        world.log
    );
    assert_eq!(world.log.matches("\n").count(), 8, "script output:\n{}", world.log);
    world.log.clear();

    let message = ListFiltersCmd.execute(&mut db).unwrap();
    let filter_line1 = ["local1", "Example", "data_script.sh", SEP_6_TEXT].join("\t");
    let filter_line2 = ["local2", "interspersed", "data_script.sh", SEP_6_TEXT].join("\t");
    let filter_line3 = ["local3", "2, Item", "data_script.sh", JAN_3_TEXT].join("\t");
    let filter_line4 = ["local3", "0, Item", "data_script.sh", JAN_1_TEXT].join("\t");
    let filter_line5 = ["local1", "Example, xxx", "data_script.sh", "Never updated"].join("\t");
    let expected =
        vec!["Current filters:", "", &filter_line1, &filter_line2, &filter_line3, &filter_line4, &filter_line5];
    assert_eq!(
        message.output(),
        expected,
        "\n---output:\n{}\n\n\n---expected:\n{}",
        message.output().join("\n"),
        expected.join("\n")
    );

    // Update once more, nothing should change
    let res = world.update(&mut db);
    assert!(res.is_ok(), "Failed to execute update {:?}", res.unwrap_err());
    let output = res.unwrap();
    assert_eq!(output.successes, 5);
    assert_eq!(output.updates, 0);
    assert_eq!(output.failures, 0);
    assert_eq!(output.executed_feeds.len(), 3);
    assert_eq!(output.executed_filters.len(), 5);

    assert!(world.log.is_empty(), "Script was run on filter with no updates: {}", world.log);

    let message = ListFiltersCmd.execute(&mut db).unwrap();
    assert_eq!(
        message.output(),
        expected,
        "\n---output:\n{}\n\n\n---expected:\n{}",
        message.output().join("\n"),
        expected.join("\n")
    );
}

/// Update with a filter where only some of the keywords are in the entry's title does not run the
/// script.
#[test]
fn update_new_filter_with_partially_matching_entries() {
    let mut db = RSSActionsDb::open_in_memory();
    let mut world = World::new();

    add_feed(&mut db, "local1", &serve("simple_feed.rss"));
    add_filter(&mut db, "local1", &["Example", "xxx"], DATA_SCRIPT);

    // Execute update with filter
    let res = world.update(&mut db);
    assert!(res.is_ok(), "Error running update: {:?}", res.unwrap_err());

    let output = res.unwrap();
    assert_eq!(output.successes, 1);
    assert_eq!(output.updates, 0);
    assert_eq!(output.failures, 0);
    assert_eq!(output.executed_feeds.len(), 1);
    assert_eq!(output.executed_filters.len(), 1);

    assert!(world.log.is_empty(), "Script was run on non-matching filter: {}", world.log);
}

/// If one feed cannot be downloaded, the filters on the others are still run.
#[test]
fn update_with_one_feed_failing_succeeds() {
    let mut db = RSSActionsDb::open_in_memory();
    let mut world = World::new();

    add_feed(&mut db, "local1", "http://169.254.0.1/doesNotExist.rss");
    add_filter(&mut db, "local1", &["xxx"], DATA_SCRIPT);
    add_feed(&mut db, "local2", &serve("simple_feed.rss"));
    add_filter(&mut db, "local2", &["Example", "entry"], DATA_SCRIPT);

    // Execute update with filter
    let res = world.update(&mut db);
    assert!(res.is_ok(), "Error running update with one failing server: {:?}", res.unwrap_err());

    let output = res.unwrap();
    assert_eq!(output.successes, 1);
    assert_eq!(output.updates, 1);
    assert_eq!(output.failures, 1);
    assert_eq!(output.executed_feeds.len(), 2);
    assert_eq!(output.executed_filters.len(), 1);
    assert!(matches!(output.executed_feeds[0].1, Err(FeedFailure::Download { .. })));
    assert_eq!(output.executed_feeds[1].1, Ok(()));
    assert_eq!(
        output.output()[3],
        "Failed to download local1 rss feed from url http://169.254.0.1/doesNotExist.rss"
    );

    // Check that script was run once
    let expected_output = vec![
        "rss action script start",
        "title: Example entry",
        "url: http://www.example.com/blog/post/1",
        "rss action script end\n",
    ]
    .join("\n");
    assert_eq!(world.log, expected_output);

    // List filters and check that it says not updated
    let message = ListFiltersCmd.execute(&mut db).unwrap();
    let filter_line1 = ["local2", "Example, entry", "data_script.sh", SEP_6_TEXT].join("\t");
    let filter_line2 = ["local1", "xxx", "data_script.sh", "Never updated"].join("\t");
    assert_eq!(message.output(), vec!["Current filters:", "", &filter_line1, &filter_line2]);
}

/// If one feed gives bytes that are no feed, the filters on the others are still run.
#[test]
fn update_with_one_feed_bad_data_succeeds() {
    let mut db = RSSActionsDb::open_in_memory();
    let mut world = World::new();

    let bad_feed_url = serve("bad_feed.rss");
    add_feed(&mut db, "local1", &bad_feed_url);
    add_filter(&mut db, "local1", &["xxx"], DATA_SCRIPT);
    add_feed(&mut db, "local2", &serve("simple_feed.rss"));
    add_filter(&mut db, "local2", &["Example", "entry"], DATA_SCRIPT);

    // Execute update with filter
    let res = world.update(&mut db);
    assert!(res.is_ok(), "Error running update with one failing server: {:?}", res.unwrap_err());

    let output = res.unwrap();
    assert_eq!(output.successes, 1);
    assert_eq!(output.updates, 1);
    assert_eq!(output.failures, 1);
    assert_eq!(output.executed_feeds.len(), 2);
    assert_eq!(output.executed_filters.len(), 1);
    assert_eq!(output.executed_feeds[0].1, Err(FeedFailure::Parse));
    assert_eq!(
        output.output()[3],
        format!("Could not parse local1 rss feed from url {}", bad_feed_url)
    );

    // Check that script was run once
    let expected_output = vec![
        "rss action script start",
        "title: Example entry",
        "url: http://www.example.com/blog/post/1",
        "rss action script end\n",
    ]
    .join("\n");
    assert_eq!(world.log, expected_output);

    // List filters and check that it says not updated
    let message = ListFiltersCmd.execute(&mut db).unwrap();
    let filter_line1 = ["local2", "Example, entry", "data_script.sh", SEP_6_TEXT].join("\t");
    let filter_line2 = ["local1", "xxx", "data_script.sh", "Never updated"].join("\t");
    assert_eq!(message.output(), vec!["Current filters:", "", &filter_line1, &filter_line2]);
}

/// If no feed can be downloaded, the pass ends with one error and nothing is stored.
#[test]
fn all_feeds_fail_download_network_message() {
    let mut db = RSSActionsDb::open_in_memory();
    let mut world = World::new();

    add_feed(&mut db, "local1", "http://169.254.0.1/doesNotExist.rss");
    add_feed(&mut db, "local2", "http://169.254.0.2/alsoFake.rss");
    add_filter(&mut db, "local1", &["xxx"], "/bin/false");
    add_filter(&mut db, "local2", &["Nothing"], "/bin/false");

    // Execute update and check for "network error" message
    let res = world.update(&mut db);
    assert!(res.is_err(), "Update succeeded with all servers failing: {:?}", res.unwrap());
    let err = res.unwrap_err();
    assert_eq!(err, UpdateError::AllDownloadsFailed);
    assert_eq!(err.message(), "All RSS feed downloads failed. Is the network down?");

    // List filters and check that it says not updated
    let message = ListFiltersCmd.execute(&mut db).unwrap();
    let filter_line1 = ["local1", "xxx", "false", "Never updated"].join("\t");
    let filter_line2 = ["local2", "Nothing", "false", "Never updated"].join("\t");
    assert_eq!(message.output(), vec!["Current filters:", "", &filter_line1, &filter_line2]);
}

/// If a feed has items that are missing titles, urls, or published dates, make sure that the
/// filter's script is not run and its last_updated is not changed.
#[test]
fn feed_with_missing_data_does_not_update_filter() {
    let mut db = RSSActionsDb::open_in_memory();
    let mut world = World::new();

    // first feed, with missing rss entry data
    add_feed(&mut db, "local1", &serve("missing_data.rss"));
    add_filter(&mut db, "local1", &["pubdate", "missing"], DATA_SCRIPT);

    // feed two is fine
    add_feed(&mut db, "local2", &serve("simple_feed.rss"));
    add_filter(&mut db, "local2", &["Example", "entry"], DATA_SCRIPT);

    // Execute update with filter
    let res = world.update(&mut db);
    assert!(res.is_ok(), "Error running update with one feed with missing data: {:?}", res.unwrap_err());

    let output = res.unwrap();
    assert_eq!(output.successes, 1);
    assert_eq!(output.updates, 1);
    assert_eq!(output.failures, 1);
    assert_eq!(output.executed_feeds.len(), 2);
    assert_eq!(output.executed_filters.len(), 1);
    assert_eq!(output.executed_feeds[0].1, Err(FeedFailure::Data { invalid: 1 }));
    assert_eq!(output.output()[3], "1 entries in feed local1 had data errors");

    // Check that script was run once
    let expected_output = vec![
        "rss action script start",
        "title: Example entry",
        "url: http://www.example.com/blog/post/1",
        "rss action script end\n",
    ]
    .join("\n");
    assert_eq!(world.log, expected_output);

    // List filters and check that it says not updated
    let message = ListFiltersCmd.execute(&mut db).unwrap();
    let filter_line1 = ["local2", "Example, entry", "data_script.sh", SEP_6_TEXT].join("\t");
    let filter_line2 = ["local1", "missing, pubdate", "data_script.sh", "Never updated"].join("\t");
    assert_eq!(message.output(), ["Current filters:", "", &filter_line1, &filter_line2]);
}

/// If a filter's script exits with a non-zero exit code, make sure the filter's last_updated is
/// not changed.
#[test]
fn feed_with_failing_script_does_not_update_filter() {
    let mut db = RSSActionsDb::open_in_memory();
    let mut world = World::new();

    add_feed(&mut db, "local1", &serve("two_entries.rss"));

    // two filters, both match but first filter's script will always fails
    add_filter(&mut db, "local1", &["Example", "entry"], "/bin/false");
    add_filter(&mut db, "local1", &["entry"], "/bin/true");

    // Execute update with filter
    let res = world.update(&mut db);
    assert!(res.is_ok(), "Error running update with failing script: {:?}", res.unwrap_err());

    let output = res.unwrap();
    assert_eq!(output.successes, 1);
    assert_eq!(output.updates, 1);
    assert_eq!(output.failures, 1);
    assert_eq!(output.executed_feeds.len(), 1);
    assert_eq!(output.executed_filters.len(), 2);
    assert!(output.executed_filters[0].1.is_err());
    assert_eq!(
        output.output()[3],
        "Script failed for filter on feed local1, keywords Example, entry, script /bin/false"
    );

    // The failing script ran on the older entry only; the other script ran on both.
    let ran: Vec<(&str, &str)> =
        world.calls.iter().map(|call| (file_name(&call.script_path), call.link.as_str())).collect();
    assert_eq!(
        ran,
        [
            ("false", "http://www.example.com/blog/post/1"),
            ("true", "http://www.example.com/blog/post/1"),
            ("true", "http://www.example.com/blog/post/2"),
        ]
    );

    // List filters and check that it says not updated
    let message = ListFiltersCmd.execute(&mut db).unwrap();
    let filter_line1 = ["local1", "entry", "true", SEP_6_TEXT].join("\t");
    let filter_line2 = ["local1", "Example, entry", "false", "Never updated"].join("\t");
    assert_eq!(message.output(), ["Current filters:", "", &filter_line1, &filter_line2]);
}
