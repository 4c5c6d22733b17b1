use rss_actions::{AddFeedCmd, Feed, ListFeedsCmd, RSSActionCmd, RSSActionsDb, StoreError};

fn example_add_feed1() -> AddFeedCmd {
    AddFeedCmd(Feed::new("https://example.com/feed.rss", "example_1").unwrap())
}

fn example_add_feed2() -> AddFeedCmd {
    AddFeedCmd(Feed::new("https://example.org/feed2.rss", "example_2_org").unwrap())
}

/// Displaying no feeds shows a "no feeds" message.
#[test]
fn display_no_feeds() {
    let mut db = RSSActionsDb::open_in_memory();

    let cmd = ListFeedsCmd;

    // execute list feeds command with no feeds in db
    let res = cmd.execute(&mut db);
    assert!(res.is_ok(), "Executing list command failed: {:?}", res.unwrap_err());

    let output = res.unwrap();
    assert!(output.feeds.is_empty());
}

/// Add one feed and display it
#[test]
fn add_and_display_feed() {
    let mut db = RSSActionsDb::open_in_memory();

    // Add example feed
    let cmd = example_add_feed1();
    let res = cmd.execute(&mut db);
    assert!(res.is_ok(), "Executing add feed command failed: {:?}", res.unwrap_err());

    // Execute list feeds command with 1 feed in db
    let cmd = ListFeedsCmd;
    let res = cmd.execute(&mut db);
    assert!(res.is_ok(), "Executing list command failed: {:?}", res.unwrap_err());

    // Check feed is listed
    let output = res.unwrap();
    assert!(output.feeds.len() == 1);
    assert_eq!(output.feeds[0].alias, "example_1");
    assert_eq!(output.feeds[0].url.to_string(), "https://example.com/feed.rss");
}

/// Add multiple feeds and display them, based on addition order
#[test]
fn add_and_display_feeds() {
    let mut db = RSSActionsDb::open_in_memory();

    // Add first example feed
    let cmd = example_add_feed1();
    let res = cmd.execute(&mut db);
    assert!(res.is_ok(), "Executing add feed command failed: {:?}", res.unwrap_err());

    // Add second example feed
    let cmd = example_add_feed2();
    let res = cmd.execute(&mut db);
    assert!(res.is_ok(), "Executing add feed command failed: {:?}", res.unwrap_err());

    let cmd = ListFeedsCmd;
    let res = cmd.execute(&mut db);
    assert!(res.is_ok(), "Executing list command failed: {:?}", res.unwrap_err());

    // Check feed is listed
    let output = res.unwrap();
    assert!(output.feeds.len() == 2);
    assert_eq!(output.feeds[0].alias, "example_1");
    assert_eq!(output.feeds[0].url.to_string(), "https://example.com/feed.rss");
    assert_eq!(output.feeds[1].alias, "example_2_org");
    assert_eq!(output.feeds[1].url.to_string(), "https://example.org/feed2.rss");
}

/// Add two of the same feed and get an error
#[test]
fn add_duplicate_feed_and_error() {
    let mut db = RSSActionsDb::open_in_memory();

    // Add first example feed
    let cmd = example_add_feed1();
    let res = cmd.execute(&mut db);
    assert!(res.is_ok(), "Executing add feed command failed: {:?}", res.unwrap_err());

    // Add first example feed again
    let cmd = example_add_feed1();
    let res = cmd.execute(&mut db);

    // Second, duplicate, addition should fail
    assert!(res.is_err(), "Adding duplicate feed didn't fail");
    let err = res.unwrap_err();
    assert_eq!(err, StoreError::DuplicateFeed { alias: "example_1".to_string() });
    assert!(err.message().contains("UNIQUE constraint failed: feeds.alias"));

    let output = ListFeedsCmd.execute(&mut db).unwrap();
    assert_eq!(output.feeds.len(), 1);
}

/// A feed of the same alias at another URL is a duplicate too.
#[test]
fn add_feed_with_taken_alias_and_error() {
    let mut db = RSSActionsDb::open_in_memory();
    example_add_feed1().execute(&mut db).unwrap();

    let cmd = AddFeedCmd(Feed::new("https://example.net/other.rss", "example_1").unwrap());
    assert_eq!(cmd.execute(&mut db).unwrap_err(), StoreError::DuplicateFeed { alias: "example_1".to_string() });

    let output = ListFeedsCmd.execute(&mut db).unwrap();
    assert_eq!(output.feeds.len(), 1);
    assert_eq!(output.feeds[0].url, "https://example.com/feed.rss");
}
