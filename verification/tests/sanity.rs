use rss_actions::{AddFeedCmd, ConsoleOutput, Feed, ListFeedsCmd, RSSActionCmd, RSSActionsDb};

fn example_add_feed1() -> AddFeedCmd {
    AddFeedCmd(Feed::new("https://example.com/feed.rss", "example_1").unwrap())
}

/// What a command commits is there for the next transaction.
#[test]
fn test_config_database_sanity() {
    let mut db = RSSActionsDb::open_in_memory();

    // Add example feed
    let cmd = example_add_feed1();
    let res = cmd.execute(&mut db);
    assert!(res.is_ok(), "Executing add feed command failed: {:?}", res.unwrap_err());

    // Read back example feed we wrote
    let cmd = ListFeedsCmd;
    let res = cmd.execute(&mut db);
    assert!(res.is_ok(), "Executing list feeds command failed: {:?}", res.unwrap_err());

    let output = res.unwrap();
    println!("{:#?}", output);
    assert!(output.feeds.len() == 1);
    assert_eq!(output.feeds[0].alias, "example_1");
    assert_eq!(output.feeds[0].url.to_string(), "https://example.com/feed.rss");
    assert_eq!(output.output(), ["Current feeds:", "", "example_1\thttps://example.com/feed.rss"]);
}

#[test]
fn no_feeds_output_lines() {
    let mut db = RSSActionsDb::open_in_memory();
    let output = ListFeedsCmd.execute(&mut db).unwrap();
    assert_eq!(output.output(), ["No feeds in database."]);
}
