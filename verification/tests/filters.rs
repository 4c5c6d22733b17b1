use rss_actions::{
    AddFeedCmd, AddFilterCmd, ConsoleOutput, Feed, Filter, ListFiltersCmd, RSSActionCmd, RSSActionsDb,
    ScriptFile, StoreError,
};

fn executable() -> ScriptFile {
    ScriptFile::Found { mode: 0o755 }
}

fn to_strings(strs: &[&str]) -> Vec<String> {
    strs.iter().map(|s| s.to_string()).collect()
}

fn example_script_path1() -> &'static str {
    "tests/scripts/print_data"
}

fn example_script_path2() -> &'static str {
    "/bin/false"
}

fn file_name(path: &str) -> &str {
    path.rsplit('/').next().unwrap()
}

fn example_add_feed1() -> AddFeedCmd {
    AddFeedCmd(Feed::new("https://example.com/feed.rss", "example_1").unwrap())
}

fn example_add_feed2() -> AddFeedCmd {
    AddFeedCmd(Feed::new("https://example.org/feed2.rss", "example_2_org").unwrap())
}

fn example_add_filter1() -> AddFilterCmd {
    AddFilterCmd(Filter::new("example_1", to_strings(&["test"]), example_script_path1(), executable()).unwrap())
}

fn example_add_filter2() -> AddFilterCmd {
    AddFilterCmd(
        Filter::new("example_1", to_strings(&["test", "other_keyword"]), example_script_path1(), executable())
            .unwrap(),
    )
}

fn example_add_filter3() -> AddFilterCmd {
    AddFilterCmd(Filter::new("example_1", to_strings(&["test"]), example_script_path2(), executable()).unwrap())
}

fn example_add_filter4() -> AddFilterCmd {
    AddFilterCmd(
        Filter::new("example_2_org", to_strings(&["test", "other_keyword"]), example_script_path1(), executable())
            .unwrap(),
    )
}

fn example_add_filter_bad_feed_alias() -> AddFilterCmd {
    AddFilterCmd(
        Filter::new("example_nonexistant", to_strings(&["fake"]), example_script_path2(), executable()).unwrap(),
    )
}

fn example_add_filter_same_keywords_different_order() -> AddFilterCmd {
    AddFilterCmd(
        Filter::new("example_1", to_strings(&["other_keyword", "test"]), example_script_path1(), executable())
            .unwrap(),
    )
}

/// Displaying no filters shows a "no filters" message.
#[test]
fn display_no_filters() {
    let mut db = RSSActionsDb::open_in_memory();

    let cmd = ListFiltersCmd;

    let res = cmd.execute(&mut db);
    assert!(res.is_ok(), "Executing list command failed: {:?}", res.unwrap_err());

    let output = res.unwrap();
    assert_eq!(output.output(), vec!["No filters in database."]);
}

#[test]
fn display_error_message_on_filter_with_nonexistant_alias() {
    let mut db = RSSActionsDb::open_in_memory();

    let cmd = example_add_filter_bad_feed_alias();
    let res = cmd.execute(&mut db);
    assert!(res.is_err(), "Adding filter without adding feed succeeded incorrectly");

    let err = res.unwrap_err();
    assert_eq!(err, StoreError::UnknownFeed { alias: "example_nonexistant".to_string() });
    assert!(
        err.message().contains("Couldn't find a feed with alias example_nonexistant."),
        "Incorrect error message: {:?}",
        err
    );
    assert!(ListFiltersCmd.execute(&mut db).unwrap().filters.is_empty());
}

#[test]
fn same_feed_different_keywords() {
    let mut db = RSSActionsDb::open_in_memory();
    example_add_feed1().execute(&mut db).unwrap();

    let cmd = example_add_filter1();
    let res = cmd.execute(&mut db);
    assert!(res.is_ok(), "Executing add filter command failed: {:?}", res.unwrap_err());

    let cmd = example_add_filter2();
    let res = cmd.execute(&mut db);
    assert!(res.is_ok(), "Executing add filter command failed: {:?}", res.unwrap_err());

    let cmd = ListFiltersCmd;
    let res = cmd.execute(&mut db);
    assert!(res.is_ok(), "Executing list command failed: {:?}", res.unwrap_err());

    let output = res.unwrap();
    assert!(output.filters.len() == 2);
    assert_eq!(output.filters[0].alias, "example_1");
    assert_eq!(output.filters[0].keywords, ["test"]);
    assert_eq!(file_name(&output.filters[0].script_path), "print_data");
    assert!(output.filters[0].last_updated.is_none());
    assert_eq!(output.filters[1].alias, "example_1");
    assert_eq!(output.filters[1].keywords, ["other_keyword", "test"]);
    assert_eq!(file_name(&output.filters[1].script_path), "print_data");
    assert!(output.filters[1].last_updated.is_none());
}

#[test]
fn same_feed_same_filters_different_script() {
    let mut db = RSSActionsDb::open_in_memory();
    example_add_feed1().execute(&mut db).unwrap();

    let cmd = example_add_filter1();
    let res = cmd.execute(&mut db);
    assert!(res.is_ok(), "Executing add filter command failed: {:?}", res.unwrap_err());

    let cmd = example_add_filter3();
    let res = cmd.execute(&mut db);
    assert!(res.is_ok(), "Executing add filter command failed: {:?}", res.unwrap_err());

    let cmd = ListFiltersCmd;
    let res = cmd.execute(&mut db);
    assert!(res.is_ok(), "Executing list command failed: {:?}", res.unwrap_err());
    let output = res.unwrap();
    assert_eq!(output.filters[0].alias, "example_1");
    assert_eq!(output.filters[0].keywords, ["test"]);
    assert_eq!(file_name(&output.filters[0].script_path), "print_data");
    assert!(output.filters[0].last_updated.is_none());
    assert_eq!(output.filters[1].alias, "example_1");
    assert_eq!(output.filters[1].keywords, ["test"]);
    assert_eq!(file_name(&output.filters[1].script_path), "false");
    assert!(output.filters[1].last_updated.is_none());
}

#[test]
fn same_filters_all_parameters_fails() {
    let mut db = RSSActionsDb::open_in_memory();
    example_add_feed1().execute(&mut db).unwrap();

    let cmd = example_add_filter1();
    let res = cmd.execute(&mut db);
    assert!(res.is_ok(), "Executing add filter command failed: {:?}", res.unwrap_err());

    let cmd = example_add_filter1();
    let res = cmd.execute(&mut db);
    assert!(res.is_err(), "Executing add filter succeeded but should have failed");
    assert_eq!(res.unwrap_err(), StoreError::DuplicateFilter);

    let cmd = ListFiltersCmd;
    let res = cmd.execute(&mut db);
    assert!(res.is_ok(), "Executing list command failed: {:?}", res.unwrap_err());

    let output = res.unwrap();
    assert_eq!(output.filters.len(), 1);
    assert_eq!(output.filters[0].alias, "example_1");
    assert_eq!(output.filters[0].keywords, ["test"]);
    assert_eq!(file_name(&output.filters[0].script_path), "print_data");
    assert!(output.filters[0].last_updated.is_none());
}

#[test]
fn same_filters_different_keyword_order_fails() {
    let mut db = RSSActionsDb::open_in_memory();
    example_add_feed1().execute(&mut db).unwrap();

    let cmd = example_add_filter2();
    let res = cmd.execute(&mut db);
    assert!(res.is_ok(), "Executing add filter command failed: {:?}", res.unwrap_err());

    let cmd = example_add_filter_same_keywords_different_order();
    let res = cmd.execute(&mut db);
    assert!(res.is_err(), "Executing second add filter command suceeded but it shouldn't have");

    let err = res.unwrap_err();
    assert!(
        err.message()
            .contains("You can't add another filter with the same feed alias, keyword, and script path."),
        "Incorrect error message: {:?}",
        err
    );

    let cmd = ListFiltersCmd;
    let res = cmd.execute(&mut db);
    assert!(res.is_ok(), "Executing list command failed: {:?}", res.unwrap_err());

    let output = res.unwrap();
    assert_eq!(output.filters.len(), 1);
    assert_eq!(output.filters[0].alias, "example_1");
    assert_eq!(output.filters[0].keywords, ["other_keyword", "test"]);
    assert_eq!(file_name(&output.filters[0].script_path), "print_data");
    assert!(output.filters[0].last_updated.is_none());
}

#[test]
fn same_filters_different_feed_aliases() {
    let mut db = RSSActionsDb::open_in_memory();
    example_add_feed1().execute(&mut db).unwrap();
    example_add_feed2().execute(&mut db).unwrap();

    let cmd = example_add_filter1();
    let res = cmd.execute(&mut db);
    assert!(res.is_ok(), "Executing add filter command failed: {:?}", res.unwrap_err());

    let cmd = example_add_filter4();
    let res = cmd.execute(&mut db);
    assert!(res.is_ok(), "Executing second add filter command failed: {:?}", res.unwrap_err());

    let cmd = ListFiltersCmd;
    let res = cmd.execute(&mut db);
    assert!(res.is_ok(), "Executing list command failed: {:?}", res.unwrap_err());

    let output = res.unwrap();
    assert_eq!(output.filters[0].alias, "example_1");
    assert_eq!(output.filters[0].keywords, ["test"]);
    assert_eq!(file_name(&output.filters[0].script_path), "print_data");
    assert!(output.filters[0].last_updated.is_none());
    assert_eq!(output.filters[1].alias, "example_2_org");
    assert_eq!(output.filters[1].keywords, ["other_keyword", "test"]);
    assert_eq!(file_name(&output.filters[1].script_path), "print_data");
    assert!(output.filters[1].last_updated.is_none());
}

#[test]
fn add_filter_output_lines() {
    let mut db = RSSActionsDb::open_in_memory();
    let output = example_add_feed1().execute(&mut db).unwrap();
    assert_eq!(output.output(), ["Successfully added feed example_1"]);

    let output = example_add_filter2().execute(&mut db).unwrap();
    assert_eq!(
        output.output(),
        ["Successfully added filter on feed example_1", "Keywords: test, other_keyword"]
    );

    let output = ListFiltersCmd.execute(&mut db).unwrap();
    assert_eq!(
        output.output(),
        ["Current filters:", "", "example_1\tother_keyword, test\tprint_data\tNever updated"]
    );
}
