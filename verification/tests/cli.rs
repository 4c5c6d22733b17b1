use rss_actions::cli::{
    AddArg, AddFeed, AddFilter, AddSubArg, CliError, Command, DeleteArg, DeleteFeed, DeleteFilter, DeleteSubArg,
    ListArg, ListSubArg,
};
use rss_actions::{
    AddFeedCmd, AddFilterCmd, Config, DeleteFeedCmd, DeleteFilterCmd, Feed, FeedError, Filter, FilterError,
    ListFeedsCmd, ListFiltersCmd, RSSActionCLICmd, RSSActionsArgs, RSSActionsDb, ScriptFile, StoreError, SubArg,
    UpdateCmd,
};

fn found() -> ScriptFile {
    ScriptFile::Found { mode: 0o755 }
}

#[test]
fn config_directory_is_handed_out_if_given() {
    let args = RSSActionsArgs::new(SubArg::Update, Some("/etc/rss".to_string()));
    assert_eq!(args.get_cfg_dir(), Some("/etc/rss"));
    let args = RSSActionsArgs::new(SubArg::Update, None);
    assert_eq!(args.get_cfg_dir(), None);
}

#[test]
fn list_and_update_arguments_give_their_commands() {
    let list = |cmd| RSSActionsArgs::new(SubArg::List(ListArg { cmd }), None);
    assert_eq!(list(ListSubArg::Feeds).to_cmd(ScriptFile::Missing), Ok(Command::ListFeeds(ListFeedsCmd)));
    assert_eq!(list(ListSubArg::Filters).to_cmd(ScriptFile::Missing), Ok(Command::ListFilters(ListFiltersCmd)));
    assert_eq!(
        RSSActionsArgs::new(SubArg::Update, None).to_cmd(ScriptFile::Missing),
        Ok(Command::Update(UpdateCmd))
    );
}

#[test]
fn delete_arguments_give_their_commands() {
    let args = RSSActionsArgs::new(
        SubArg::Delete(DeleteArg { cmd: DeleteSubArg::Feed(DeleteFeed { alias: "a".into() }) }),
        None,
    );
    assert_eq!(args.to_cmd(ScriptFile::Missing), Ok(Command::DeleteFeed(DeleteFeedCmd("a".into()))));

    let args = RSSActionsArgs::new(
        SubArg::Delete(DeleteArg {
            cmd: DeleteSubArg::Filter(DeleteFilter { alias: "a".into(), keywords: vec!["k".into(), "l".into()] }),
        }),
        None,
    );
    assert_eq!(
        args.to_cmd(ScriptFile::Missing),
        Ok(Command::DeleteFilter(DeleteFilterCmd("a".into(), vec!["k".into(), "l".into()])))
    );
    assert_eq!(DeleteFilterCmd::new("a", &["k", "l"]), DeleteFilterCmd("a".into(), vec!["k".into(), "l".into()]));
    assert_eq!(DeleteFilterCmd::new("", &[]), DeleteFilterCmd(String::new(), Vec::new()));
}

#[test]
fn add_feed_arguments_give_a_feed_or_its_error() {
    let add = |alias: &str, url: &str| {
        RSSActionsArgs::new(
            SubArg::Add(AddArg { cmd: AddSubArg::Feed(AddFeed { alias: alias.into(), url: url.into() }) }),
            None,
        )
    };
    assert_eq!(
        add("news", "https://example.com/feed.rss").to_cmd(ScriptFile::Missing),
        Ok(Command::AddFeed(AddFeedCmd(Feed { url: "https://example.com/feed.rss".into(), alias: "news".into() })))
    );
    assert_eq!(
        add("news", "example.com").to_cmd(found()),
        Err(CliError::Feed(FeedError::InvalidUrl { url: "example.com".into() }))
    );
    let err = add("", "https://example.com/feed.rss").to_cmd(found()).unwrap_err();
    assert_eq!(err, CliError::Feed(FeedError::EmptyAlias { url: "https://example.com/feed.rss".into() }));
    assert_eq!(err.message(), "A feed's alias must not be empty. https://example.com/feed.rss");
}

#[test]
fn add_filter_arguments_give_a_filter_or_its_error() {
    let add = || {
        RSSActionsArgs::new(
            SubArg::Add(AddArg {
                cmd: AddSubArg::Filter(AddFilter {
                    alias: "news".into(),
                    script_path: "/opt/act".into(),
                    keywords: vec!["b".into(), "a".into()],
                }),
            }),
            Some("dir".into()),
        )
    };
    let expected = Filter {
        alias: "news".into(),
        keywords: vec!["b".into(), "a".into()],
        script_path: "/opt/act".into(),
        last_updated: None,
    };
    assert_eq!(add().to_cmd(found()), Ok(Command::AddFilter(AddFilterCmd(expected))));
    assert_eq!(
        add().to_cmd(ScriptFile::Missing),
        Err(CliError::Filter(FilterError::NotAFile { path: "/opt/act".into() }))
    );
    let err = add().to_cmd(ScriptFile::Found { mode: 0o600 }).unwrap_err();
    assert_eq!(err, CliError::Filter(FilterError::NotExecutable { path: "/opt/act".into() }));
    assert_eq!(err.message(), "The filter's script path is not executable: /opt/act");
}

#[test]
fn config_holds_the_database_path() {
    let cfg = Config { db_path: "/var/lib/rss-actions/rss-actions.db".to_string() };
    assert_eq!(cfg.clone(), cfg);
}

#[test]
fn commands_put_out_lines_for_a_console() {
    let mut db = RSSActionsDb::open_in_memory();
    assert_eq!(ListFeedsCmd.execute_console(&mut db), Ok(vec!["No feeds in database.".to_string()]));
    assert_eq!(ListFiltersCmd.execute_console(&mut db), Ok(vec!["No filters in database.".to_string()]));

    let add = AddFeedCmd(Feed::new("https://example.com/feed.rss", "news").unwrap());
    assert_eq!(add.execute_console(&mut db), Ok(vec!["Successfully added feed news".to_string()]));
    assert_eq!(add.execute_console(&mut db), Err(StoreError::DuplicateFeed { alias: "news".to_string() }));

    let filter = Filter::new("news", vec!["b".into(), "a".into()], "/opt/bin/act.sh", found()).unwrap();
    assert_eq!(
        AddFilterCmd(filter).execute_console(&mut db).unwrap(),
        ["Successfully added filter on feed news", "Keywords: b, a"]
    );
    assert_eq!(
        ListFiltersCmd.execute_console(&mut db).unwrap(),
        ["Current filters:", "", "news\ta, b\tact.sh\tNever updated"]
    );
    assert_eq!(
        ListFeedsCmd.execute_console(&mut db).unwrap(),
        ["Current feeds:", "", "news\thttps://example.com/feed.rss"]
    );
    assert_eq!(
        DeleteFeedCmd("news".into()).execute_console(&mut db),
        Err(StoreError::FeedInUse { alias: "news".to_string() })
    );
    assert_eq!(
        DeleteFilterCmd::new("news", &["a"]).execute_console(&mut db).unwrap(),
        ["Successfully deleted filter on feed news", "Keywords: a"]
    );
    assert_eq!(
        DeleteFeedCmd("news".into()).execute_console(&mut db).unwrap(),
        ["Successfully deleted feed news"]
    );
    assert_eq!(ListFeedsCmd.execute_console(&mut db).unwrap(), ["No feeds in database."]);
}
