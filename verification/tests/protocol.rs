use git_credentials::helper::{Action, Failure, Outcome, Verdict};
use git_credentials::prompt::{Field, Mode};
use git_credentials::protocol::url::{parse, Url};
use git_credentials::protocol::{Context, Error};

fn some(s: &str) -> Option<String> {
    Some(s.to_string())
}

fn url_of(protocol: &str, host: Option<&str>, path: Option<&str>) -> Option<Url> {
    Some(Url {
        protocol: protocol.to_string(),
        host: host.map(str::to_string),
        path: path.map(str::to_string),
    })
}

#[test]
fn url_with_host_and_path() {
    assert_eq!(parse("https://h/p"), url_of("https", Some("h"), Some("p")));
    assert_eq!(
        parse("https://example.com/some/repo.git"),
        url_of("https", Some("example.com"), Some("some/repo.git"))
    );
}

#[test]
fn url_host_keeps_port_and_drops_user() {
    assert_eq!(
        parse("https://name@example.com:8080/repo"),
        url_of("https", Some("example.com:8080"), Some("repo"))
    );
    assert_eq!(parse("ssh://git@host"), url_of("ssh", Some("host"), None));
    assert_eq!(parse("https://a@b@c/"), url_of("https", Some("b@c"), None));
    assert_eq!(parse("https://name@/x"), url_of("https", None, Some("x")));
}

#[test]
fn url_path_loses_the_slashes_around_it() {
    assert_eq!(parse("https://h//a/b//"), url_of("https", Some("h"), Some("a/b")));
    assert_eq!(parse("https://h/"), url_of("https", Some("h"), None));
    assert_eq!(parse("https://h////"), url_of("https", Some("h"), None));
    assert_eq!(parse("https://h"), url_of("https", Some("h"), None));
    assert_eq!(parse("file:///a/b"), url_of("file", None, Some("a/b")));
    assert_eq!(parse("https://"), url_of("https", None, None));
    assert_eq!(parse("https://h/p?q=1#f/"), url_of("https", Some("h"), Some("p?q=1#f")));
    assert_eq!(parse("https://h/päth/"), url_of("https", Some("h"), Some("päth")));
}

#[test]
fn url_scheme_rules() {
    assert_eq!(parse("git+ssh://h/p"), url_of("git+ssh", Some("h"), Some("p")));
    assert_eq!(parse("a1.b-c://h"), url_of("a1.b-c", Some("h"), None));
    assert_eq!(parse("HTTP://h"), url_of("HTTP", Some("h"), None));
    assert_eq!(parse("1http://h/p"), None);
    assert_eq!(parse("ht tp://h/p"), None);
    assert_eq!(parse("ht/tp://h/p"), None);
    assert_eq!(parse("://h/p"), None);
    assert_eq!(parse("é://h/p"), None);
}

#[test]
fn url_needs_colon_and_two_slashes() {
    assert_eq!(parse(""), None);
    assert_eq!(parse("example.com/repo"), None);
    assert_eq!(parse("https"), None);
    assert_eq!(parse("https:"), None);
    assert_eq!(parse("https:/"), None);
    assert_eq!(parse("https:/h/p"), None);
    assert_eq!(parse("https:h//p"), None);
    assert_eq!(parse("host:path/to//repo"), None);
    assert_eq!(parse("no url at all"), None);
}

#[test]
fn destructure_overwrites_the_three_parts_only() {
    let mut ctx = Context {
        protocol: some("old"),
        host: some("old.host"),
        path: some("old/path"),
        username: some("u"),
        password: some("p"),
        url: some("https://h"),
        quit: Some(false),
    };
    assert_eq!(ctx.destructure_url(), Ok(()));
    assert_eq!(
        ctx,
        Context {
            protocol: some("https"),
            host: some("h"),
            path: None,
            username: some("u"),
            password: some("p"),
            url: some("https://h"),
            quit: Some(false),
        }
    );
}

#[test]
fn destructure_without_url_changes_nothing() {
    let before = Context {
        protocol: some("https"),
        host: some("h"),
        ..Context::default()
    };
    let mut ctx = before.clone();
    assert_eq!(ctx.destructure_url(), Ok(()));
    assert_eq!(ctx, before);
}

#[test]
fn destructure_of_malformed_url_is_an_error_and_changes_nothing() {
    for url in ["", "h/p", "https:/h"] {
        let before = Context {
            protocol: some("ssh"),
            url: some(url),
            ..Context::default()
        };
        let mut ctx = before.clone();
        assert_eq!(ctx.destructure_url(), Err(Error::Parse));
        assert_eq!(ctx, before);
    }
}

#[test]
fn record_fields_are_read_by_key() {
    let record = "protocol=https\nhost=example.com\npath=a/b\nusername=me\npassword=s3cret\nurl=https://example.com/a/b\nquit=true\n";
    assert_eq!(
        Context::from_bytes(record.as_bytes().to_vec()),
        Some(Context {
            protocol: some("https"),
            host: some("example.com"),
            path: some("a/b"),
            username: some("me"),
            password: some("s3cret"),
            url: some("https://example.com/a/b"),
            quit: Some(true),
        })
    );
}

#[test]
fn record_value_may_hold_equals_signs_and_be_empty() {
    assert_eq!(
        Context::from_text("password=a=b==\nusername=\n"),
        Some(Context {
            username: some(""),
            password: some("a=b=="),
            ..Context::default()
        })
    );
}

#[test]
fn record_ends_at_empty_line_or_end_of_text() {
    assert_eq!(Context::from_text(""), Some(Context::default()));
    assert_eq!(Context::from_text("\nusername=late\n"), Some(Context::default()));
    assert_eq!(
        Context::from_text("username=u\n\nnot a line\npassword=p\n"),
        Some(Context {
            username: some("u"),
            ..Context::default()
        })
    );
    assert_eq!(
        Context::from_text("username=u\npassword=p"),
        Some(Context {
            username: some("u"),
            password: some("p"),
            ..Context::default()
        })
    );
}

#[test]
fn record_last_line_of_a_key_counts_and_unknown_keys_do_not() {
    assert_eq!(
        Context::from_text("username=first\ncapability[]=authtype\nusername=second\n=odd\nHost=h\n"),
        Some(Context {
            username: some("second"),
            ..Context::default()
        })
    );
}

#[test]
fn record_line_without_equals_sign_is_malformed() {
    assert_eq!(Context::from_text("username"), None);
    assert_eq!(Context::from_text("username=u\npassword\n"), None);
    assert_eq!(Context::from_text(" \n"), None);
}

#[test]
fn record_bytes_must_be_text() {
    assert_eq!(Context::from_bytes(vec![b'u', b'r', b'l', b'=', 0xc3, b'\n']), None);
    assert_eq!(Context::from_bytes(vec![0xff]), None);
    assert_eq!(
        Context::from_bytes("username=grüß\n".as_bytes().to_vec()),
        Some(Context {
            username: some("grüß"),
            ..Context::default()
        })
    );
}

#[test]
fn record_quit_spellings() {
    for (value, flag) in [
        ("true", Some(true)),
        ("1", Some(true)),
        ("yes", Some(true)),
        ("on", Some(true)),
        ("false", Some(false)),
        ("0", Some(false)),
        ("no", Some(false)),
        ("off", Some(false)),
        ("", None),
        ("TRUE", None),
        ("2", None),
    ] {
        assert_eq!(
            Context::from_text(&format!("quit={value}\n")).map(|ctx| ctx.quit),
            Some(flag),
            "{value}"
        );
    }
    assert_eq!(Context::from_text("quit=true\nquit=perhaps\n").map(|ctx| ctx.quit), Some(None));
}

#[test]
fn record_is_written_line_by_line() {
    let ctx = Context {
        protocol: some("https"),
        host: some("h:1"),
        path: some("p"),
        username: some("u"),
        password: some("s"),
        url: some("https://h:1/p"),
        quit: Some(false),
    };
    assert_eq!(
        ctx.to_text(),
        "url=https://h:1/p\npath=p\nprotocol=https\nhost=h:1\nusername=u\npassword=s\nquit=false\n"
    );
    assert_eq!(ctx.to_bytes(), ctx.to_text().into_bytes());
    assert_eq!(Context::from_bytes(ctx.to_bytes()), Some(ctx));
    assert_eq!(Context::default().to_text(), "");
    let partly = Context {
        username: some("ü"),
        quit: Some(true),
        ..Context::default()
    };
    assert_eq!(partly.to_bytes(), "username=ü\nquit=true\n".as_bytes().to_vec());
    assert_eq!(Context::from_text(&partly.to_text()), Some(partly));
}

#[test]
fn merge_overrides_what_the_reply_holds() {
    let mut ctx = Context {
        protocol: some("https"),
        host: some("h"),
        username: some("old"),
        quit: Some(false),
        ..Context::default()
    };
    ctx.merge(Context {
        path: some("p"),
        username: some("new"),
        password: some("secret"),
        url: some("ignored here"),
        quit: Some(true),
        ..Context::default()
    });
    assert_eq!(
        ctx,
        Context {
            protocol: some("https"),
            host: some("h"),
            path: some("p"),
            username: some("new"),
            password: some("secret"),
            url: some("ignored here"),
            quit: Some(false),
        }
    );
    let before = ctx.clone();
    ctx.merge(Context::default());
    assert_eq!(ctx, before);
}

#[test]
fn completeness_is_presence_of_name_and_secret() {
    assert!(!Context::default().is_complete());
    let named = Context {
        username: some("u"),
        ..Context::default()
    };
    assert!(!named.is_complete());
    assert!(named.lacks(Field::Password));
    assert!(!named.lacks(Field::Username));
    let both = Context {
        password: some(""),
        ..named
    };
    assert!(both.is_complete());
    assert!(!both.lacks(Field::Password));
}

#[test]
fn prompt_names_the_field_and_the_place() {
    let mut ctx = Context::default();
    assert_eq!(ctx.to_url(), None);
    assert_eq!(ctx.to_prompt("Username"), "Username: ");
    ctx.protocol = some("https");
    assert_eq!(ctx.to_url(), None);
    ctx.host = some("example.com");
    assert_eq!(ctx.to_url(), some("https://example.com"));
    assert_eq!(ctx.to_prompt("Username"), "Username for https://example.com: ");
    ctx.path = some("a/b");
    ctx.username = some("me");
    assert_eq!(ctx.to_url(), some("https://me@example.com/a/b"));
    assert_eq!(ctx.to_prompt("Password"), "Password for https://me@example.com/a/b: ");
    ctx.protocol = None;
    assert_eq!(ctx.to_prompt("Password"), "Password: ");
}

#[test]
fn fields_have_names_and_modes() {
    assert_eq!(Field::Username.name(), "Username");
    assert_eq!(Field::Password.name(), "Password");
    assert_eq!(Field::Username.mode(), Mode::Visible);
    assert_eq!(Field::Password.mode(), Mode::Hidden);
    assert!(Mode::Disabled.is_disabled());
    assert!(!Mode::Visible.is_disabled());
    assert!(!Mode::Hidden.is_disabled());
}

#[test]
fn answer_fills_the_field_or_names_the_prompt() {
    let mut ctx = Context {
        protocol: some("https"),
        host: some("h"),
        ..Context::default()
    };
    assert_eq!(ctx.answer(Field::Username, Ok("me".to_string())), Ok(()));
    assert_eq!(ctx.username, some("me"));
    assert_eq!(
        ctx.answer(Field::Password, Err("interrupted".to_string())),
        Err(Error::Prompt {
            prompt: "Password for https://me@h: ".to_string(),
            cause: "interrupted".to_string(),
        })
    );
    assert_eq!(ctx.password, None);
    assert_eq!(ctx.answer(Field::Password, Ok("s".to_string())), Ok(()));
    assert_eq!(ctx.password, some("s"));
}

#[test]
fn absorb_decides_how_the_cascade_goes_on() {
    let mut ctx = Context::default();
    let reply = Context {
        username: some("u"),
        ..Context::default()
    };
    assert_eq!(ctx.absorb(reply), Verdict::Continue);
    let reply = Context {
        url: some("broken"),
        password: some("p"),
        quit: Some(true),
        ..Context::default()
    };
    assert_eq!(ctx.absorb(reply), Verdict::Abort(Error::Parse));
    assert_eq!(ctx.url, some("broken"));
    assert_eq!(ctx.quit, None);
    let mut ctx = Context::default();
    let reply = Context {
        host: some("h"),
        quit: Some(true),
        ..Context::default()
    };
    assert_eq!(ctx.absorb(reply), Verdict::Stop);
    assert_eq!(ctx.quit, Some(true));
    let mut ctx = Context::default();
    let reply = Context {
        username: some("u"),
        password: some("p"),
        quit: Some(false),
        ..Context::default()
    };
    assert_eq!(ctx.absorb(reply), Verdict::Stop);
    assert_eq!(ctx.quit, None);
}

#[test]
fn action_absorbs_replies_by_kind() {
    let mut get = Action::Get(Context::default());
    assert_eq!(get.absorb(Ok(None)), Verdict::Continue);
    assert_eq!(get.absorb(Err(Failure::Unusable)), Verdict::Continue);
    assert_eq!(
        get.absorb(Err(Failure::Malformed)),
        Verdict::Abort(Error::HelperCommunication(Failure::Malformed))
    );
    assert_eq!(
        get.absorb(Ok(Some(b"nonsense".to_vec()))),
        Verdict::Abort(Error::HelperCommunication(Failure::Malformed))
    );
    assert_eq!(get.absorb(Ok(Some(b"username=u\npassword=p\n".to_vec()))), Verdict::Stop);
    assert_eq!(get.context().and_then(|ctx| ctx.username.clone()), some("u"));

    let mut store = Action::Store(Context::default());
    assert_eq!(store.absorb(Err(Failure::Other("x".to_string()))), Verdict::Continue);
    assert_eq!(store.absorb(Ok(Some(b"username=u\npassword=p\n".to_vec()))), Verdict::Continue);
    assert_eq!(store, Action::Store(Context::default()));
    assert_eq!(store.context(), None);
    assert_eq!(store.fail(Failure::Malformed), Verdict::Continue);
    assert_eq!(Action::Erase(Context::default()).fail(Failure::Unusable), Verdict::Continue);
}

#[test]
fn action_normalizes_a_retrieval_only() {
    let with_url = Context {
        url: some("https://h/p"),
        ..Context::default()
    };
    let mut get = Action::Get(with_url.clone());
    assert_eq!(get.normalize(), Ok(()));
    assert_eq!(get.context().unwrap().host, some("h"));
    let broken = Context {
        url: some("broken"),
        ..Context::default()
    };
    assert_eq!(Action::Get(broken.clone()).normalize(), Err(Error::Parse));
    let mut erase = Action::Erase(broken.clone());
    assert_eq!(erase.normalize(), Ok(()));
    assert_eq!(erase, Action::Erase(broken));
    let mut store = Action::Store(with_url.clone());
    assert_eq!(store.normalize(), Ok(()));
    assert_eq!(store, Action::Store(with_url));
}

#[test]
fn action_names_itself_and_carries_its_record() {
    let ctx = Context {
        host: some("h"),
        ..Context::default()
    };
    assert_eq!(Action::Get(ctx.clone()).as_arg(), "get");
    assert_eq!(Action::Store(ctx.clone()).as_arg(), "store");
    assert_eq!(Action::Erase(ctx.clone()).as_arg(), "erase");
    assert_eq!(Action::Get(ctx.clone()).record(), &ctx);
    assert_eq!(Action::Store(ctx.clone()).record(), &ctx);
    assert_eq!(Action::Erase(ctx.clone()).record(), &ctx);
    assert_eq!(Action::Store(ctx.clone()).clone(), Action::Store(ctx));
}

#[test]
fn outcome_is_for_retrievals() {
    let ctx = Context {
        username: some("u"),
        quit: Some(true),
        ..Context::default()
    };
    assert_eq!(
        Action::Get(ctx.clone()).outcome(),
        Some(Outcome {
            username: some("u"),
            password: None,
            quit: true,
            next: ctx.clone(),
        })
    );
    let unset = Context {
        quit: Some(false),
        ..Context::default()
    };
    assert_eq!(Action::Get(unset).outcome().map(|o| o.quit), Some(false));
    assert_eq!(Action::Get(Context::default()).outcome().map(|o| o.quit), Some(false));
    assert_eq!(Action::Store(ctx.clone()).outcome(), None);
    assert_eq!(Action::Erase(ctx).outcome(), None);
}
