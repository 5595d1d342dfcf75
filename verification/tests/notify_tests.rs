use shipcat::grafana::{Annotation, Event, TimeSpec};
use shipcat::slack::{
    compose_message, create_github_compare_url, have_credentials, infer_ci_links,
    infer_metadata_single_link, short_ver, split_link, Message, SlackError, TextContent,
};
use shipcat::structs::{Contact, Metadata};

fn metadata() -> Metadata {
    Metadata {
        team: "doves".to_string(),
        repo: "https://github.com/org/webapp".to_string(),
        contacts: vec![Contact { name: "E".to_string(), slack: "@e".to_string() }],
    }
}

fn plain_message(text: &str) -> Message {
    Message {
        text: text.to_string(),
        metadata: None,
        quiet: false,
        link: None,
        color: None,
        code: None,
        version: None,
    }
}

#[test]
fn credentials_demand_channel_then_hook() {
    assert_eq!(
        have_credentials(&None, &None),
        Err(SlackError::MissingSlackChannel)
    );
    assert_eq!(
        have_credentials(&Some("#dev".to_string()), &None),
        Err(SlackError::MissingSlackUrl)
    );
    assert!(have_credentials(&Some("#dev".to_string()), &Some("https://hooks".to_string())).is_ok());
}

#[test]
fn short_ver_cuts_only_long_non_semver_strings() {
    assert_eq!(short_ver(&"1.2.3".to_string()), "1.2.3");
    let sha = "0123456789abcdef0123456789abcdef01234567".to_string();
    assert_eq!(short_ver(&sha), "01234567");
    assert_eq!(short_ver(&"short".to_string()), "short");
}

#[test]
fn single_version_link_branches_on_semver() {
    let md = metadata();
    match infer_metadata_single_link(&md, &"1.2.3".to_string()) {
        TextContent::Link(u, t) => {
            assert_eq!(u, "https://github.com/org/webapp/releases/tag/1.2.3");
            assert_eq!(t, "1.2.3");
        }
        _ => panic!("expected a link"),
    }
    let sha = "0123456789abcdef0123456789abcdef01234567".to_string();
    match infer_metadata_single_link(&md, &sha) {
        TextContent::Link(u, t) => {
            assert!(u.ends_with(&format!("/commit/{}", sha)));
            assert_eq!(t, "01234567");
        }
        _ => panic!("expected a link"),
    }
}

#[test]
fn compare_url_joins_versions() {
    let md = metadata();
    match create_github_compare_url(&md, &"1.0.0".to_string(), &"1.1.0".to_string()) {
        TextContent::Link(u, t) => {
            assert_eq!(u, "https://github.com/org/webapp/compare/1.0.0...1.1.0");
            assert_eq!(t, "1.1.0");
        }
        _ => panic!("expected a link"),
    }
}

#[test]
fn ci_links_prefer_jenkins_then_circle_then_user() {
    let jenkins = Some((
        "https://jenkins/build/1".to_string(),
        "deploy".to_string(),
        "1".to_string(),
    ));
    match infer_ci_links(&jenkins, &None, &None) {
        TextContent::Link(u, t) => {
            assert_eq!(u, "https://jenkins/build/1");
            assert_eq!(t, "deploy#1");
        }
        _ => panic!("expected a link"),
    }
    match infer_ci_links(&None, &None, &Some("sam".to_string())) {
        TextContent::Plain(t) => assert_eq!(t, "(via sam)"),
        _ => panic!("expected plain text"),
    }
    match infer_ci_links(&None, &None, &None) {
        TextContent::Plain(t) => assert_eq!(t, "via unknown user"),
        _ => panic!("expected plain text"),
    }
}

#[test]
fn split_link_handles_all_shapes() {
    assert_eq!(
        split_link(&"https://x|the site".to_string()).unwrap(),
        ("https://x".to_string(), "the site".to_string())
    );
    assert_eq!(
        split_link(&"https://x".to_string()).unwrap(),
        ("https://x".to_string(), "https://x".to_string())
    );
    assert_eq!(split_link(&"a|b|c".to_string()), Err(SlackError::InvalidLink));
}

#[test]
fn compose_plain_message_has_one_attachment() {
    let p = compose_message(
        plain_message("webapp upgraded"),
        "#dev".to_string(),
        "shipcat".to_string(),
        &None,
        false,
        &None,
        &None,
        &None,
    )
    .unwrap();
    assert_eq!(p.channel, "#dev");
    assert_eq!(p.username, "shipcat");
    assert_eq!(p.icon_emoji, ":ship:");
    assert_eq!(p.attachments.len(), 1);
    assert_eq!(p.attachments[0].fallback, "webapp upgraded");
    match &p.attachments[0].texts[0] {
        TextContent::Plain(t) => assert_eq!(t, "webapp upgraded"),
        _ => panic!("expected message text first"),
    }
}

#[test]
fn code_diff_becomes_second_attachment_unless_pure_version_change() {
    let mut msg = plain_message("upgrade");
    msg.metadata = Some(metadata());
    msg.code = Some("- image: 1.0.0\n+ image: 1.1.0".to_string());
    let with_diff = compose_message(
        msg,
        "#dev".to_string(),
        "shipcat".to_string(),
        &Some(("1.0.0".to_string(), "1.1.0".to_string())),
        false,
        &None,
        &None,
        &None,
    )
    .unwrap();
    assert_eq!(with_diff.attachments.len(), 2);
    assert_eq!(with_diff.attachments[1].color, Some("#439FE0".to_string()));

    let mut msg2 = plain_message("upgrade");
    msg2.metadata = Some(metadata());
    msg2.code = Some("- image: 1.0.0\n+ image: 1.1.0".to_string());
    let pure = compose_message(
        msg2,
        "#dev".to_string(),
        "shipcat".to_string(),
        &Some(("1.0.0".to_string(), "1.1.0".to_string())),
        true,
        &None,
        &None,
        &None,
    )
    .unwrap();
    assert_eq!(pure.attachments.len(), 1);
}

#[test]
fn malformed_replacement_link_is_refused() {
    let mut msg = plain_message("upgrade");
    msg.link = Some("a|b|c".to_string());
    let r = compose_message(
        msg,
        "#dev".to_string(),
        "shipcat".to_string(),
        &None,
        false,
        &None,
        &None,
        &None,
    );
    assert_eq!(r.err(), Some(SlackError::InvalidLink));
}

#[test]
fn quiet_messages_skip_contact_mentions() {
    let mut msg = plain_message("upgrade");
    msg.metadata = Some(metadata());
    msg.quiet = true;
    let p = compose_message(
        msg,
        "#dev".to_string(),
        "shipcat".to_string(),
        &None,
        false,
        &None,
        &None,
        &None,
    )
    .unwrap();
    let mentions = p.attachments[0]
        .texts
        .iter()
        .filter(|t| matches!(t, TextContent::User(_)))
        .count();
    assert_eq!(mentions, 0);
}

#[test]
fn annotation_payload_names_event_service_version_region() {
    let a = Annotation {
        event: Event::Upgrade,
        service: "webapp".to_string(),
        version: "1.2.3".to_string(),
        region: "dev-uk".to_string(),
        time: TimeSpec::Time(1234),
    };
    let at = shipcat::grafana::unix_timestamp(&a.time);
    assert_eq!(at, 1234);
    let p = a.payload(at);
    assert_eq!(p.time, 1234);
    assert_eq!(p.text, "Upgrade webapp=1.2.3 in dev-uk");
    assert_eq!(
        p.tags,
        vec![
            "all-deploys".to_string(),
            "dev-uk-deploys".to_string(),
            "webapp-deploys".to_string(),
        ]
    );
}

#[test]
fn rollback_annotation_text() {
    let a = Annotation {
        event: Event::Rollback,
        service: "webapp".to_string(),
        version: "1.2.2".to_string(),
        region: "dev-uk".to_string(),
        time: TimeSpec::Time(99),
    };
    assert_eq!(a.payload(99).text, "Rollback webapp=1.2.2 in dev-uk");
}
