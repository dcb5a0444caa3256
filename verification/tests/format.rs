use mxbot_common::format::{
    extract_mxids, fetch_names, html_escape, member_name, mention_user, mentionify,
    mentionify_with_names, named_users, sanitize_display_name, user_pill, Member, Message, Names,
};
use mxbot_common::ids::{IdSet, MatrixId, OwnedUserId};

fn user(id: &str) -> OwnedUserId {
    OwnedUserId::parse(id).unwrap()
}

fn bodies(c: &Message) -> (String, Option<String>) {
    (c.body.clone(), c.formatted.clone())
}

#[test]
fn mxid_becomes_pill_and_mention() {
    let c = mentionify("Hello @alice:example.org!");
    let (plain, html) = bodies(&c);
    let html = html.unwrap();
    assert!(html.contains(r#"href="https://matrix.to/#/@alice:example.org""#));
    assert!(html.contains(">alice<"));
    assert_eq!(plain, "Hello alice!");
    let mentions = c.mentions.expect("m.mentions must be set");
    assert!(mentions.user_ids.contains("@alice:example.org"));
    assert!(!mentions.room);
}

#[test]
fn plain_text_stays_plain_without_mentions() {
    let c = mentionify("no mentions here");
    let (_, html) = bodies(&c);
    assert!(html.is_none());
    assert!(c.mentions.is_none());
}

#[test]
fn markup_is_rendered_and_stripped_from_plain() {
    let c = mentionify("**Floor 1** ~~Sports~~ [Map](https://e.org/?a=1&b=2)\nnext");
    let (plain, html) = bodies(&c);
    let html = html.unwrap();
    assert!(html.contains("<strong>Floor 1</strong>"));
    assert!(html.contains("<del>Sports</del>"));
    assert!(html.contains(r#"<a href="https://e.org/?a=1&amp;b=2">Map</a>"#));
    assert!(html.contains("<br>"));
    assert_eq!(plain, "Floor 1 Sports Map\nnext");
}

#[test]
fn html_is_escaped_including_display_names() {
    let mut names = Names::new();
    names.insert("@a:x.org".to_owned(), "<b>A</b>".to_owned());
    let c = mentionify_with_names("x < y & @a:x.org", &names);
    let (plain, html) = bodies(&c);
    let html = html.unwrap();
    assert!(html.contains("x &lt; y &amp; "));
    assert!(html.contains("&lt;b&gt;A&lt;/b&gt;"));
    assert_eq!(plain, "x < y & <b>A</b>");
}

#[test]
fn every_pill_is_mentioned_but_invalid_tokens_are_not() {
    let c = mentionify("@a:x.org and @b:y.org");
    assert_eq!(c.mentions.unwrap().user_ids.len(), 2);
    let c = mentionify("@alice:");
    assert!(c.mentions.is_none());
}

#[test]
fn extract_mxids_deduplicates() {
    assert_eq!(
        extract_mxids("@a:x.org, @b:y.org and @a:x.org!"),
        vec!["@a:x.org".to_owned(), "@b:y.org".to_owned()]
    );
}

#[test]
fn mention_user_builds_single_mention() {
    let c = mention_user(&user("@a:x.org"), "Alice", "Hi ", "!");
    let (plain, html) = bodies(&c);
    assert_eq!(plain, "Hi Alice!");
    assert!(html.unwrap().contains(">Alice</a>!"));
    assert_eq!(c.mentions.unwrap().user_ids.len(), 1);
}

#[test]
fn sanitize_display_name_cleans_control_chars() {
    assert_eq!(sanitize_display_name(" A\nB ").as_deref(), Some("A B"));
    assert_eq!(sanitize_display_name(" \n "), None);
}

#[test]
fn control_characters_beyond_ascii_are_cleaned() {
    assert_eq!(
        sanitize_display_name("\u{7f}A\u{85}\u{9f}B\u{a0}").as_deref(),
        Some("A  B")
    );
    assert_eq!(sanitize_display_name("Zoë").as_deref(), Some("Zoë"));
}

#[test]
fn whole_messages_are_rendered() {
    let c = mentionify("**Hi** @alice:example.org\n[a](b)");
    assert_eq!(c.body, "Hi alice\na");
    assert_eq!(
        c.formatted.as_deref(),
        Some("<strong>Hi</strong> <a href=\"https://matrix.to/#/@alice:example.org\">alice</a><br><a href=\"b\">a</a>")
    );
    assert!(c.relates_to.is_none());
}

#[test]
fn open_markers_are_closed_at_the_end() {
    assert_eq!(
        mentionify("**a ~~b").formatted.as_deref(),
        Some("<strong>a <del>b</strong></del>")
    );
    assert_eq!(
        mentionify("**a ~~b**~~").formatted.as_deref(),
        Some("<strong>a <del>b</strong></del>")
    );
}

#[test]
fn single_markers_are_plain_characters() {
    let c = mentionify("a * b ~ c [d] (e) @ f");
    assert_eq!(c.body, "a * b ~ c [d] (e) @ f");
    assert_eq!(c.formatted, None);
    let c = mentionify("[label](no end");
    assert_eq!(c.body, "[label](no end");
    assert_eq!(c.formatted, None);
}

#[test]
fn multibyte_text_is_kept() {
    let c = mentionify("Grüße **√** @zoë:exämple.org 日本");
    assert_eq!(c.body, "Grüße √ zoë 日本");
    assert_eq!(
        extract_mxids("日@a:x.org本"),
        vec!["@a:x.org本".to_owned()]
    );
}

#[test]
fn tokens_end_at_punctuation() {
    assert_eq!(
        extract_mxids("(@a:x.org) \"@b:x.org\" @c:x.org? @d:x.org*"),
        vec![
            "@a:x.org".to_owned(),
            "@b:x.org".to_owned(),
            "@c:x.org".to_owned(),
            "@d:x.org".to_owned()
        ]
    );
    assert_eq!(extract_mxids("@a:b @: @ab"), Vec::<String>::new());
}

#[test]
fn html_is_escaped() {
    assert_eq!(html_escape("<a href=\"x\">'&'</a>"), "&lt;a href=&quot;x&quot;&gt;&#39;&amp;&#39;&lt;/a&gt;");
    assert_eq!(html_escape(""), "");
}

#[test]
fn pills_link_to_the_user() {
    assert_eq!(
        user_pill(&user("@a:x.org"), "A & B"),
        "<a href=\"https://matrix.to/#/@a:x.org\">A &amp; B</a>"
    );
}

#[test]
fn names_are_looked_up_for_valid_users_once() {
    let users = named_users(&extract_mxids("@a:x.org @alice: @b:y.org @a:x.org"));
    let texts: Vec<&str> = users.iter().map(|u| u.as_str()).collect();
    assert_eq!(texts, vec!["@a:x.org", "@b:y.org"]);

    let members = vec![
        Some(Member {
            display_name: Some(" Alice\t".to_owned()),
        }),
        None,
    ];
    let names = fetch_names(&users, &members);
    assert_eq!(names.get("@a:x.org").as_deref(), Some("Alice"));
    assert_eq!(names.get("@b:y.org"), None);
    let c = mentionify_with_names("@a:x.org @b:y.org", &names);
    assert_eq!(c.body, "Alice b");
}

#[test]
fn members_without_a_name_go_by_their_localpart() {
    let alice = user("@alice:example.org");
    assert_eq!(member_name(None, &alice), "alice");
    assert_eq!(member_name(Some(" \n"), &alice), "alice");
    assert_eq!(member_name(Some("Alice"), &alice), "Alice");
}

#[test]
fn later_names_replace_earlier_ones() {
    let mut names = Names::new();
    assert_eq!(names.get("@a:x.org"), None);
    names.insert("@a:x.org".to_owned(), "A".to_owned());
    names.insert("@b:x.org".to_owned(), "B".to_owned());
    names.insert("@a:x.org".to_owned(), "C".to_owned());
    assert_eq!(names.get("@a:x.org").as_deref(), Some("C"));
    assert_eq!(names.get("@b:x.org").as_deref(), Some("B"));
}

#[test]
fn every_pill_is_extracted() {
    let text = "[@no:label.org](u) **@a:x.org** ~~@b:x.org~~ (@c:x.org)@d:x.org";
    let extracted = extract_mxids(text);
    for user in mentionify(text).mentions.unwrap().user_ids.entries() {
        assert!(extracted.contains(&user.as_str().to_owned()));
    }
    assert!(extracted.contains(&"@d:x.org".to_owned()));
}

#[test]
fn different_texts_are_escaped_differently() {
    assert_ne!(html_escape("&lt;"), html_escape("<"));
    assert_ne!(html_escape("&amp;"), html_escape("&"));
}

#[test]
fn without_links_the_extracted_users_are_mentioned() {
    let text = "**@a:x.org** and @bad: ~~@b:y.org ~~ @a:x.org @";
    let valid: Vec<OwnedUserId> = extract_mxids(text)
        .iter()
        .filter_map(|id| OwnedUserId::parse(id).ok())
        .collect();
    let mentions = mentionify(text).mentions.unwrap();
    assert_eq!(mentions.user_ids, IdSet::from_list(valid));
    assert_eq!(mentions.user_ids.len(), 2);
    assert!(!mentions.room);
    assert!(mentionify("@bad: (no one) @").mentions.is_none());
    assert!(mentionify("[@a:x.org](u)").mentions.is_none());
}

#[test]
fn lines_are_kept() {
    let c = mentionify("1 < 2\n\n* a ~ b\n");
    assert_eq!(c.body, "1 < 2\n\n* a ~ b\n");
    assert_eq!(
        c.formatted.as_deref(),
        Some("1 &lt; 2<br><br>* a ~ b<br>")
    );
    assert!(c.mentions.is_none());
    assert!(c.relates_to.is_none());
}

#[test]
fn only_user_ids_are_named() {
    let list: Vec<String> = ["@a:x.org", "nope", "@b", "@b:y.org", "@a:x.org"]
        .iter()
        .map(|id| id.to_string())
        .collect();
    let users = named_users(&list);
    let texts: Vec<&str> = users.iter().map(|u| u.as_str()).collect();
    assert_eq!(texts, vec!["@a:x.org", "@b:y.org", "@a:x.org"]);
}

#[test]
fn whitespace_beyond_ascii_ends_a_token() {
    assert_eq!(
        extract_mxids("@a:x.org\u{a0}@b:x.org\u{2003}@c:x.org\u{3000}@d:x.org\u{85}"),
        vec![
            "@a:x.org".to_owned(),
            "@b:x.org".to_owned(),
            "@c:x.org".to_owned(),
            "@d:x.org".to_owned()
        ]
    );
    assert_eq!(
        extract_mxids("@a:x.org\u{200b}!"),
        vec!["@a:x.org\u{200b}".to_owned()]
    );
    assert_eq!(sanitize_display_name("\u{2028}A\u{202f}"), Some("A".to_owned()));
}
