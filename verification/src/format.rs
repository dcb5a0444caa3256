//! Message formatting with Matrix mention pills.
//!
//! [`mentionify`] turns lightweight markup into a text message:
//!   * `@user:server`  → a matrix.to pill, *and* a mention
//!   * `**bold**`      → `<strong>`
//!   * `~~strike~~`    → `<del>`
//!   * `[label](url)`  → `<a href="url">label</a>`
//!   * `\n`            → `<br>`
//!
//! Everything else is HTML-escaped. Plain text without markup stays a plain
//! message.
use vstd::prelude::*;

use crate::ids;
use crate::ids::{IdSet, MatrixId, OwnedUserId};
use crate::markup;
use crate::text;
use crate::text::{chars_of, find_char, list_contains, string_from, string_of, trim_chars};

verus! {

/// Who a message notifies.
#[derive(Clone, Debug)]
pub struct Mentions {
    pub user_ids: IdSet<OwnedUserId>,
    pub room: bool,
}

/// The thread that a message replies in, and the message it quotes.
#[derive(Clone, Debug, PartialEq, Eq)]
pub struct ThreadRelation {
    pub root: String,
    pub in_reply_to: String,
}

/// The content of a text message.
#[derive(Clone, Debug)]
pub struct Message {
    pub body: String,
    /// The HTML form, if there is one.
    pub formatted: Option<String>,
    pub mentions: Option<Mentions>,
    pub relates_to: Option<ThreadRelation>,
}

/// What a message says.
#[verifier::ext_equal]
pub struct MessageView {
    pub body: Seq<char>,
    pub formatted: Option<Seq<char>>,
    /// The mentioned users, and whether the whole room is.
    pub mentions: Option<(Set<Seq<char>>, bool)>,
    /// The root of the thread and the quoted message.
    pub thread: Option<(Seq<char>, Seq<char>)>,
}

impl View for Message {
    type V = MessageView;

    open spec fn view(&self) -> MessageView {
        MessageView {
            body: self.body@,
            formatted: text::option_view(self.formatted),
            mentions: match self.mentions {
                Some(m) => Some((m.user_ids@, m.room)),
                None => None,
            },
            thread: match self.relates_to {
                Some(r) => Some((r.root@, r.in_reply_to@)),
                None => None,
            },
        }
    }
}

/// Display names by user ID.
#[derive(Clone, Debug)]
pub struct Names {
    entries: Vec<(String, String)>,
}

/// The map that results from inserting the entries one after the other.
pub open spec fn names_of(entries: Seq<(String, String)>) -> Map<Seq<char>, Seq<char>>
    decreases entries.len(),
{
    if entries.len() == 0 {
        Map::empty()
    } else {
        names_of(entries.drop_last()).insert(entries.last().0@, entries.last().1@)
    }
}

impl View for Names {
    type V = Map<Seq<char>, Seq<char>>;

    closed spec fn view(&self) -> Map<Seq<char>, Seq<char>> {
        names_of(self.entries@)
    }
}

impl Names {
    /// No names.
    pub fn new() -> (res: Self)
        ensures
            res@ == Map::<Seq<char>, Seq<char>>::empty(),
    {
        Names { entries: Vec::new() }
    }

    /// Sets the name of a user.
    pub fn insert(&mut self, user_id: String, name: String)
        ensures
            final(self)@ == old(self)@.insert(user_id@, name@),
    {
        let ghost before = self.entries@;
        self.entries.push((user_id, name));
        assert(self.entries@.drop_last() =~= before);
    }

    /// The name of a user.
    pub fn get(&self, user_id: &str) -> (res: Option<String>)
        ensures
            text::option_view(res) == (if self@.contains_key(user_id@) {
                Some(self@[user_id@])
            } else {
                None
            }),
    {
        let mut n = self.entries.len();
        assert(self.entries@.take(n as int) =~= self.entries@);
        while n > 0
            invariant
                n <= self.entries@.len(),
                self@.contains_key(user_id@) == names_of(
                    self.entries@.take(n as int),
                ).contains_key(user_id@),
                self@[user_id@] == names_of(self.entries@.take(n as int))[user_id@],
            decreases n,
        {
            assert(self.entries@.take(n as int).drop_last() =~= self.entries@.take(n - 1));
            if text::same(self.entries[n - 1].0.as_str(), user_id) {
                return Some(self.entries[n - 1].1.clone());
            }
            n -= 1;
        }
        None
    }
}

/// The message that a text stands for.
pub open spec fn message_of(s: Seq<char>, names: Map<Seq<char>, Seq<char>>) -> MessageView {
    let list = markup::tokens(s);
    let users = markup::mentioned(list);
    MessageView {
        body: if markup::has_markup(list) {
            markup::plain_text(list, names)
        } else {
            s
        },
        formatted: if markup::has_markup(list) {
            Some(markup::html_text(list, names, false, false))
        } else {
            None
        },
        mentions: if users == Set::<Seq<char>>::empty() {
            None
        } else {
            Some((users, false))
        },
        thread: None,
    }
}

/// Escape `&`, `<`, `>`, `"` and `'` for HTML content and attributes.
pub fn html_escape(value: &str) -> (res: String)
    ensures
        res@ == markup::escaped(value@),
{
    let mut out = String::new();
    push_escaped(&mut out, value);
    assert(out@ =~= markup::escaped(value@));
    out
}

/// Appends `c`, escaped for HTML.
fn push_escaped_char(out: &mut String, c: char)
    ensures
        final(out)@ == old(out)@ + markup::escaped_char(c),
{
    match c {
        '&' => out.push_str("&amp;"),
        '<' => out.push_str("&lt;"),
        '>' => out.push_str("&gt;"),
        '"' => out.push_str("&quot;"),
        '\'' => out.push_str("&#39;"),
        _ => {
            out.push(c);
            assert(out@ =~= old(out)@ + seq![c]);
        },
    }
}

/// Appends `value`, escaped for HTML.
pub fn push_escaped(out: &mut String, value: &str)
    ensures
        final(out)@ == old(out)@ + markup::escaped(value@),
{
    let chars = chars_of(value);
    let mut i: usize = 0;
    assert(old(out)@ + markup::escaped(chars@.take(0)) =~= old(out)@);
    while i < chars.len()
        invariant
            i <= chars@.len(),
            out@ == old(out)@ + markup::escaped(chars@.take(i as int)),
        decreases chars@.len() - i,
    {
        push_escaped_char(out, chars[i]);
        assert(chars@.take(i + 1).drop_last() =~= chars@.take(i as int));
        assert(out@ =~= old(out)@ + markup::escaped(chars@.take(i + 1)));
        i += 1;
    }
    assert(chars@.take(i as int) =~= chars@);
}

/// The default label of a token: what precedes its colon, without sigils.
pub fn default_label(token: &str) -> (res: String)
    ensures
        res@ == markup::default_label(token@),
{
    let chars = chars_of(token);
    let end = find_char(&chars, 0, ':');
    assert(chars@.skip(0) =~= chars@);
    let mut from: usize = 0;
    let ghost head = token@.take(end as int);
    assert(chars@.subrange(0, end as int) =~= head);
    while from < end && chars[from] == '@'
        invariant
            from <= end <= chars@.len(),
            markup::without_sigils(head) == markup::without_sigils(
                chars@.subrange(from as int, end as int),
            ),
        decreases end - from,
    {
        assert(chars@.subrange(from as int, end as int).drop_first() =~= chars@.subrange(
            from + 1,
            end as int,
        ));
        from += 1;
    }
    string_of(&chars, from, end)
}

/// Where the token that starts at `pos` ends.
pub fn mxid_token_at(chars: &Vec<char>, pos: usize) -> (end: usize)
    requires
        pos <= chars@.len(),
    ensures
        pos <= end <= chars@.len(),
        chars@.subrange(pos as int, end as int) == markup::mxid_prefix(chars@.skip(pos as int)),
        pos < chars@.len() && !markup::ends_mxid(chars@[pos as int]) ==> pos < end,
{
    let mut end = pos;
    while end < chars.len() && !is_mxid_end(chars[end])
        invariant
            pos <= end <= chars@.len(),
            forall|i: int| pos <= i < end ==> !markup::ends_mxid(#[trigger] chars@[i]),
        decreases chars@.len() - end,
    {
        end += 1;
    }
    proof {
        let rest = chars@.skip(pos as int);
        text::lemma_first_index_unique(rest, markup::mxid_end(), end - pos);
        assert(chars@.subrange(pos as int, end as int) =~= rest.take(end - pos));
    }
    end
}

/// Whether `c` ends an `@user:server` token.
fn is_mxid_end(c: char) -> (res: bool)
    ensures
        res == markup::ends_mxid(c),
{
    c.is_whitespace() || matches!(c, ',' | '!' | '?' | '*' | ')' | ']' | '"' | '\'')
}

/// Whether a token is written like a user ID.
pub fn is_mxid_token(token: &str) -> (res: bool)
    ensures
        res == markup::looks_like_mxid(token@),
{
    let chars = chars_of(token);
    let colon = find_char(&chars, 0, ':');
    proof {
        if colon < chars@.len() {
            assert(chars@[colon as int] == ':');
        }
    }
    token.as_bytes().len() > 4 && colon < chars.len()
}

/// `[label](url)` starting at `pos`: returns (label, url, end position).
pub fn markdown_link_at(chars: &Vec<char>, pos: usize) -> (res: Option<(String, String, usize)>)
    requires
        pos < chars@.len(),
        chars@[pos as int] == '[',
    ensures
        match res {
            Some((label, url, end)) => {
                &&& pos < end <= chars@.len()
                &&& markup::link_prefix(chars@.skip(pos as int)) == Some((label@, url@, end - pos))
            },
            None => markup::link_prefix(chars@.skip(pos as int)) is None,
        },
{
    let ghost s = chars@.skip(pos as int);
    let ghost inner = s.skip(1);
    let len = chars.len();
    let label_end = find_char(chars, pos + 1, ']');
    assert(chars@.skip(pos + 1) =~= inner);
    if len - label_end < 2 || chars[label_end + 1] != '(' {
        return None;
    }
    let ghost n = label_end - pos - 1;
    let url_start = label_end + 2;
    let url_end = find_char(chars, url_start, ')');
    assert(chars@.skip(url_start as int) =~= inner.skip(n + 2));
    if url_end == len {
        return None;
    }
    let label = string_of(chars, pos + 1, label_end);
    let url = string_of(chars, url_start, url_end);
    assert(label@ =~= inner.take(n));
    assert(url@ =~= inner.skip(n + 2).take(url_end - url_start));
    Some((label, url, url_end + 1))
}

/// The label of a user: the given name, else the default.
fn label_for(token: &str, names: &Names) -> (res: String)
    ensures
        res@ == markup::label_of(token@, names@),
{
    match names.get(token) {
        Some(name) => name,
        None => default_label(token),
    }
}

/// Appends a link with a fixed start of its address.
fn push_link(html: &mut String, start: &str, url: &str, label: &str)
    ensures
        final(html)@ == old(html)@ + (start@ + markup::escaped(url@) + "\">"@ + markup::escaped(
            label@,
        ) + "</a>"@),
{
    html.push_str(start);
    push_escaped(html, url);
    html.push_str("\">");
    push_escaped(html, label);
    html.push_str("</a>");
    assert(html@ =~= old(html)@ + (start@ + markup::escaped(url@) + "\">"@ + markup::escaped(
        label@,
    ) + "</a>"@));
}

/// One piece of markup, as it stands in a text.
enum Piece {
    Bold,
    Strike,
    Link { label: String, url: String },
    Mention { id: String },
    Newline,
    Plain { c: char },
}

impl View for Piece {
    type V = markup::Token;

    closed spec fn view(&self) -> markup::Token {
        match self {
            Piece::Bold => markup::Token::Bold,
            Piece::Strike => markup::Token::Strike,
            Piece::Link { label, url } => markup::Token::Link { label: label@, url: url@ },
            Piece::Mention { id } => markup::Token::Mention { id: id@ },
            Piece::Newline => markup::Token::Newline,
            Piece::Plain { c } => markup::Token::Plain { c: *c },
        }
    }
}

/// The piece of markup at `pos`, and where it ends.
fn piece_at(chars: &Vec<char>, pos: usize) -> (res: (Piece, usize))
    requires
        pos < chars@.len(),
    ensures
        pos < res.1 <= chars@.len(),
        (res.0@, res.1 - pos) == markup::first_token(chars@.skip(pos as int)),
{
    let len = chars.len();
    let c = chars[pos];
    let ghost rest = chars@.skip(pos as int);
    proof {
        markup::lemma_first_token(rest);
    }
    if len - pos > 1 && c == '*' && chars[pos + 1] == '*' {
        return (Piece::Bold, pos + 2);
    }
    if len - pos > 1 && c == '~' && chars[pos + 1] == '~' {
        return (Piece::Strike, pos + 2);
    }
    if c == '[' {
        if let Some((label, url, end)) = markdown_link_at(chars, pos) {
            return (Piece::Link { label, url }, end);
        }
    }
    if c == '@' {
        let end = mxid_token_at(chars, pos);
        let id = string_of(chars, pos, end);
        if is_mxid_token(id.as_str()) {
            return (Piece::Mention { id }, end);
        }
    }
    if c == '\n' {
        (Piece::Newline, pos + 1)
    } else {
        (Piece::Plain { c }, pos + 1)
    }
}

/// A message under construction.
struct Builder {
    plain: String,
    html: String,
    formatted: bool,
    in_bold: bool,
    in_strike: bool,
    mentions: IdSet<OwnedUserId>,
}

impl Builder {
    /// Appends what one piece of markup stands for.
    fn append(&mut self, piece: &Piece, names: &Names)
        ensures
            final(self).plain@ == old(self).plain@ + markup::token_text(piece@, names@),
            final(self).html@ == old(self).html@ + markup::token_html(
                piece@,
                names@,
                old(self).in_bold,
                old(self).in_strike,
            ),
            final(self).formatted == (old(self).formatted || !(piece@ is Plain)),
            final(self).in_bold == (old(self).in_bold != (piece@ is Bold)),
            final(self).in_strike == (old(self).in_strike != (piece@ is Strike)),
            final(self).mentions@ == old(self).mentions@.union(markup::mentioned(seq![piece@])),
    {
        proof {
            assert(seq![piece@].drop_first() =~= Seq::<markup::Token>::empty());
            reveal_with_fuel(markup::mentioned, 2);
        }
        match piece {
            Piece::Bold => {
                self.html.push_str(
                    if self.in_bold {
                        "</strong>"
                    } else {
                        "<strong>"
                    },
                );
                self.in_bold = !self.in_bold;
                self.formatted = true;
            },
            Piece::Strike => {
                self.html.push_str(
                    if self.in_strike {
                        "</del>"
                    } else {
                        "<del>"
                    },
                );
                self.in_strike = !self.in_strike;
                self.formatted = true;
            },
            Piece::Link { label, url } => {
                self.plain.push_str(label.as_str());
                push_link(&mut self.html, "<a href=\"", url.as_str(), label.as_str());
                self.formatted = true;
            },
            Piece::Mention { id } => {
                let label = label_for(id.as_str(), names);
                self.plain.push_str(label.as_str());
                push_link(
                    &mut self.html,
                    "<a href=\"https://matrix.to/#/",
                    id.as_str(),
                    label.as_str(),
                );
                self.formatted = true;
                if let Ok(user_id) = OwnedUserId::parse(id.as_str()) {
                    self.mentions.insert(user_id);
                }
            },
            Piece::Newline => {
                self.plain.push('\n');
                self.html.push_str("<br>");
                self.formatted = true;
            },
            Piece::Plain { c } => {
                self.plain.push(*c);
                push_escaped_char(&mut self.html, *c);
            },
        }
        proof {
            assert(self.plain@ =~= old(self).plain@ + markup::token_text(piece@, names@));
            assert(self.html@ =~= old(self).html@ + markup::token_html(
                piece@,
                names@,
                old(self).in_bold,
                old(self).in_strike,
            ));
            assert(self.mentions@ =~= old(self).mentions@.union(
                markup::mentioned(seq![piece@]),
            ));
        }
    }
}

/// Whether `built` followed by the tokens of `rest` gives what `all` stands
/// for.
spec fn completes(
    built: Builder,
    rest: Seq<markup::Token>,
    all: Seq<markup::Token>,
    names: Map<Seq<char>, Seq<char>>,
) -> bool {
    &&& built.plain@ + markup::plain_text(rest, names) == markup::plain_text(all, names)
    &&& built.html@ + markup::html_text(rest, names, built.in_bold, built.in_strike)
        == markup::html_text(all, names, false, false)
    &&& (built.formatted || markup::has_markup(rest)) == markup::has_markup(all)
    &&& built.mentions@.union(markup::mentioned(rest)) == markup::mentioned(all)
}

/// Appending the first of the remaining tokens leaves the others.
proof fn lemma_append(
    before: Builder,
    after: Builder,
    rest: Seq<markup::Token>,
    all: Seq<markup::Token>,
    names: Map<Seq<char>, Seq<char>>,
)
    requires
        rest.len() > 0,
        completes(before, rest, all, names),
        after.plain@ == before.plain@ + markup::token_text(rest[0], names),
        after.html@ == before.html@ + markup::token_html(
            rest[0],
            names,
            before.in_bold,
            before.in_strike,
        ),
        after.formatted == (before.formatted || !(rest[0] is Plain)),
        after.in_bold == (before.in_bold != (rest[0] is Bold)),
        after.in_strike == (before.in_strike != (rest[0] is Strike)),
        after.mentions@ == before.mentions@.union(markup::mentioned(seq![rest[0]])),
    ensures
        completes(after, rest.drop_first(), all, names),
{
    let later = rest.drop_first();
    assert(after.plain@ + markup::plain_text(later, names) =~= before.plain@ + markup::plain_text(
        rest,
        names,
    ));
    assert(after.html@ + markup::html_text(later, names, after.in_bold, after.in_strike)
        =~= before.html@ + markup::html_text(rest, names, before.in_bold, before.in_strike));
    assert(seq![rest[0]].drop_first() =~= Seq::<markup::Token>::empty());
    reveal_with_fuel(markup::mentioned, 2);
    assert(after.mentions@.union(markup::mentioned(later)) =~= before.mentions@.union(
        markup::mentioned(rest),
    ));
}

/// Builds the message that `text` stands for.
pub fn build(text: &str, names: &Names) -> (res: Message)
    ensures
        res@ == message_of(text@, names@),
{
    let chars = chars_of(text);
    let mut builder = Builder {
        plain: String::new(),
        html: String::new(),
        formatted: false,
        in_bold: false,
        in_strike: false,
        mentions: IdSet::new(),
    };
    let mut pos: usize = 0;
    let ghost all = markup::tokens(text@);
    proof {
        assert(chars@.skip(0) =~= chars@);
        assert(builder.plain@ + markup::plain_text(all, names@) =~= markup::plain_text(
            all,
            names@,
        ));
        assert(builder.html@ + markup::html_text(all, names@, false, false) =~= markup::html_text(
            all,
            names@,
            false,
            false,
        ));
        assert(builder.mentions@.union(markup::mentioned(all)) =~= markup::mentioned(all));
    }
    while pos < chars.len()
        invariant
            pos <= chars@.len(),
            completes(builder, markup::tokens(chars@.skip(pos as int)), all, names@),
        decreases chars@.len() - pos,
    {
        let ghost before = builder;
        let ghost rest = chars@.skip(pos as int);
        let (piece, end) = piece_at(&chars, pos);
        builder.append(&piece, names);
        proof {
            markup::lemma_tokens(rest);
            lemma_append(before, builder, markup::tokens(rest), all, names@);
            assert(rest.skip(end - pos) =~= chars@.skip(end as int));
        }
        pos = end;
    }
    proof {
        let nothing = Seq::<markup::Token>::empty();
        assert(chars@.skip(pos as int) =~= Seq::<char>::empty());
        assert(builder.plain@ + markup::plain_text(nothing, names@) =~= builder.plain@);
        assert(builder.mentions@.union(markup::mentioned(nothing)) =~= builder.mentions@);
    }
    let Builder { plain, mut html, formatted, in_bold, in_strike, mentions } = builder;
    let ghost open_html = html@;
    if in_bold {
        html.push_str("</strong>");
    }
    if in_strike {
        html.push_str("</del>");
    }
    assert(html@ =~= open_html + markup::closing(in_bold, in_strike));

    let mentions = if mentions.is_empty() {
        None
    } else {
        Some(Mentions { user_ids: mentions, room: false })
    };
    if formatted {
        Message { body: plain, formatted: Some(html), mentions, relates_to: None }
    } else {
        Message { body: text.to_owned(), formatted: None, mentions, relates_to: None }
    }
}

/// Build a message, labelling pills with the localpart of the user ID.
pub fn mentionify(text: &str) -> (res: Message)
    ensures
        res@ == message_of(text@, Map::empty()),
{
    build(text, &Names::new())
}

/// Like [`mentionify`], but label pills with the names given. The plain body
/// shows the same labels.
pub fn mentionify_with_names(text: &str, names: &Names) -> (res: Message)
    ensures
        res@ == message_of(text@, names@),
{
    build(text, names)
}

/// HTML for a single user pill.
pub fn user_pill(user_id: &OwnedUserId, label: &str) -> (res: String)
    ensures
        res@ == markup::pill(user_id@, label@),
{
    let mut html = String::new();
    push_link(&mut html, "<a href=\"https://matrix.to/#/", user_id.as_str(), label);
    assert(html@ =~= markup::pill(user_id@, label@));
    html
}

/// A message mentioning exactly `user`, as `{prefix}<pill>{suffix}`.
pub open spec fn mention_message(
    user: Seq<char>,
    label: Seq<char>,
    prefix: Seq<char>,
    suffix: Seq<char>,
) -> MessageView {
    MessageView {
        body: prefix + label + suffix,
        formatted: Some(
            markup::escaped(prefix) + markup::pill(user, label) + markup::escaped(suffix),
        ),
        mentions: Some((set![user], false)),
        thread: None,
    }
}

/// A message mentioning exactly `user_id`, as `{prefix}<pill>{suffix}`.
pub fn mention_user(user_id: &OwnedUserId, label: &str, prefix: &str, suffix: &str) -> (res:
    Message)
    ensures
        res@ == mention_message(user_id@, label@, prefix@, suffix@),
{
    let mut body = prefix.to_owned();
    body.push_str(label);
    body.push_str(suffix);
    let mut html = html_escape(prefix);
    html.push_str(user_pill(user_id, label).as_str());
    html.push_str(html_escape(suffix).as_str());
    let mut user_ids: IdSet<OwnedUserId> = IdSet::new();
    user_ids.insert(user_id.clone());
    assert(user_ids@ =~= set![user_id@]);
    Message {
        body,
        formatted: Some(html),
        mentions: Some(Mentions { user_ids, room: false }),
        relates_to: None,
    }
}

/// All `@localpart:server` tokens in `text`, deduplicated, in order.
#[verifier::loop_isolation(false)]
pub fn extract_mxids(text: &str) -> (res: Vec<String>)
    ensures
        text::views(res@) == markup::deduplicated(markup::mxids(text@)),
{
    let chars = chars_of(text);
    let len = chars.len();
    let mut result: Vec<String> = Vec::new();
    let mut pos: usize = 0;
    let ghost mut found: Seq<Seq<char>> = seq![];
    assert(chars@.skip(0) =~= chars@);
    assert(found + markup::mxids(text@) =~= markup::mxids(text@));
    assert(text::views(result@) =~= markup::deduplicated(found));
    while pos < len
        invariant
            pos <= len,
            found + markup::mxids(chars@.skip(pos as int)) == markup::mxids(text@),
            text::views(result@) == markup::deduplicated(found),
        decreases len - pos,
    {
        let ghost rest = chars@.skip(pos as int);
        if chars[pos] == '@' {
            let end = mxid_token_at(&chars, pos);
            let token = string_of(&chars, pos, end);
            let ghost later = markup::mxids(rest.skip(token@.len() as int));
            assert(rest.skip(end - pos) =~= chars@.skip(end as int));
            if is_mxid_token(token.as_str()) {
                let ghost next = found.push(token@);
                assert(next.drop_last() =~= found);
                assert(next + later =~= found + (seq![token@] + later));
                let ghost before = text::views(result@);
                if !list_contains(&result, token.as_str()) {
                    result.push(token);
                    assert(text::views(result@) =~= before.push(token@));
                }
                proof {
                    found = next;
                }
            }
            pos = end;
        } else {
            assert(rest.skip(1) =~= chars@.skip(pos + 1));
            pos += 1;
        }
    }
    proof {
        assert(chars@.skip(pos as int) =~= Seq::<char>::empty());
        assert(found + markup::mxids(seq![]) =~= found);
    }
    result
}

/// A display name with control characters turned into spaces, trimmed.
pub open spec fn cleaned_name(name: Seq<char>) -> Seq<char> {
    text::trimmed(
        Seq::new(
            name.len(),
            |i: int|
                if text::control_char(name[i]) {
                    ' '
                } else {
                    name[i]
                },
        ),
    )
}

/// Collapse control characters (e.g. embedded newlines) in a display name
/// and trim it; `None` when nothing is left.
#[verifier::loop_isolation(false)]
pub fn sanitize_display_name(name: &str) -> (res: Option<String>)
    ensures
        text::option_view(res) == (if cleaned_name(name@).len() == 0 {
            None
        } else {
            Some(cleaned_name(name@))
        }),
{
    let chars = chars_of(name);
    let ghost spaced = Seq::new(
        name@.len(),
        |i: int|
            if text::control_char(name@[i]) {
                ' '
            } else {
                name@[i]
            },
    );
    let mut cleaned: Vec<char> = Vec::new();
    let mut i: usize = 0;
    while i < chars.len()
        invariant
            i <= chars@.len(),
            cleaned@ == spaced.take(i as int),
        decreases chars@.len() - i,
    {
        cleaned.push(
            if chars[i].is_control() {
                ' '
            } else {
                chars[i]
            },
        );
        assert(cleaned@ =~= spaced.take(i + 1));
        i += 1;
    }
    assert(spaced.take(i as int) =~= spaced);
    let trimmed = trim_chars(&cleaned);
    if trimmed.len() == 0 {
        None
    } else {
        Some(string_from(&trimmed))
    }
}

/// The name of a room member: the sanitized display name, else the
/// localpart of the user ID.
pub open spec fn shown_name(display_name: Option<Seq<char>>, user: Seq<char>) -> Seq<char> {
    match display_name {
        Some(name) if cleaned_name(name).len() > 0 => cleaned_name(name),
        _ => ids::localpart_of(user),
    }
}

/// The name of a room member: the sanitized display name, else the
/// localpart of the user ID.
pub fn member_name(display_name: Option<&str>, user_id: &OwnedUserId) -> (res: String)
    ensures
        res@ == shown_name(
            match display_name {
                Some(name) => Some(name@),
                None => None,
            },
            user_id@,
        ),
{
    let sanitized = match display_name {
        Some(name) => sanitize_display_name(name),
        None => None,
    };
    match sanitized {
        Some(name) => name,
        None => user_id.localpart(),
    }
}

// Names in a room

/// What is known of a member of a room.
#[derive(Debug)]
pub struct Member {
    pub display_name: Option<String>,
}

/// The texts of a list that are user IDs, in order.
pub open spec fn valid_ids(list: Seq<Seq<char>>) -> Seq<Seq<char>>
    decreases list.len(),
{
    if list.len() == 0 {
        seq![]
    } else {
        let before = valid_ids(list.drop_last());
        if ids::user_id_error(list.last()) is None {
            before.push(list.last())
        } else {
            before
        }
    }
}

/// Those texts of a list that are user IDs, whose names can be looked up.
#[verifier::loop_isolation(false)]
pub fn named_users(user_ids: &Vec<String>) -> (res: Vec<OwnedUserId>)
    ensures
        ids::id_texts(res@) == valid_ids(text::views(user_ids@)),
{
    let ghost all = text::views(user_ids@);
    let mut res: Vec<OwnedUserId> = Vec::new();
    let mut i: usize = 0;
    assert(ids::id_texts(res@) =~= Seq::<Seq<char>>::empty());
    while i < user_ids.len()
        invariant
            i <= user_ids@.len(),
            ids::id_texts(res@) == valid_ids(all.take(i as int)),
        decreases user_ids@.len() - i,
    {
        assert(all.take(i + 1).drop_last() =~= all.take(i as int));
        assert(all.take(i + 1).last() == user_ids@[i as int]@);
        if let Ok(id) = OwnedUserId::parse(user_ids[i].as_str()) {
            let ghost before = ids::id_texts(res@);
            res.push(id);
            assert(ids::id_texts(res@) =~= before.push(id@));
        }
        i += 1;
    }
    assert(all.take(i as int) =~= all);
    res
}

/// The name of a member.
pub open spec fn name_of_member(member: Member, user: Seq<char>) -> Seq<char> {
    shown_name(text::option_view(member.display_name), user)
}

/// The names of those users who are members.
pub open spec fn names_of_members(
    users: Seq<Seq<char>>,
    members: Seq<Option<Member>>,
) -> Map<Seq<char>, Seq<char>>
    decreases users.len(),
{
    if users.len() == 0 {
        Map::empty()
    } else {
        let before = names_of_members(users.drop_last(), members.drop_last());
        match members.last() {
            Some(member) => before.insert(users.last(), name_of_member(member, users.last())),
            None => before,
        }
    }
}

/// Display names for `user_ids` from room state (localpart when unset).
/// `members[i]` is what is known of `user_ids[i]`, if they are a member.
#[verifier::loop_isolation(false)]
pub fn fetch_names(user_ids: &Vec<OwnedUserId>, members: &Vec<Option<Member>>) -> (res: Names)
    requires
        user_ids@.len() == members@.len(),
    ensures
        res@ == names_of_members(ids::id_texts(user_ids@), members@),
{
    let ghost users = ids::id_texts(user_ids@);
    let mut names = Names::new();
    let mut i: usize = 0;
    while i < user_ids.len()
        invariant
            i <= user_ids@.len(),
            names@ == names_of_members(users.take(i as int), members@.take(i as int)),
        decreases user_ids@.len() - i,
    {
        assert(users.take(i + 1).drop_last() =~= users.take(i as int));
        assert(members@.take(i + 1).drop_last() =~= members@.take(i as int));
        assert(users.take(i + 1).last() == user_ids@[i as int]@);
        assert(members@.take(i + 1).last() == members@[i as int]);
        if let Some(member) = &members[i] {
            let display_name = match &member.display_name {
                Some(name) => Some(name.as_str()),
                None => None,
            };
            let name = member_name(display_name, &user_ids[i]);
            names.insert(user_ids[i].as_str().to_owned(), name);
        }
        i += 1;
    }
    assert(users.take(i as int) =~= users);
    assert(members@.take(i as int) =~= members@);
    names
}

// Laws

/// A sanitized name holds no control characters, and neither starts nor ends
/// with whitespace.
pub proof fn law_sanitized_names_are_clean(name: Seq<char>)
    ensures
        forall|i: int|
            0 <= i < cleaned_name(name).len() ==> !text::control_char(
                #[trigger] cleaned_name(name)[i],
            ),
        cleaned_name(name).len() > 0 ==> !text::whitespace_char(cleaned_name(name)[0])
            && !text::whitespace_char(cleaned_name(name).last()),
        cleaned_name(name).len() <= name.len(),
{
    let spaced = Seq::new(
        name.len(),
        |i: int|
            if text::control_char(name[i]) {
                ' '
            } else {
                name[i]
            },
    );
    assert(cleaned_name(name) == text::trimmed(spaced));
    text::lemma_trimmed_ends(spaced);
    text::lemma_trim_start(spaced);
    text::lemma_trim_end(text::trim_start(spaced));
    let from = spaced.len() - text::trim_start(spaced).len();
    assert forall|i: int| 0 <= i < cleaned_name(name).len() implies !text::control_char(
        #[trigger] cleaned_name(name)[i],
    ) by {
        assert(cleaned_name(name)[i] == spaced[from + i]);
    }
}

/// A text without markup becomes a plain message that mentions nobody,
/// whatever names are known.
pub proof fn law_plain_text_stays_plain(s: Seq<char>, names: Map<Seq<char>, Seq<char>>)
    requires
        !markup::has_markup(markup::tokens(s)),
    ensures
        message_of(s, names) == (MessageView {
            body: s,
            formatted: None,
            mentions: None,
            thread: None,
        }),
{
    markup::law_without_markup_the_body_is_the_text(s, names);
}

/// Whoever a message mentions also has a pill in it, and whoever has a pill
/// in it is mentioned, as far as the pill is a user ID.
pub proof fn law_mentions_are_pills(
    s: Seq<char>,
    names: Map<Seq<char>, Seq<char>>,
    user: Seq<char>,
)
    ensures
        ids::user_id_error(user) is None ==> (markup::tokens(s).contains(
            markup::Token::Mention { id: user },
        ) <==> message_of(s, names).mentions is Some && (message_of(
            s,
            names,
        ).mentions->0).0.contains(user)),
{
    markup::law_pills_are_mentions(markup::tokens(s), user);
}

/// Without links, a message mentions exactly the extracted user IDs that are
/// valid, and never the whole room.
pub proof fn law_extracted_users_are_mentioned(s: Seq<char>, names: Map<Seq<char>, Seq<char>>)
    requires
        !s.contains('['),
    ensures
        message_of(s, names).mentions is None <==> forall|id: Seq<char>|
            markup::mxids(s).contains(id) ==> #[trigger] ids::user_id_error(id) is Some,
        message_of(s, names).mentions matches Some((users, room)) ==> !room
            && forall|id: Seq<char>| #[trigger]
            users.contains(id) <==> markup::mxids(s).contains(id) && ids::user_id_error(id) is None,
{
    let list = markup::tokens(s);
    let users = markup::mentioned(list);
    assert forall|id: Seq<char>| #[trigger]
        users.contains(id) <==> markup::mxids(s).contains(id) && ids::user_id_error(id) is None by {
        markup::law_pills_are_mentions(list, id);
        markup::law_without_links_every_extracted_id_is_a_pill(s, id);
    }
    if forall|id: Seq<char>|
        markup::mxids(s).contains(id) ==> #[trigger] ids::user_id_error(id) is Some {
        assert(users =~= Set::<Seq<char>>::empty());
    } else {
        let id = choose|id: Seq<char>|
            markup::mxids(s).contains(id) && !(#[trigger] ids::user_id_error(id) is Some);
        assert(users.contains(id));
    }
}

/// A text with line breaks and no other markup keeps its lines: in the plain
/// body as they are, in the HTML body with `<br>` between them. It mentions
/// nobody.
pub proof fn law_lines_are_kept(s: Seq<char>, names: Map<Seq<char>, Seq<char>>)
    requires
        s.contains('\n'),
        !s.contains('@'),
        !s.contains('['),
        !text::occurs_in(s, "**"@),
        !text::occurs_in(s, "~~"@),
    ensures
        message_of(s, names) == (MessageView {
            body: s,
            formatted: Some(markup::with_breaks(markup::escaped(s))),
            mentions: None,
            thread: None,
        }),
{
    markup::law_line_breaks(s, names);
}

/// Every mention in a text has its pill in the HTML body, at its place and
/// whatever markers are open there, and its label in the plain body.
pub proof fn law_every_mention_has_its_pill(
    s: Seq<char>,
    names: Map<Seq<char>, Seq<char>>,
    i: int,
    id: Seq<char>,
)
    requires
        0 <= i < markup::tokens(s).len(),
        markup::tokens(s)[i] == (markup::Token::Mention { id }),
    ensures
        ({
            let list = markup::tokens(s);
            let before = list.take(i);
            let after = list.skip(i + 1);
            let label = if names.contains_key(id) {
                names[id]
            } else {
                markup::default_label(id)
            };
            let link = "<a href=\"https://matrix.to/#/"@ + markup::escaped(id) + "\">"@
                + markup::escaped(label) + "</a>"@;
            &&& message_of(s, names).formatted == Some(
                markup::opened_html(before, names, false, false) + (link + markup::html_text(
                    after,
                    names,
                    markup::odd_bold(before),
                    markup::odd_strike(before),
                )),
            )
            &&& message_of(s, names).body == markup::plain_text(before, names) + (label
                + markup::plain_text(after, names))
        }),
{
    let list = markup::tokens(s);
    let before = list.take(i);
    let after = list.skip(i + 1);
    markup::law_mentions_are_linked(before, id, after, names, false, false);
    assert(list =~= before + (seq![markup::Token::Mention { id }] + after));
}

/// A text has an HTML body if and only if it holds more than plain
/// characters; the bodies are those of its tokens. It mentions the room never,
/// and answers in no thread.
pub proof fn law_messages_show_their_tokens(s: Seq<char>, names: Map<Seq<char>, Seq<char>>)
    ensures
        message_of(s, names).formatted is Some <==> exists|i: int|
            0 <= i < markup::tokens(s).len() && !((#[trigger] markup::tokens(s)[i]) is Plain),
        message_of(s, names).body == markup::plain_text(markup::tokens(s), names),
        message_of(s, names).formatted matches Some(html) ==> html == markup::html_text(
            markup::tokens(s),
            names,
            false,
            false,
        ),
        message_of(s, names).mentions matches Some((users, room)) ==> !room && users != Set::<
            Seq<char>,
        >::empty(),
        message_of(s, names).thread is None,
{
    markup::law_when_html_is_needed(markup::tokens(s));
    if !markup::has_markup(markup::tokens(s)) {
        markup::law_without_markup_the_body_is_the_text(s, names);
    }
}

/// Names only change how users are called: with other names a message mentions
/// the same users, and has an HTML body where it had one.
pub proof fn law_names_change_labels_only(
    s: Seq<char>,
    names: Map<Seq<char>, Seq<char>>,
    others: Map<Seq<char>, Seq<char>>,
)
    ensures
        message_of(s, names).mentions == message_of(s, others).mentions,
        message_of(s, names).formatted is Some <==> message_of(s, others).formatted is Some,
{
}

/// The message that mentions one user says what the text of the same parts
/// says, where these hold no other markup and the user ID ends where the
/// suffix starts.
pub proof fn law_mentioning_a_user_is_like_writing_the_mention(
    user: Seq<char>,
    label: Seq<char>,
    prefix: Seq<char>,
    suffix: Seq<char>,
)
    requires
        markup::written_as_user_id(user),
        ids::user_id_error(user) is None,
        suffix.len() > 0 ==> markup::ends_mxid(suffix[0]),
        forall|i: int|
            0 <= i < prefix.len() ==> {
                let c = #[trigger] prefix[i];
                c != '*' && c != '~' && c != '[' && c != '@' && c != '\n'
            },
        forall|i: int|
            0 <= i < suffix.len() ==> {
                let c = #[trigger] suffix[i];
                c != '*' && c != '~' && c != '[' && c != '@' && c != '\n'
            },
    ensures
        mention_message(user, label, prefix, suffix) == message_of(
            prefix + (user + suffix),
            Map::empty().insert(user, label),
        ),
{
    let names = Map::<Seq<char>, Seq<char>>::empty().insert(user, label);
    let mention = markup::Token::Mention { id: user };
    let text = prefix + (user + suffix);
    let list = markup::tokens(text);
    markup::lemma_plain_run(prefix, user + suffix);
    markup::law_user_ids_are_mentions(user, suffix);
    markup::law_ordinary_text_has_no_markup(prefix);
    markup::law_ordinary_text_has_no_markup(suffix);
    let before = markup::tokens(prefix);
    let tail = markup::tokens(suffix);
    assert(list == before + (seq![mention] + tail));
    markup::law_mentions_are_linked(before, user, tail, names, false, false);
    markup::law_without_markup_the_body_is_the_text(prefix, names);
    markup::law_without_markup_the_body_is_the_text(suffix, names);
    markup::lemma_plain_html(prefix, names, false, false);
    markup::lemma_plain_html(suffix, names, false, false);
    assert(mention_message(user, label, prefix, suffix).body =~= message_of(text, names).body);
    assert((mention_message(user, label, prefix, suffix).formatted->0) =~= (message_of(
        text,
        names,
    ).formatted->0));
    let users = markup::mentioned(list);
    markup::law_when_html_is_needed(before);
    markup::law_when_html_is_needed(tail);
    assert forall|id: Seq<char>| users.contains(id) <==> set![user].contains(id) by {
        markup::law_pills_are_mentions(list, id);
        assert(list[before.len() as int] == mention);
        if list.contains(markup::Token::Mention { id }) {
            let k = choose|k: int| 0 <= k < list.len() && list[k] == (markup::Token::Mention { id });
            if k < before.len() {
                assert(list[k] == before[k]);
            } else if k > before.len() {
                assert(list[k] == tail[k - before.len() - 1]);
            }
        }
    }
    assert(users =~= set![user]);
    assert(users.contains(user));
}

/// A name without control characters and without whitespace at its ends stays
/// as it is; a control character counts as a space.
pub proof fn law_clean_names_stay(name: Seq<char>, a: Seq<char>, c: char, b: Seq<char>)
    ensures
        (forall|i: int| 0 <= i < name.len() ==> !text::control_char(#[trigger] name[i])) && (
        name.len() > 0 ==> !text::whitespace_char(name[0]) && !text::whitespace_char(name.last()))
            ==> cleaned_name(name) == name,
        text::control_char(c) ==> cleaned_name(a + seq![c] + b) == cleaned_name(
            a + seq![' '] + b,
        ),
{
    let spaced = |s: Seq<char>|
        Seq::new(
            s.len(),
            |i: int|
                if text::control_char(s[i]) {
                    ' '
                } else {
                    s[i]
                },
        );
    if (forall|i: int| 0 <= i < name.len() ==> !text::control_char(#[trigger] name[i])) && (
    name.len() > 0 ==> !text::whitespace_char(name[0]) && !text::whitespace_char(name.last())) {
        assert(spaced(name) =~= name);
        text::lemma_trimmed_unchanged(name);
        assert(cleaned_name(name) == text::trimmed(spaced(name)));
    }
    if text::control_char(c) {
        assert(spaced(a + seq![c] + b) =~= spaced(a + seq![' '] + b));
        assert(cleaned_name(a + seq![c] + b) == text::trimmed(spaced(a + seq![c] + b)));
        assert(cleaned_name(a + seq![' '] + b) == text::trimmed(spaced(a + seq![' '] + b)));
    }
}

/// A member goes by their display name where anything is left of it, and by
/// the localpart of their user ID otherwise.
pub proof fn law_how_members_are_called(name: Seq<char>, user: Seq<char>)
    ensures
        cleaned_name(name).len() > 0 ==> shown_name(Some(name), user) == cleaned_name(name),
        cleaned_name(name).len() == 0 ==> shown_name(Some(name), user) == shown_name(None, user),
        shown_name(None, user) == ids::localpart_of(user),
{
}

/// The texts that are looked up are those that are user IDs, all of them and
/// in order.
pub proof fn law_valid_ids_are_kept(list: Seq<Seq<char>>)
    ensures
        valid_ids(list) == list.filter(|id: Seq<char>| ids::user_id_error(id) is None),
    decreases list.len(),
{
    reveal(Seq::filter);
    if list.len() > 0 {
        law_valid_ids_are_kept(list.drop_last());
    }
}

/// Exactly the users who were found to be members have a name: that of the
/// last time they were looked up.
pub proof fn law_members_have_names(
    users: Seq<Seq<char>>,
    members: Seq<Option<Member>>,
    user: Seq<char>,
)
    requires
        users.len() == members.len(),
    ensures
        names_of_members(users, members).contains_key(user) <==> exists|i: int|
            0 <= i < users.len() && #[trigger] users[i] == user && members[i] is Some,
        users.no_duplicates() ==> forall|i: int|
            0 <= i < users.len() && #[trigger] users[i] == user && members[i] is Some
                ==> names_of_members(users, members)[user] == name_of_member(members[i]->0, user),
    decreases users.len(),
{
    if users.len() > 0 {
        let shorter = users.drop_last();
        let fewer = members.drop_last();
        law_members_have_names(shorter, fewer, user);
        let last = users.len() - 1;
        let map = names_of_members(users, members);
        if exists|i: int| 0 <= i < shorter.len() && #[trigger] shorter[i] == user && fewer[i] is Some {
            let i = choose|i: int|
                0 <= i < shorter.len() && #[trigger] shorter[i] == user && fewer[i] is Some;
            assert(users[i] == user && members[i] is Some);
        }
        if exists|i: int| 0 <= i < users.len() && #[trigger] users[i] == user && members[i] is Some {
            let i = choose|i: int|
                0 <= i < users.len() && #[trigger] users[i] == user && members[i] is Some;
            if i < last {
                assert(shorter[i] == user && fewer[i] is Some);
            }
        }
        assert(users[last] == users.last());
        if users.no_duplicates() {
            assert(shorter.no_duplicates());
            assert forall|i: int|
                0 <= i < users.len() && #[trigger] users[i] == user && members[i] is Some implies map[user]
                == name_of_member(members[i]->0, user) by {
                if i < last {
                    assert(shorter[i] == user && fewer[i] == members[i]);
                    assert(users[last] != user);
                }
            }
        }
    }
}

/// What a message says is what it holds.
pub proof fn law_messages_are_seen_as_they_are(message: Message)
    ensures
        message@.body == message.body@,
        message@.formatted is Some <==> message.formatted is Some,
        message.formatted is Some ==> message@.formatted->0 == (message.formatted->0)@,
        message@.mentions is Some <==> message.mentions is Some,
        message.mentions is Some ==> message@.mentions->0 == (
            (message.mentions->0).user_ids@,
            (message.mentions->0).room,
        ),
        message@.thread is Some <==> message.relates_to is Some,
        message.relates_to is Some ==> message@.thread->0 == (
            (message.relates_to->0).root@,
            (message.relates_to->0).in_reply_to@,
        ),
{
}

/// Each member's name is looked up in turn; where a user is asked for twice,
/// the later answer counts, and one who is no member changes nothing.
pub proof fn law_members_are_named_in_turn(
    users: Seq<Seq<char>>,
    members: Seq<Option<Member>>,
    user: Seq<char>,
    member: Member,
)
    requires
        users.len() == members.len(),
    ensures
        ({
            let before = names_of_members(users, members);
            &&& names_of_members(users.push(user), members.push(None)) == before
            &&& names_of_members(users.push(user), members.push(Some(member)))[user]
                == shown_name(text::option_view(member.display_name), user)
            &&& names_of_members(users.push(user), members.push(Some(member))) == before.insert(
                user,
                shown_name(text::option_view(member.display_name), user),
            )
            &&& names_of_members(Seq::empty(), Seq::empty()) == Map::<Seq<char>, Seq<char>>::empty()
        }),
{
    assert(users.push(user).drop_last() =~= users);
    assert(members.push(None).drop_last() =~= members);
    assert(members.push(Some(member)).drop_last() =~= members);
}

/// What stands before and after a mentioned user is taken literally, character
/// by character, markup or not; between them are the label and the pill. That
/// user and no one else is mentioned.
pub proof fn law_mentions_take_the_rest_literally(
    user: Seq<char>,
    label: Seq<char>,
    a: Seq<char>,
    prefix: Seq<char>,
    suffix: Seq<char>,
    b: Seq<char>,
)
    ensures
        ({
            let none = Seq::<char>::empty();
            let bare = mention_message(user, label, none, none);
            let inner = mention_message(user, label, prefix, suffix);
            let whole = mention_message(user, label, a + prefix, suffix + b);
            &&& bare.body == label
            &&& bare.formatted == Some(
                "<a href=\"https://matrix.to/#/"@ + markup::escaped(user) + "\">"@
                    + markup::escaped(label) + "</a>"@,
            )
            &&& whole.body == a + inner.body + b
            &&& inner.formatted is Some
            &&& whole.formatted == Some(
                markup::escaped(a) + inner.formatted->0 + markup::escaped(b),
            )
            &&& whole.mentions == Some((set![user], false))
            &&& whole.thread is None
        }),
{
    let none = Seq::<char>::empty();
    let bare = mention_message(user, label, none, none);
    let inner = mention_message(user, label, prefix, suffix);
    let whole = mention_message(user, label, a + prefix, suffix + b);
    assert(bare.body =~= label);
    assert(bare.formatted->0 =~= markup::pill(user, label));
    assert(whole.body =~= a + inner.body + b);
    markup::law_escaping_goes_by_characters(a, prefix, ' ');
    markup::law_escaping_goes_by_characters(suffix, b, ' ');
    assert(whole.formatted->0 =~= markup::escaped(a) + inner.formatted->0 + markup::escaped(b));
}

/// Whitespace around a name does not count, and a name of nothing else is
/// none.
pub proof fn law_names_are_trimmed(blank: Seq<char>, name: Seq<char>, end: Seq<char>)
    requires
        text::all_blank(blank),
        text::all_blank(end),
        forall|i: int| 0 <= i < name.len() ==> !text::control_char(#[trigger] name[i]),
        name.len() > 0 ==> !text::whitespace_char(name[0]) && !text::whitespace_char(name.last()),
    ensures
        cleaned_name(blank + name + end) == name,
{
    let spaced = |s: Seq<char>|
        Seq::new(
            s.len(),
            |i: int|
                if text::control_char(s[i]) {
                    ' '
                } else {
                    s[i]
                },
        );
    let whole = blank + name + end;
    vstd::utf8::char_u32_cast(' ', 32u32);
    assert(text::whitespace_char(' '));
    assert(spaced(name) =~= name);
    assert(spaced(whole) =~= spaced(blank) + name + spaced(end));
    assert(text::all_blank(spaced(blank))) by {
        assert forall|i: int| 0 <= i < spaced(blank).len() implies text::whitespace_char(
            #[trigger] spaced(blank)[i],
        ) by {
            assert(text::whitespace_char(blank[i]));
        }
    }
    assert(text::all_blank(spaced(end))) by {
        assert forall|i: int| 0 <= i < spaced(end).len() implies text::whitespace_char(
            #[trigger] spaced(end)[i],
        ) by {
            assert(text::whitespace_char(end[i]));
        }
    }
    text::law_trimming_takes_the_ends_off(spaced(blank), name, spaced(end));
    assert(cleaned_name(whole) == text::trimmed(spaced(whole)));
}

} // verus!
