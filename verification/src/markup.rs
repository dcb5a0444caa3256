//! The lightweight markup of outgoing messages: its grammar and its meaning.
//!
//! A text is a sequence of tokens. Each token stands for something in the
//! plain body, in the HTML body, and possibly for a mention.
use vstd::prelude::*;

use crate::ids;
use crate::text;

verus! {

/// One piece of markup.
pub enum Token {
    /// `**`
    Bold,
    /// `~~`
    Strike,
    /// `[label](url)`
    Link { label: Seq<char>, url: Seq<char> },
    /// `@user:server`
    Mention { id: Seq<char> },
    /// A line break.
    Newline,
    /// Any other character.
    Plain { c: char },
}

// The grammar

/// The characters that end an `@user:server` token.
pub open spec fn ends_mxid(c: char) -> bool {
    ||| text::whitespace_char(c)
    ||| c == ','
    ||| c == '!'
    ||| c == '?'
    ||| c == '*'
    ||| c == ')'
    ||| c == ']'
    ||| c == '"'
    ||| c == '\''
}

/// `ends_mxid` as a predicate.
pub open spec fn mxid_end() -> spec_fn(char) -> bool {
    |c: char| ends_mxid(c)
}

/// The longest prefix of `s` without a character that ends a token.
pub open spec fn mxid_prefix(s: Seq<char>) -> Seq<char> {
    s.take(text::first_index(s, mxid_end()))
}

/// Whether a token is written like a user ID: it has a colon and takes more
/// than four bytes.
pub open spec fn looks_like_mxid(token: Seq<char>) -> bool {
    vstd::utf8::encode_utf8(token).len() > 4 && token.contains(':')
}

/// The link `[label](url)` at the start of `s`: label, URL and length. The
/// label ends at the first `]`, the URL at the first `)` after it.
pub open spec fn link_prefix(s: Seq<char>) -> Option<(Seq<char>, Seq<char>, int)> {
    let inner = s.skip(1);
    let n = text::index_of_char(inner, ']');
    let rest = inner.skip(n + 2);
    let m = text::index_of_char(rest, ')');
    if s.len() > 0 && s[0] == '[' && n + 1 < inner.len() && inner[n + 1] == '(' && m < rest.len() {
        Some((inner.take(n), rest.take(m), n + m + 4))
    } else {
        None
    }
}

/// The first token of a non-empty text, and how many characters it takes.
pub open spec fn first_token(s: Seq<char>) -> (Token, int) {
    if s[0] == '*' && s.len() > 1 && s[1] == '*' {
        (Token::Bold, 2)
    } else if s[0] == '~' && s.len() > 1 && s[1] == '~' {
        (Token::Strike, 2)
    } else if link_prefix(s) is Some {
        let (label, url, n) = link_prefix(s)->0;
        (Token::Link { label, url }, n)
    } else if s[0] == '@' && looks_like_mxid(mxid_prefix(s)) {
        (Token::Mention { id: mxid_prefix(s) }, mxid_prefix(s).len() as int)
    } else if s[0] == '\n' {
        (Token::Newline, 1)
    } else {
        (Token::Plain { c: s[0] }, 1)
    }
}

/// A token takes at least one character and no more than there are.
pub proof fn lemma_first_token(s: Seq<char>)
    requires
        s.len() > 0,
    ensures
        1 <= first_token(s).1 <= s.len(),
{
    let inner = s.skip(1);
    text::lemma_first_index(inner, text::equal_to(']'));
    let rest = inner.skip(text::index_of_char(inner, ']') + 2);
    text::lemma_first_index(rest, text::equal_to(')'));
    lemma_mxid_prefix(s);
}

/// What the longest prefix without a token end is.
pub proof fn lemma_mxid_prefix(s: Seq<char>)
    ensures
        mxid_prefix(s).len() == text::first_index(s, mxid_end()),
        mxid_prefix(s).len() <= s.len(),
        s.len() > 0 && !ends_mxid(s[0]) ==> mxid_prefix(s).len() >= 1,
        forall|i: int| 0 <= i < mxid_prefix(s).len() ==> !ends_mxid(#[trigger] s[i]),
        mxid_prefix(s).len() < s.len() ==> ends_mxid(s[mxid_prefix(s).len() as int]),
{
    text::lemma_first_index(s, mxid_end());
    assert forall|i: int| 0 <= i < mxid_prefix(s).len() implies !ends_mxid(#[trigger] s[i]) by {
        assert(!mxid_end()(s[i]));
    }
}

/// The tokens of a text.
pub open spec fn tokens(s: Seq<char>) -> Seq<Token>
    decreases s.len(),
{
    if s.len() == 0 {
        seq![]
    } else {
        proof {
            lemma_first_token(s);
        }
        let (token, n) = first_token(s);
        seq![token] + tokens(s.skip(n))
    }
}

/// The first token and the ones after it.
pub proof fn lemma_tokens(s: Seq<char>)
    requires
        s.len() > 0,
    ensures
        tokens(s).len() > 0,
        tokens(s)[0] == first_token(s).0,
        tokens(s).drop_first() == tokens(s.skip(first_token(s).1)),
{
    let (token, n) = first_token(s);
    assert(tokens(s).drop_first() =~= tokens(s.skip(n)));
}

// The meaning

/// How a character is written in HTML content and attributes.
pub open spec fn escaped_char(c: char) -> Seq<char> {
    if c == '&' {
        "&amp;"@
    } else if c == '<' {
        "&lt;"@
    } else if c == '>' {
        "&gt;"@
    } else if c == '"' {
        "&quot;"@
    } else if c == '\'' {
        "&#39;"@
    } else {
        seq![c]
    }
}

/// How a text is written in HTML content and attributes.
pub open spec fn escaped(s: Seq<char>) -> Seq<char>
    decreases s.len(),
{
    if s.len() == 0 {
        seq![]
    } else {
        escaped(s.drop_last()) + escaped_char(s.last())
    }
}

/// `s` without its leading `@` characters.
pub open spec fn without_sigils(s: Seq<char>) -> Seq<char>
    decreases s.len(),
{
    if s.len() > 0 && s[0] == '@' {
        without_sigils(s.drop_first())
    } else {
        s
    }
}

/// The label of a user without a display name: what precedes the colon.
pub open spec fn default_label(token: Seq<char>) -> Seq<char> {
    without_sigils(token.take(text::index_of_char(token, ':')))
}

/// The label of a user: the given name, else the default.
pub open spec fn label_of(id: Seq<char>, names: Map<Seq<char>, Seq<char>>) -> Seq<char> {
    if names.contains_key(id) {
        names[id]
    } else {
        default_label(id)
    }
}

/// An HTML link.
pub open spec fn anchor(url: Seq<char>, label: Seq<char>) -> Seq<char> {
    "<a href=\""@ + escaped(url) + "\">"@ + escaped(label) + "</a>"@
}

/// The HTML link that clients show as a user's pill.
pub open spec fn pill(id: Seq<char>, label: Seq<char>) -> Seq<char> {
    "<a href=\"https://matrix.to/#/"@ + escaped(id) + "\">"@ + escaped(label) + "</a>"@
}

/// What a token leaves in the plain body.
pub open spec fn token_text(token: Token, names: Map<Seq<char>, Seq<char>>) -> Seq<char> {
    match token {
        Token::Bold => seq![],
        Token::Strike => seq![],
        Token::Link { label, .. } => label,
        Token::Mention { id } => label_of(id, names),
        Token::Newline => seq!['\n'],
        Token::Plain { c } => seq![c],
    }
}

/// The plain body.
pub open spec fn plain_text(list: Seq<Token>, names: Map<Seq<char>, Seq<char>>) -> Seq<char>
    decreases list.len(),
{
    if list.len() == 0 {
        seq![]
    } else {
        token_text(list[0], names) + plain_text(list.drop_first(), names)
    }
}

/// What a token stands for in the HTML body, between bold and strike markers
/// that are open or not.
pub open spec fn token_html(
    token: Token,
    names: Map<Seq<char>, Seq<char>>,
    bold: bool,
    strike: bool,
) -> Seq<char> {
    match token {
        Token::Bold => if bold {
            "</strong>"@
        } else {
            "<strong>"@
        },
        Token::Strike => if strike {
            "</del>"@
        } else {
            "<del>"@
        },
        Token::Link { label, url } => anchor(url, label),
        Token::Mention { id } => pill(id, label_of(id, names)),
        Token::Newline => "<br>"@,
        Token::Plain { c } => escaped_char(c),
    }
}

/// The HTML that closes the markers still open at the end.
pub open spec fn closing(bold: bool, strike: bool) -> Seq<char> {
    (if bold {
        "</strong>"@
    } else {
        seq![]
    }) + (if strike {
        "</del>"@
    } else {
        seq![]
    })
}

/// The HTML body, between markers that are open or not.
pub open spec fn html_text(
    list: Seq<Token>,
    names: Map<Seq<char>, Seq<char>>,
    bold: bool,
    strike: bool,
) -> Seq<char>
    decreases list.len(),
{
    if list.len() == 0 {
        closing(bold, strike)
    } else {
        token_html(list[0], names, bold, strike) + html_text(
            list.drop_first(),
            names,
            bold != (list[0] is Bold),
            strike != (list[0] is Strike),
        )
    }
}

/// Whether any token needs an HTML body.
pub open spec fn has_markup(list: Seq<Token>) -> bool
    decreases list.len(),
{
    list.len() > 0 && (!(list[0] is Plain) || has_markup(list.drop_first()))
}

/// The users whose mention tokens are valid user IDs.
pub open spec fn mentioned(list: Seq<Token>) -> Set<Seq<char>>
    decreases list.len(),
{
    if list.len() == 0 {
        Set::empty()
    } else {
        let rest = mentioned(list.drop_first());
        match list[0] {
            Token::Mention { id } => if ids::user_id_error(id) is None {
                rest.insert(id)
            } else {
                rest
            },
            _ => rest,
        }
    }
}

/// All `@user:server` tokens of a text, wherever they stand.
pub open spec fn mxids(s: Seq<char>) -> Seq<Seq<char>>
    decreases s.len(),
{
    if s.len() == 0 {
        seq![]
    } else if s[0] == '@' {
        proof {
            lemma_mxid_prefix(s);
        }
        let token = mxid_prefix(s);
        let rest = mxids(s.skip(token.len() as int));
        if looks_like_mxid(token) {
            seq![token] + rest
        } else {
            rest
        }
    } else {
        mxids(s.skip(1))
    }
}

/// A list without the items that stand in it before.
pub open spec fn deduplicated(list: Seq<Seq<char>>) -> Seq<Seq<char>>
    decreases list.len(),
{
    if list.len() == 0 {
        seq![]
    } else {
        let rest = deduplicated(list.drop_last());
        if rest.contains(list.last()) {
            rest
        } else {
            rest.push(list.last())
        }
    }
}

// Laws

/// Escaped text holds none of the characters that could open or close a tag
/// or an attribute.
pub proof fn law_escaped_is_inert(s: Seq<char>)
    ensures
        forall|i: int|
            0 <= i < escaped(s).len() ==> {
                let c = #[trigger] escaped(s)[i];
                c != '<' && c != '>' && c != '"' && c != '\''
            },
    decreases s.len(),
{
    if s.len() > 0 {
        law_escaped_is_inert(s.drop_last());
        reveal_escapes();
        let head = escaped(s.drop_last());
        let tail = escaped_char(s.last());
        assert forall|i: int| 0 <= i < escaped(s).len() implies {
            let c = #[trigger] escaped(s)[i];
            c != '<' && c != '>' && c != '"' && c != '\''
        } by {
            if i < head.len() {
                assert(escaped(s)[i] == head[i]);
            } else {
                assert(escaped(s)[i] == tail[i - head.len()]);
            }
        }
    }
}

/// What the five escapes are.
proof fn reveal_escapes()
    ensures
        "&amp;"@ == seq!['&', 'a', 'm', 'p', ';'],
        "&lt;"@ == seq!['&', 'l', 't', ';'],
        "&gt;"@ == seq!['&', 'g', 't', ';'],
        "&quot;"@ == seq!['&', 'q', 'u', 'o', 't', ';'],
        "&#39;"@ == seq!['&', '#', '3', '9', ';'],
{
    reveal_strlit("&amp;");
    reveal_strlit("&lt;");
    reveal_strlit("&gt;");
    reveal_strlit("&quot;");
    reveal_strlit("&#39;");
    assert("&amp;"@ =~= seq!['&', 'a', 'm', 'p', ';']);
    assert("&lt;"@ =~= seq!['&', 'l', 't', ';']);
    assert("&gt;"@ =~= seq!['&', 'g', 't', ';']);
    assert("&quot;"@ =~= seq!['&', 'q', 'u', 'o', 't', ';']);
    assert("&#39;"@ =~= seq!['&', '#', '3', '9', ';']);
}

/// Escaping a text escapes its first character and then the rest.
proof fn lemma_escaped_front(s: Seq<char>)
    requires
        s.len() > 0,
    ensures
        escaped(s) == escaped_char(s[0]) + escaped(s.drop_first()),
    decreases s.len(),
{
    if s.len() == 1 {
        assert(s.drop_last() =~= Seq::<char>::empty());
        assert(s.drop_first() =~= Seq::<char>::empty());
        assert(escaped(s) =~= escaped_char(s[0]) + escaped(s.drop_first()));
    } else {
        lemma_escaped_front(s.drop_last());
        assert(s.drop_last().drop_first() =~= s.drop_first().drop_last());
        assert(escaped(s) =~= escaped_char(s[0]) + escaped(s.drop_first()));
    }
}

/// Characters are told apart by the first two characters of what they are
/// written as.
#[verifier::spinoff_prover]
proof fn lemma_escapes_differ(x: char, y: char)
    requires
        escaped_char(x)[0] == escaped_char(y)[0],
        escaped_char(x)[0] == '&' ==> escaped_char(x)[1] == escaped_char(y)[1],
    ensures
        x == y,
{
    reveal_escapes();
    assert(escaped_char('&')[1] == 'a');
    assert(escaped_char('<')[1] == 'l');
    assert(escaped_char('>')[1] == 'g');
    assert(escaped_char('"')[1] == 'q');
    assert(escaped_char('\'')[1] == '#');
}

/// How long what a character is written as is.
proof fn lemma_escape_len(c: char)
    ensures
        escaped_char(c).len() >= 1,
        escaped_char(c)[0] == '&' ==> escaped_char(c).len() >= 2,
{
    reveal_escapes();
}

/// No two texts are escaped alike: escaping loses nothing.
#[verifier::spinoff_prover]
pub proof fn law_escaping_is_injective(a: Seq<char>, b: Seq<char>)
    requires
        escaped(a) == escaped(b),
    ensures
        a == b,
    decreases a.len(),
{
    if a.len() > 0 {
        lemma_escaped_front(a);
        lemma_escape_len(a[0]);
    }
    if b.len() > 0 {
        lemma_escaped_front(b);
        lemma_escape_len(b[0]);
    }
    if a.len() > 0 && b.len() > 0 {
        let x = escaped_char(a[0]);
        let y = escaped_char(b[0]);
        assert(escaped(a)[0] == x[0]);
        assert(escaped(b)[0] == y[0]);
        if x[0] == '&' {
            assert(escaped(a)[1] == x[1]);
            assert(escaped(b)[1] == y[1]);
        }
        lemma_escapes_differ(a[0], b[0]);
        assert(escaped(a.drop_first()) =~= escaped(a).skip(x.len() as int));
        assert(escaped(b.drop_first()) =~= escaped(b).skip(x.len() as int));
        law_escaping_is_injective(a.drop_first(), b.drop_first());
        assert(a =~= seq![a[0]] + a.drop_first());
        assert(b =~= seq![b[0]] + b.drop_first());
    } else {
        assert(a =~= b);
    }
}

/// A text whose tokens are all plain characters is its own plain body, and
/// mentions nobody.
pub proof fn law_without_markup_the_body_is_the_text(
    s: Seq<char>,
    names: Map<Seq<char>, Seq<char>>,
)
    requires
        !has_markup(tokens(s)),
    ensures
        plain_text(tokens(s), names) == s,
        mentioned(tokens(s)) == Set::<Seq<char>>::empty(),
    decreases s.len(),
{
    if s.len() > 0 {
        lemma_tokens(s);
        lemma_first_token(s);
        law_without_markup_the_body_is_the_text(s.skip(1), names);
        assert(plain_text(tokens(s), names) =~= s);
    }
}

/// A text without `*`, `~`, `[`, `@` and line breaks holds no markup.
pub proof fn law_ordinary_text_has_no_markup(s: Seq<char>)
    requires
        forall|i: int|
            0 <= i < s.len() ==> {
                let c = #[trigger] s[i];
                c != '*' && c != '~' && c != '[' && c != '@' && c != '\n'
            },
    ensures
        !has_markup(tokens(s)),
    decreases s.len(),
{
    if s.len() > 0 {
        lemma_tokens(s);
        assert(s[0] != '[');
        assert forall|i: int| 0 <= i < s.skip(1).len() implies {
            let c = #[trigger] s.skip(1)[i];
            c != '*' && c != '~' && c != '[' && c != '@' && c != '\n'
        } by {
            assert(s.skip(1)[i] == s[i + 1]);
        }
        law_ordinary_text_has_no_markup(s.skip(1));
    }
}

/// Every pill is a mention, and every mention has a pill, as far as the
/// token is a valid user ID.
pub proof fn law_pills_are_mentions(list: Seq<Token>, id: Seq<char>)
    ensures
        mentioned(list).contains(id) <==> list.contains(Token::Mention { id })
            && ids::user_id_error(id) is None,
    decreases list.len(),
{
    if list.len() > 0 {
        let rest = list.drop_first();
        law_pills_are_mentions(rest, id);
        assert(list.contains(Token::Mention { id }) <==> list[0] == (Token::Mention { id })
            || rest.contains(Token::Mention { id })) by {
            if rest.contains(Token::Mention { id }) {
                let k = choose|k: int| 0 <= k < rest.len() && rest[k] == (Token::Mention { id });
                assert(list[k + 1] == (Token::Mention { id }));
            }
            if list.contains(Token::Mention { id }) {
                let k = choose|k: int| 0 <= k < list.len() && list[k] == (Token::Mention { id });
                if k > 0 {
                    assert(rest[k - 1] == (Token::Mention { id }));
                }
            }
        }
    }
}

/// How many bold markers there are, counted modulo two.
pub open spec fn odd_bold(list: Seq<Token>) -> bool
    decreases list.len(),
{
    if list.len() == 0 {
        false
    } else {
        odd_bold(list.drop_first()) != (list[0] is Bold)
    }
}

/// How many strike markers there are, counted modulo two.
pub open spec fn odd_strike(list: Seq<Token>) -> bool
    decreases list.len(),
{
    if list.len() == 0 {
        false
    } else {
        odd_strike(list.drop_first()) != (list[0] is Strike)
    }
}

/// A bold marker that is still open at the end is closed there: writing the
/// missing marker changes nothing.
pub proof fn law_open_bold_is_closed(
    list: Seq<Token>,
    names: Map<Seq<char>, Seq<char>>,
    bold: bool,
    strike: bool,
)
    requires
        odd_bold(list) != bold,
    ensures
        html_text(list.push(Token::Bold), names, bold, strike) == html_text(
            list,
            names,
            bold,
            strike,
        ),
    decreases list.len(),
{
    let longer = list.push(Token::Bold);
    if list.len() == 0 {
        assert(longer.drop_first() =~= Seq::<Token>::empty());
        reveal_with_fuel(html_text, 2);
        assert(html_text(longer, names, bold, strike) =~= closing(bold, strike));
    } else {
        assert(longer.drop_first() =~= list.drop_first().push(Token::Bold));
        law_open_bold_is_closed(
            list.drop_first(),
            names,
            bold != (list[0] is Bold),
            strike != (list[0] is Strike),
        );
    }
}

/// A strike marker that is still open at the end is closed there, after any
/// open bold marker: writing the missing markers changes nothing.
pub proof fn law_open_strike_is_closed(
    list: Seq<Token>,
    names: Map<Seq<char>, Seq<char>>,
    bold: bool,
    strike: bool,
)
    requires
        odd_bold(list) == bold,
        odd_strike(list) != strike,
    ensures
        html_text(list.push(Token::Strike), names, bold, strike) == html_text(
            list,
            names,
            bold,
            strike,
        ),
    decreases list.len(),
{
    let longer = list.push(Token::Strike);
    if list.len() == 0 {
        assert(longer.drop_first() =~= Seq::<Token>::empty());
        reveal_with_fuel(html_text, 2);
        assert(html_text(longer, names, bold, strike) =~= closing(bold, strike));
    } else {
        assert(longer.drop_first() =~= list.drop_first().push(Token::Strike));
        law_open_strike_is_closed(
            list.drop_first(),
            names,
            bold != (list[0] is Bold),
            strike != (list[0] is Strike),
        );
    }
}

/// Deduplication keeps every item once.
pub proof fn law_deduplicated(list: Seq<Seq<char>>)
    ensures
        deduplicated(list).no_duplicates(),
        forall|x: Seq<char>| deduplicated(list).contains(x) <==> list.contains(x),
    decreases list.len(),
{
    if list.len() > 0 {
        law_deduplicated(list.drop_last());
        let rest = deduplicated(list.drop_last());
        assert forall|x: Seq<char>| deduplicated(list).contains(x) <==> list.contains(x) by {
            if list.contains(x) && x != list.last() {
                let k = choose|k: int| 0 <= k < list.len() && list[k] == x;
                assert(list.drop_last()[k] == x);
            }
            if list.drop_last().contains(x) {
                let k = choose|k: int|
                    0 <= k < list.drop_last().len() && list.drop_last()[k] == x;
                assert(list[k] == x);
            }
            assert(list[list.len() - 1] == list.last());
            if rest.contains(x) {
                let k = choose|k: int| 0 <= k < rest.len() && rest[k] == x;
                assert(deduplicated(list)[k] == x);
            }
            if !rest.contains(list.last()) {
                assert(deduplicated(list)[rest.len() as int] == list.last());
            }
        }
    }
}

/// A text takes at least as many bytes as what remains of it.
proof fn lemma_shorter_tail(s: Seq<char>)
    requires
        s.len() > 0,
    ensures
        vstd::utf8::encode_utf8(s.skip(1)).len() <= vstd::utf8::encode_utf8(s).len(),
{
    assert(s.skip(1) =~= s.drop_first());
}

/// A run of characters that does not look like a user ID holds none.
proof fn lemma_skip_run(s: Seq<char>)
    requires
        !looks_like_mxid(mxid_prefix(s)),
    ensures
        mxids(s) == mxids(s.skip(mxid_prefix(s).len() as int)),
    decreases s.len(),
{
    lemma_mxid_prefix(s);
    let run = mxid_prefix(s);
    if run.len() == 0 {
        assert(s.skip(0) =~= s);
    } else if s[0] != '@' {
        let rest = s.skip(1);
        lemma_run_tail(s);
        lemma_shorter_tail(run);
        assert(!run.contains(':') ==> !run.skip(1).contains(':')) by {
            if run.skip(1).contains(':') {
                let k = choose|k: int| 0 <= k < run.skip(1).len() && run.skip(1)[k] == ':';
                assert(run[k + 1] == ':');
            }
        }
        lemma_skip_run(rest);
        assert(rest.skip(run.len() - 1) =~= s.skip(run.len() as int));
    }
}

/// The run at the second character is the rest of the run at the first.
proof fn lemma_run_tail(s: Seq<char>)
    requires
        mxid_prefix(s).len() > 0,
    ensures
        mxid_prefix(s.skip(1)) == mxid_prefix(s).skip(1),
{
    lemma_mxid_prefix(s);
    let n = mxid_prefix(s).len() as int;
    let rest = s.skip(1);
    assert forall|i: int| 0 <= i < n - 1 implies !mxid_end()(#[trigger] rest[i]) by {
        assert(rest[i] == s[i + 1]);
        assert(!ends_mxid(s[i + 1]));
    }
    text::lemma_first_index_unique(rest, mxid_end(), n - 1);
    assert(rest.take(n - 1) =~= s.take(n).skip(1));
}

/// What is found after a character that ends a token is found in the whole
/// text.
proof fn lemma_found_after_end(s: Seq<char>, k: int, id: Seq<char>)
    requires
        0 <= k < s.len(),
        ends_mxid(s[k]),
        mxids(s.skip(k + 1)).contains(id),
    ensures
        mxids(s).contains(id),
    decreases s.len(),
{
    lemma_mxid_prefix(s);
    if k > 0 {
        if s[0] != '@' {
            let rest = s.skip(1);
            assert(rest.skip(k) =~= s.skip(k + 1));
            lemma_found_after_end(rest, k - 1, id);
        } else {
            let n = mxid_prefix(s).len() as int;
            let rest = s.skip(n);
            assert(n <= k);
            assert(rest.skip(k - n + 1) =~= s.skip(k + 1));
            lemma_found_after_end(rest, k - n, id);
            lemma_contains_front(mxid_prefix(s), mxids(rest), id);
        }
    }
}

/// Every pill is one of the extracted user IDs, so looking up the names of
/// these labels every pill.
pub proof fn law_every_pill_is_extracted(s: Seq<char>, id: Seq<char>)
    requires
        tokens(s).contains(Token::Mention { id }),
    ensures
        mxids(s).contains(id),
        deduplicated(mxids(s)).contains(id),
{
    lemma_pill_is_found(s, id);
    law_deduplicated(mxids(s));
}

proof fn lemma_pill_is_found(s: Seq<char>, id: Seq<char>)
    requires
        tokens(s).contains(Token::Mention { id }),
    ensures
        mxids(s).contains(id),
    decreases s.len(),
{
    let mention = Token::Mention { id };
    let list = tokens(s);
    assert(list.len() > 0);
    assert(s.len() > 0);
    lemma_tokens(s);
    lemma_first_token(s);
    lemma_mxid_prefix(s);
    let (token, n) = first_token(s);
    let rest = s.skip(n);
    if token == mention {
        assert(mxids(s) =~= seq![id] + mxids(rest));
        assert(mxids(s)[0] == id);
    } else {
        let at = choose|at: int| 0 <= at < list.len() && list[at] == mention;
        assert(list.drop_first()[at - 1] == mention);
        lemma_pill_is_found(rest, id);
        match token {
            Token::Mention { id: other } => {
                lemma_contains_front(other, mxids(rest), id);
            },
            Token::Link { .. } => {
                let inner = s.skip(1);
                text::lemma_first_index(inner, text::equal_to(']'));
                let tail = inner.skip(text::index_of_char(inner, ']') + 2);
                text::lemma_first_index(tail, text::equal_to(')'));
                assert(s[n - 1] == ')') by {
                    let m = text::index_of_char(tail, ')');
                    assert(tail[m] == ')');
                    assert(s[n - 1] == tail[m]);
                }
                lemma_found_after_end(s, n - 1, id);
            },
            Token::Bold | Token::Strike => {
                assert(s.skip(1).skip(1) =~= rest);
                assert(mxids(s) == mxids(s.skip(1)));
                assert(s.skip(1)[0] == s[1]);
                assert(mxids(s.skip(1)) == mxids(rest));
            },
            Token::Newline => {},
            Token::Plain { c } => {
                if c == '@' {
                    lemma_skip_sigil(s);
                }
            },
        }
    }
}

/// An `@` that starts no user ID is like any other character.
proof fn lemma_skip_sigil(s: Seq<char>)
    requires
        s.len() > 0,
        s[0] == '@',
        !looks_like_mxid(mxid_prefix(s)),
    ensures
        mxids(s) == mxids(s.skip(1)),
{
    lemma_mxid_prefix(s);
    let run = mxid_prefix(s);
    let rest = s.skip(1);
    lemma_skip_run(s);
    lemma_run_tail(s);
    lemma_shorter_tail(run);
    assert(!run.contains(':') ==> !run.skip(1).contains(':')) by {
        if run.skip(1).contains(':') {
            let k = choose|k: int| 0 <= k < run.skip(1).len() && run.skip(1)[k] == ':';
            assert(run[k + 1] == ':');
        }
    }
    lemma_skip_run(rest);
    assert(rest.skip(run.len() - 1) =~= s.skip(run.len() as int));
}

/// What a list holds behind its first item.
proof fn lemma_contains_front<A>(first: A, rest: Seq<A>, item: A)
    ensures
        (seq![first] + rest).contains(item) <==> first == item || rest.contains(item),
{
    let list = seq![first] + rest;
    assert(list[0] == first);
    if rest.contains(item) {
        let k = choose|k: int| 0 <= k < rest.len() && rest[k] == item;
        assert(list[k + 1] == item);
    }
    if list.contains(item) && first != item {
        let k = choose|k: int| 0 <= k < list.len() && list[k] == item;
        assert(rest[k - 1] == item);
    }
}

/// In a text without `[`, where no link can hide a user ID, the extracted user
/// IDs are exactly the ones that become pills.
pub proof fn law_without_links_every_extracted_id_is_a_pill(s: Seq<char>, id: Seq<char>)
    requires
        !s.contains('['),
    ensures
        mxids(s).contains(id) <==> tokens(s).contains(Token::Mention { id }),
    decreases s.len(),
{
    if s.len() > 0 {
        lemma_tokens(s);
        lemma_first_token(s);
        lemma_mxid_prefix(s);
        let (token, n) = first_token(s);
        let rest = s.skip(n);
        assert(s[0] != '[');
        assert(!rest.contains('[')) by {
            if rest.contains('[') {
                let k = choose|k: int| 0 <= k < rest.len() && rest[k] == '[';
                assert(s[k + n] == '[');
            }
        }
        law_without_links_every_extracted_id_is_a_pill(rest, id);
        lemma_contains_front(token, tokens(rest), Token::Mention { id });
        match token {
            Token::Mention { id: other } => {
                assert(mxids(s) == seq![other] + mxids(rest));
                lemma_contains_front(other, mxids(rest), id);
            },
            Token::Bold | Token::Strike => {
                assert(s.skip(1).skip(1) =~= rest);
                assert(s.skip(1)[0] == s[1]);
                assert(mxids(s.skip(1)) == mxids(rest));
            },
            Token::Plain { c } => {
                if c == '@' {
                    lemma_skip_sigil(s);
                }
            },
            _ => {},
        }
    }
}

/// A text in which every line break is an HTML line break.
pub open spec fn with_breaks(s: Seq<char>) -> Seq<char>
    decreases s.len(),
{
    if s.len() == 0 {
        seq![]
    } else {
        (if s[0] == '\n' {
            "<br>"@
        } else {
            seq![s[0]]
        }) + with_breaks(s.drop_first())
    }
}

/// Line breaks are replaced one by one.
proof fn lemma_with_breaks_concat(a: Seq<char>, b: Seq<char>)
    ensures
        with_breaks(a + b) == with_breaks(a) + with_breaks(b),
    decreases a.len(),
{
    if a.len() == 0 {
        assert(a + b =~= b);
        assert(with_breaks(a) + with_breaks(b) =~= with_breaks(b));
    } else {
        assert((a + b).drop_first() =~= a.drop_first() + b);
        lemma_with_breaks_concat(a.drop_first(), b);
        assert(with_breaks(a + b) =~= with_breaks(a) + with_breaks(b));
    }
}

/// A text without line breaks stays as it is.
proof fn lemma_without_breaks(s: Seq<char>)
    requires
        forall|i: int| 0 <= i < s.len() ==> #[trigger] s[i] != '\n',
    ensures
        with_breaks(s) == s,
    decreases s.len(),
{
    if s.len() > 0 {
        assert forall|i: int| 0 <= i < s.drop_first().len() implies #[trigger] s.drop_first()[i]
            != '\n' by {
            assert(s.drop_first()[i] == s[i + 1]);
        }
        lemma_without_breaks(s.drop_first());
        assert(with_breaks(s) =~= s);
    }
}

/// What occurs behind the first character occurs in the text.
proof fn lemma_occurs_later(s: Seq<char>, pattern: Seq<char>)
    requires
        s.len() > 0,
        !text::occurs_in(s, pattern),
    ensures
        !text::occurs_in(s.skip(1), pattern),
{
    if text::occurs_in(s.skip(1), pattern) {
        let at = choose|at: int| text::occurs_at(s.skip(1), pattern, at);
        assert(s.skip(1).subrange(at, at + pattern.len()) =~= s.subrange(
            at + 1,
            at + 1 + pattern.len(),
        ));
        assert(text::occurs_at(s, pattern, at + 1));
    }
}

/// In a text without user IDs, links and markers, only the line breaks are
/// markup: the plain body is the text, and the HTML body is the escaped text
/// in which every line break is an HTML line break.
pub proof fn law_line_breaks(s: Seq<char>, names: Map<Seq<char>, Seq<char>>)
    requires
        !s.contains('@'),
        !s.contains('['),
        !text::occurs_in(s, "**"@),
        !text::occurs_in(s, "~~"@),
    ensures
        has_markup(tokens(s)) <==> s.contains('\n'),
        plain_text(tokens(s), names) == s,
        html_text(tokens(s), names, false, false) == with_breaks(escaped(s)),
        mentioned(tokens(s)) == Set::<Seq<char>>::empty(),
    decreases s.len(),
{
    if s.len() > 0 {
        let rest = s.skip(1);
        assert(rest =~= s.drop_first());
        lemma_tokens(s);
        reveal_strlit("**");
        reveal_strlit("~~");
        assert(s.contains(s[0]));
        assert(!(first_token(s).0 is Bold)) by {
            assert(!text::occurs_at(s, "**"@, 0));
            assert(s.len() > 1 && s[0] == '*' && s[1] == '*' ==> s.subrange(0, 2) =~= "**"@);
        }
        assert(!(first_token(s).0 is Strike)) by {
            assert(!text::occurs_at(s, "~~"@, 0));
            assert(s.len() > 1 && s[0] == '~' && s[1] == '~' ==> s.subrange(0, 2) =~= "~~"@);
        }
        lemma_occurs_later(s, "**"@);
        lemma_occurs_later(s, "~~"@);
        lemma_contains_front(s[0], rest, '@');
        lemma_contains_front(s[0], rest, '[');
        lemma_contains_front(s[0], rest, '\n');
        assert(s =~= seq![s[0]] + rest);
        law_line_breaks(rest, names);
        lemma_escaped_front(s);
        lemma_with_breaks_concat(escaped_char(s[0]), escaped(rest));
        reveal_escapes();
        if s[0] == '\n' {
            assert(escaped_char(s[0]).drop_first() =~= Seq::<char>::empty());
            reveal_with_fuel(with_breaks, 2);
            assert(with_breaks(escaped_char(s[0])) =~= "<br>"@);
        } else {
            lemma_without_breaks(escaped_char(s[0]));
        }
        assert(plain_text(tokens(s), names) =~= s);
    }
}

// What the text is made of

/// How a token is written.
pub open spec fn source_of(token: Token) -> Seq<char> {
    match token {
        Token::Bold => "**"@,
        Token::Strike => "~~"@,
        Token::Link { label, url } => "["@ + label + "]("@ + url + ")"@,
        Token::Mention { id } => id,
        Token::Newline => "\n"@,
        Token::Plain { c } => seq![c],
    }
}

/// How a list of tokens is written.
pub open spec fn sources(list: Seq<Token>) -> Seq<char>
    decreases list.len(),
{
    if list.len() == 0 {
        seq![]
    } else {
        source_of(list[0]) + sources(list.drop_first())
    }
}

/// The tokens of a text are all of the text, in order: nothing is left out
/// and nothing is made up.
pub proof fn law_tokens_are_the_whole_text(s: Seq<char>)
    ensures
        sources(tokens(s)) == s,
    decreases s.len(),
{
    if s.len() > 0 {
        lemma_tokens(s);
        lemma_first_token(s);
        lemma_mxid_prefix(s);
        let (token, n) = first_token(s);
        law_tokens_are_the_whole_text(s.skip(n));
        reveal_strlit("**");
        reveal_strlit("~~");
        reveal_strlit("[");
        reveal_strlit("](");
        reveal_strlit(")");
        reveal_strlit("\n");
        if token is Link {
            let inner = s.skip(1);
            text::lemma_first_index(inner, text::equal_to(']'));
            let k = text::index_of_char(inner, ']');
            let tail = inner.skip(k + 2);
            text::lemma_first_index(tail, text::equal_to(')'));
            let m = text::index_of_char(tail, ')');
            assert(inner[k] == ']');
            assert(tail[m] == ')');
        }
        assert(source_of(token) =~= s.take(n));
        assert(s =~= s.take(n) + s.skip(n));
    }
}

/// A line break, two stars and two tildes are tokens wherever they are reached.
pub proof fn law_markers_are_tokens(rest: Seq<char>)
    ensures
        tokens("**"@ + rest) == seq![Token::Bold] + tokens(rest),
        tokens("~~"@ + rest) == seq![Token::Strike] + tokens(rest),
        tokens("\n"@ + rest) == seq![Token::Newline] + tokens(rest),
{
    reveal_strlit("**");
    reveal_strlit("~~");
    reveal_strlit("\n");
    let bold = "**"@ + rest;
    assert(bold[0] == '*' && bold[1] == '*');
    assert(bold.skip(2) =~= rest);
    lemma_tokens(bold);
    let strike = "~~"@ + rest;
    assert(strike[0] == '~' && strike[1] == '~');
    assert(strike.skip(2) =~= rest);
    lemma_tokens(strike);
    let line = "\n"@ + rest;
    assert(line[0] == '\n');
    assert(line.skip(1) =~= rest);
    lemma_tokens(line);
    assert(tokens(bold) =~= seq![Token::Bold] + tokens(rest));
    assert(tokens(strike) =~= seq![Token::Strike] + tokens(rest));
    assert(tokens(line) =~= seq![Token::Newline] + tokens(rest));
}

/// Every `[label](url)` is a link, as long as no `]` is in its label and no
/// `)` in its address.
pub proof fn law_links_are_tokens(label: Seq<char>, url: Seq<char>, rest: Seq<char>)
    requires
        !label.contains(']'),
        !url.contains(')'),
    ensures
        tokens("["@ + label + "]("@ + url + ")"@ + rest) == seq![Token::Link { label, url }]
            + tokens(rest),
{
    reveal_strlit("[");
    reveal_strlit("](");
    reveal_strlit(")");
    let s = "["@ + label + "]("@ + url + ")"@ + rest;
    lemma_link_prefix(label, url, rest);
    assert(s[0] == '[');
    assert(s.skip(label.len() as int + url.len() + 4) =~= rest);
    lemma_tokens(s);
    assert(tokens(s) =~= seq![Token::Link { label, url }] + tokens(rest));
}

/// A user ID in a text ends before whitespace and before eight punctuation
/// characters, and nowhere else.
pub proof fn law_what_ends_a_user_id(c: char)
    ensures
        ends_mxid(c) <==> text::whitespace_char(c) || seq![',', '!', '?', '*', ')', ']', '"', '\'']
            .contains(c),
{
    let list = seq![',', '!', '?', '*', ')', ']', '"', '\''];
    assert(list[0] == ',' && list[1] == '!' && list[2] == '?' && list[3] == '*' && list[4] == ')'
        && list[5] == ']' && list[6] == '"' && list[7] == '\'');
}

/// Whether `id` is written like a user ID in a text: an `@` and more, with a
/// colon, of five bytes at least, without anything that ends it.
pub open spec fn written_as_user_id(id: Seq<char>) -> bool {
    &&& id.len() > 0
    &&& id[0] == '@'
    &&& id.contains(':')
    &&& vstd::utf8::encode_utf8(id).len() >= 5
    &&& forall|i: int| 0 <= i < id.len() ==> !ends_mxid(#[trigger] id[i])
}

/// Where a run without a token end stops.
proof fn lemma_run(run: Seq<char>, rest: Seq<char>)
    requires
        forall|i: int| 0 <= i < run.len() ==> !ends_mxid(#[trigger] run[i]),
        rest.len() > 0 ==> ends_mxid(rest[0]),
    ensures
        mxid_prefix(run + rest) == run,
        (run + rest).skip(run.len() as int) == rest,
{
    let s = run + rest;
    assert forall|i: int| 0 <= i < run.len() implies !mxid_end()(#[trigger] s[i]) by {
        assert(s[i] == run[i]);
    }
    text::lemma_first_index_unique(s, mxid_end(), run.len() as int);
    assert(s.take(run.len() as int) =~= run);
    assert(s.skip(run.len() as int) =~= rest);
}

/// Everything written as a user ID is a mention, up to what ends it. An `@`
/// that starts no user ID is an ordinary character.
pub proof fn law_user_ids_are_mentions(id: Seq<char>, rest: Seq<char>)
    requires
        rest.len() > 0 ==> ends_mxid(rest[0]),
    ensures
        written_as_user_id(id) ==> tokens(id + rest) == seq![Token::Mention { id }] + tokens(rest),
        id.len() > 0 && id[0] == '@' && (forall|i: int|
            0 <= i < id.len() ==> !ends_mxid(#[trigger] id[i])) && !(id.contains(':')
            && vstd::utf8::encode_utf8(id).len() >= 5) ==> tokens(id + rest) == seq![
            Token::Plain { c: '@' },
        ] + tokens(id.skip(1) + rest),
{
    let s = id + rest;
    if id.len() > 0 && id[0] == '@' && forall|i: int|
        0 <= i < id.len() ==> !ends_mxid(#[trigger] id[i]) {
        lemma_run(id, rest);
        lemma_tokens(s);
        assert(s[0] == '@');
        if id.contains(':') && vstd::utf8::encode_utf8(id).len() >= 5 {
            assert(tokens(s) =~= seq![Token::Mention { id }] + tokens(rest));
        } else {
            assert(s.skip(1) =~= id.skip(1) + rest);
            assert(tokens(s) =~= seq![Token::Plain { c: '@' }] + tokens(id.skip(1) + rest));
        }
    }
}

/// A character that starts no markup stands for itself; so does a single star
/// or tilde, and a `[` that no `]` follows.
pub proof fn law_other_characters_are_plain(c: char, rest: Seq<char>)
    requires
        c != '@',
        c != '\n',
        c == '*' || c == '~' ==> rest.len() == 0 || rest[0] != c,
        c == '[' ==> !rest.contains(']'),
    ensures
        tokens(seq![c] + rest) == seq![Token::Plain { c }] + tokens(rest),
{
    let s = seq![c] + rest;
    assert(s.skip(1) =~= rest);
    assert(s[0] == c);
    if rest.len() > 0 {
        assert(s[1] == rest[0]);
    }
    if c == '[' {
        text::lemma_first_index(rest, text::equal_to(']'));
        let n = text::index_of_char(rest, ']');
        if n < rest.len() {
            assert(rest[n] == ']');
            assert(rest.contains(']'));
        }
        assert(link_prefix(s) is None);
    }
    lemma_tokens(s);
    assert(tokens(s) =~= seq![Token::Plain { c }] + tokens(rest));
}

/// A list of tokens needs an HTML body if and only if one of them is more
/// than a plain character.
pub proof fn law_when_html_is_needed(list: Seq<Token>)
    ensures
        has_markup(list) <==> exists|i: int| 0 <= i < list.len() && !((#[trigger] list[i]) is Plain),
    decreases list.len(),
{
    if list.len() > 0 {
        let rest = list.drop_first();
        law_when_html_is_needed(rest);
        if exists|i: int| 0 <= i < rest.len() && !((#[trigger] rest[i]) is Plain) {
            let i = choose|i: int| 0 <= i < rest.len() && !((#[trigger] rest[i]) is Plain);
            assert(list[i + 1] == rest[i]);
        }
        if exists|i: int| 0 <= i < list.len() && !((#[trigger] list[i]) is Plain) {
            let i = choose|i: int| 0 <= i < list.len() && !((#[trigger] list[i]) is Plain);
            if i > 0 {
                assert(rest[i - 1] == list[i]);
            }
        }
    }
}

// What the tokens become

/// Escaping goes character by character: five characters are written as
/// entities, and all others as they are.
pub proof fn law_escaping_goes_by_characters(a: Seq<char>, b: Seq<char>, c: char)
    ensures
        escaped(a + b) == escaped(a) + escaped(b),
        escaped(seq!['&']) == "&amp;"@,
        escaped(seq!['<']) == "&lt;"@,
        escaped(seq!['>']) == "&gt;"@,
        escaped(seq!['"']) == "&quot;"@,
        escaped(seq!['\'']) == "&#39;"@,
        c != '&' && c != '<' && c != '>' && c != '"' && c != '\'' ==> escaped(seq![c]) == seq![c],
    decreases b.len(),
{
    lemma_escaped_one('&');
    lemma_escaped_one('<');
    lemma_escaped_one('>');
    lemma_escaped_one('"');
    lemma_escaped_one('\'');
    lemma_escaped_one(c);
    if b.len() == 0 {
        assert(a + b =~= a);
        assert(escaped(a) + escaped(b) =~= escaped(a));
    } else {
        law_escaping_goes_by_characters(a, b.drop_last(), c);
        assert((a + b).drop_last() =~= a + b.drop_last());
        assert((a + b).last() == b.last());
        assert(escaped(a + b) =~= escaped(a) + escaped(b));
    }
}

proof fn lemma_escaped_one(c: char)
    ensures
        escaped(seq![c]) == escaped_char(c),
{
    assert(seq![c].drop_last() =~= Seq::<char>::empty());
    reveal_with_fuel(escaped, 2);
    assert(escaped(seq![c]) =~= escaped_char(c));
}

/// A user without a name goes by the localpart of their user ID; one with a
/// name goes by it.
pub proof fn law_labels(
    local: Seq<char>,
    server: Seq<char>,
    names: Map<Seq<char>, Seq<char>>,
)
    requires
        !local.contains(':'),
        local.len() > 0 ==> local[0] != '@',
    ensures
        ({
            let id = "@"@ + local + ":"@ + server;
            &&& default_label(id) == local
            &&& !names.contains_key(id) ==> label_of(id, names) == local
            &&& names.contains_key(id) ==> label_of(id, names) == names[id]
        }),
{
    reveal_strlit("@");
    reveal_strlit(":");
    let id = "@"@ + local + ":"@ + server;
    let n = local.len() + 1;
    assert forall|i: int| 0 <= i < n implies !text::equal_to(':')(#[trigger] id[i]) by {
        if i > 0 {
            assert(id[i] == local[i - 1]);
            assert(local.contains(local[i - 1]));
        }
    }
    assert(id[n as int] == ':');
    text::lemma_first_index_unique(id, text::equal_to(':'), n as int);
    let head = id.take(n as int);
    assert(head[0] == '@');
    assert(head.drop_first() =~= local);
    reveal_with_fuel(without_sigils, 2);
}

/// The plain body is that of its parts, one after the other: a mention leaves
/// its label and a link its text, markers leave nothing, and line breaks and
/// other characters stay.
pub proof fn law_plain_body_goes_by_tokens(
    a: Seq<Token>,
    b: Seq<Token>,
    names: Map<Seq<char>, Seq<char>>,
    id: Seq<char>,
    url: Seq<char>,
    c: char,
)
    ensures
        plain_text(a + b, names) == plain_text(a, names) + plain_text(b, names),
        plain_text(seq![Token::Mention { id }], names) == label_of(id, names),
        plain_text(seq![Token::Link { label: id, url }], names) == id,
        plain_text(seq![Token::Bold], names) == Seq::<char>::empty(),
        plain_text(seq![Token::Strike], names) == Seq::<char>::empty(),
        plain_text(seq![Token::Newline], names) == seq!['\n'],
        plain_text(seq![Token::Plain { c }], names) == seq![c],
    decreases a.len(),
{
    lemma_plain_one(Token::Mention { id }, names);
    lemma_plain_one(Token::Link { label: id, url }, names);
    lemma_plain_one(Token::Bold, names);
    lemma_plain_one(Token::Strike, names);
    lemma_plain_one(Token::Newline, names);
    lemma_plain_one(Token::Plain { c }, names);
    if a.len() == 0 {
        assert(a + b =~= b);
        assert(plain_text(a, names) + plain_text(b, names) =~= plain_text(b, names));
    } else {
        law_plain_body_goes_by_tokens(a.drop_first(), b, names, id, url, c);
        assert((a + b).drop_first() =~= a.drop_first() + b);
        assert(plain_text(a + b, names) =~= plain_text(a, names) + plain_text(b, names));
    }
}

proof fn lemma_plain_one(token: Token, names: Map<Seq<char>, Seq<char>>)
    ensures
        plain_text(seq![token], names) == token_text(token, names),
{
    assert(seq![token].drop_first() =~= Seq::<Token>::empty());
    reveal_with_fuel(plain_text, 2);
    assert(plain_text(seq![token], names) =~= token_text(token, names));
}

/// Only the markers look at which markers are open: the HTML of a mention, a
/// link, a line break or a plain character is the same between any of them. A
/// mention is a link to its user, whatever else is open.
pub proof fn law_open_markers_change_no_other_html(
    token: Token,
    names: Map<Seq<char>, Seq<char>>,
    bold: bool,
    strike: bool,
    other_bold: bool,
    other_strike: bool,
)
    ensures
        token !is Bold && token !is Strike ==> token_html(token, names, bold, strike)
            == token_html(token, names, other_bold, other_strike),
        token matches Token::Mention { id } ==> token_html(token, names, bold, strike)
            == "<a href=\"https://matrix.to/#/"@ + escaped(id) + "\">"@ + escaped(
            label_of(id, names),
        ) + "</a>"@,
        token matches Token::Link { label, url } ==> token_html(token, names, bold, strike)
            == "<a href=\""@ + escaped(url) + "\">"@ + escaped(label) + "</a>"@,
        token matches Token::Plain { c } ==> token_html(token, names, bold, strike) == escaped(
            seq![c],
        ),
        token_html(Token::Newline, names, bold, strike) == "<br>"@,
        token_html(Token::Bold, names, false, strike) == "<strong>"@,
        token_html(Token::Bold, names, true, strike) == "</strong>"@,
        token_html(Token::Strike, names, bold, false) == "<del>"@,
        token_html(Token::Strike, names, bold, true) == "</del>"@,
{
    if let Token::Plain { c } = token {
        lemma_escaped_one(c);
    }
}

/// The HTML of the first tokens of a body, with the markers still open at
/// their end.
pub open spec fn opened_html(
    list: Seq<Token>,
    names: Map<Seq<char>, Seq<char>>,
    bold: bool,
    strike: bool,
) -> Seq<char>
    decreases list.len(),
{
    if list.len() == 0 {
        seq![]
    } else {
        token_html(list[0], names, bold, strike) + opened_html(
            list.drop_first(),
            names,
            bold != (list[0] is Bold),
            strike != (list[0] is Strike),
        )
    }
}

/// The HTML body is that of its parts, one after the other, where each marker
/// opens or closes what the markers before it left; what is left open at the
/// end is closed there.
pub proof fn law_html_body_goes_by_tokens(
    a: Seq<Token>,
    b: Seq<Token>,
    names: Map<Seq<char>, Seq<char>>,
    bold: bool,
    strike: bool,
)
    ensures
        html_text(a + b, names, bold, strike) == opened_html(a, names, bold, strike) + html_text(
            b,
            names,
            bold != odd_bold(a),
            strike != odd_strike(a),
        ),
        html_text(Seq::empty(), names, false, false) == Seq::<char>::empty(),
        html_text(Seq::empty(), names, true, false) == "</strong>"@,
        html_text(Seq::empty(), names, false, true) == "</del>"@,
        html_text(Seq::empty(), names, true, true) == "</strong>"@ + "</del>"@,
    decreases a.len(),
{
    assert(closing(false, false) =~= Seq::<char>::empty());
    assert(closing(true, false) =~= "</strong>"@);
    assert(closing(false, true) =~= "</del>"@);
    if a.len() == 0 {
        assert(a + b =~= b);
        assert(opened_html(a, names, bold, strike) + html_text(b, names, bold, strike)
            =~= html_text(b, names, bold, strike));
    } else {
        let later_bold = bold != (a[0] is Bold);
        let later_strike = strike != (a[0] is Strike);
        law_html_body_goes_by_tokens(a.drop_first(), b, names, later_bold, later_strike);
        assert((a + b).drop_first() =~= a.drop_first() + b);
        assert(html_text(a + b, names, bold, strike) =~= opened_html(a, names, bold, strike)
            + html_text(b, names, bold != odd_bold(a), strike != odd_strike(a)));
    }
}

/// Wherever a mention stands, and whatever markers are open there, the HTML
/// body has at that place the link to the user, with the user ID and the label
/// escaped; and the plain body has the label.
pub proof fn law_mentions_are_linked(
    before: Seq<Token>,
    id: Seq<char>,
    after: Seq<Token>,
    names: Map<Seq<char>, Seq<char>>,
    bold: bool,
    strike: bool,
)
    ensures
        ({
            let list = before + (seq![Token::Mention { id }] + after);
            let link = "<a href=\"https://matrix.to/#/"@ + escaped(id) + "\">"@ + escaped(
                label_of(id, names),
            ) + "</a>"@;
            &&& html_text(list, names, bold, strike) == opened_html(before, names, bold, strike)
                + (link + html_text(after, names, bold != odd_bold(before), strike != odd_strike(
                before,
            )))
            &&& plain_text(list, names) == plain_text(before, names) + (label_of(id, names)
                + plain_text(after, names))
            &&& has_markup(list)
        }),
{
    let mention = Token::Mention { id };
    let rest = seq![mention] + after;
    let list = before + rest;
    law_html_body_goes_by_tokens(before, rest, names, bold, strike);
    assert(rest.drop_first() =~= after);
    law_plain_body_goes_by_tokens(before, rest, names, id, id, ' ');
    law_when_html_is_needed(list);
    assert(list[before.len() as int] == mention);
}

/// The user IDs in a text are found wherever they stand, also inside of other
/// markup: each is found at the first `@`, up to what ends it. A text without
/// `@` holds none.
pub proof fn law_user_ids_are_found(before: Seq<char>, run: Seq<char>, after: Seq<char>)
    requires
        !before.contains('@'),
        run.len() > 0,
        run[0] == '@',
        forall|i: int| 0 <= i < run.len() ==> !ends_mxid(#[trigger] run[i]),
        after.len() > 0 ==> ends_mxid(after[0]),
    ensures
        run.contains(':') && vstd::utf8::encode_utf8(run).len() >= 5 ==> mxids(
            before + run + after,
        ) == seq![run] + mxids(after),
        !(run.contains(':') && vstd::utf8::encode_utf8(run).len() >= 5) ==> mxids(
            before + run + after,
        ) == mxids(after),
        mxids(before) == Seq::<Seq<char>>::empty(),
    decreases before.len(),
{
    let s = before + run + after;
    if before.len() == 0 {
        assert(s =~= run + after);
        lemma_run(run, after);
        assert(s[0] == '@');
    } else {
        let shorter = before.skip(1);
        assert(before.contains(before[0]));
        assert(s[0] == before[0]);
        assert(!shorter.contains('@')) by {
            if shorter.contains('@') {
                let k = choose|k: int| 0 <= k < shorter.len() && shorter[k] == '@';
                assert(before[k + 1] == '@');
            }
        }
        law_user_ids_are_found(shorter, run, after);
        assert(s.skip(1) =~= shorter + run + after);
    }
}

/// Deduplication keeps the first of equal items where it stands, and drops
/// the later ones.
pub proof fn law_first_of_equal_items_stays(list: Seq<Seq<char>>, item: Seq<char>)
    ensures
        deduplicated(Seq::empty()) == Seq::<Seq<char>>::empty(),
        list.contains(item) ==> deduplicated(list.push(item)) == deduplicated(list),
        !list.contains(item) ==> deduplicated(list.push(item)) == deduplicated(list).push(item),
        list.no_duplicates() ==> deduplicated(list) == list,
    decreases list.len(),
{
    law_deduplicated(list);
    assert(list.push(item).drop_last() =~= list);
    if list.no_duplicates() && list.len() > 0 {
        let shorter = list.drop_last();
        law_first_of_equal_items_stays(shorter, list.last());
        assert(list =~= shorter.push(list.last()));
        assert(!shorter.contains(list.last())) by {
            if shorter.contains(list.last()) {
                let k = choose|k: int| 0 <= k < shorter.len() && shorter[k] == list.last();
                assert(list[k] == list[list.len() - 1]);
            }
        }
    } else if list.len() == 0 {
        assert(deduplicated(list) =~= list);
    }
}

/// A run of ordinary characters is read by itself, whatever follows it.
pub proof fn lemma_plain_run(s: Seq<char>, rest: Seq<char>)
    requires
        forall|i: int|
            0 <= i < s.len() ==> {
                let c = #[trigger] s[i];
                c != '*' && c != '~' && c != '[' && c != '@' && c != '\n'
            },
    ensures
        tokens(s + rest) == tokens(s) + tokens(rest),
    decreases s.len(),
{
    if s.len() == 0 {
        assert(s + rest =~= rest);
        assert(tokens(s) + tokens(rest) =~= tokens(rest));
    } else {
        let later = s.drop_first();
        assert forall|i: int| 0 <= i < later.len() implies {
            let c = #[trigger] later[i];
            c != '*' && c != '~' && c != '[' && c != '@' && c != '\n'
        } by {
            assert(later[i] == s[i + 1]);
        }
        lemma_plain_run(later, rest);
        assert(s[0] != '*' && s[0] != '~' && s[0] != '[' && s[0] != '@' && s[0] != '\n');
        law_other_characters_are_plain(s[0], later + rest);
        law_other_characters_are_plain(s[0], later);
        assert(s + rest =~= seq![s[0]] + (later + rest));
        assert(s =~= seq![s[0]] + later);
        assert(tokens(s + rest) =~= tokens(s) + tokens(rest));
    }
}

/// What text without markup becomes.
pub proof fn lemma_plain_html(
    s: Seq<char>,
    names: Map<Seq<char>, Seq<char>>,
    bold: bool,
    strike: bool,
)
    requires
        !has_markup(tokens(s)),
    ensures
        opened_html(tokens(s), names, bold, strike) == escaped(s),
        html_text(tokens(s), names, bold, strike) == escaped(s) + closing(bold, strike),
        !odd_bold(tokens(s)),
        !odd_strike(tokens(s)),
    decreases s.len(),
{
    if s.len() > 0 {
        lemma_tokens(s);
        lemma_first_token(s);
        let later = s.skip(1);
        lemma_plain_html(later, names, bold, strike);
        lemma_escaped_front(s);
        assert(s.drop_first() =~= later);
        assert(opened_html(tokens(s), names, bold, strike) =~= escaped(s));
        assert(html_text(tokens(s), names, bold, strike) =~= escaped(s) + closing(bold, strike));
    } else {
        assert(opened_html(tokens(s), names, bold, strike) =~= escaped(s));
        assert(html_text(tokens(s), names, bold, strike) =~= escaped(s) + closing(bold, strike));
    }
}

/// A `[` that starts no link stands for itself: where no `(` follows the
/// first `]`, or no `)` that.
pub proof fn law_other_brackets_are_plain(label: Seq<char>, rest: Seq<char>)
    requires
        !label.contains(']'),
        rest.len() == 0 || rest[0] != '(' || !rest.contains(')'),
    ensures
        tokens("["@ + label + "]"@ + rest) == seq![Token::Plain { c: '[' }] + tokens(
            label + "]"@ + rest,
        ),
{
    reveal_strlit("[");
    reveal_strlit("]");
    let s = "["@ + label + "]"@ + rest;
    let inner = s.skip(1);
    let n = label.len() as int;
    assert forall|i: int| 0 <= i < n implies !text::equal_to(']')(#[trigger] inner[i]) by {
        assert(inner[i] == label[i]);
        assert(label.contains(label[i]));
    }
    assert(inner[n] == ']');
    text::lemma_first_index_unique(inner, text::equal_to(']'), n);
    if rest.len() > 0 {
        assert(inner[n + 1] == rest[0]);
        let tail = inner.skip(n + 2);
        assert(tail =~= rest.skip(1));
        text::lemma_first_index(tail, text::equal_to(')'));
        let m = text::index_of_char(tail, ')');
        if m < tail.len() {
            assert(tail[m] == ')');
            assert(rest[m + 1] == ')');
        }
    }
    assert(s[0] == '[');
    assert(link_prefix(s) is None);
    lemma_tokens(s);
    assert(inner =~= label + "]"@ + rest);
    assert(tokens(s) =~= seq![Token::Plain { c: '[' }] + tokens(inner));
}

/// The label of a user without a name has no leading `@`, however many the
/// user ID has.
pub proof fn law_labels_have_no_sigil(token: Seq<char>)
    ensures
        default_label(seq!['@'] + token) == default_label(token),
        default_label(token).len() > 0 ==> default_label(token)[0] != '@',
{
    let longer = seq!['@'] + token;
    text::lemma_first_index(token, text::equal_to(':'));
    let n = text::index_of_char(token, ':');
    assert(longer[0] == '@');
    assert(longer.drop_first() =~= token);
    assert(text::index_of_char(longer, ':') == n + 1);
    let head = longer.take(n + 1);
    assert(head[0] == '@');
    assert(head.drop_first() =~= token.take(n));
    lemma_without_sigils(token.take(n));
}

proof fn lemma_without_sigils(s: Seq<char>)
    ensures
        without_sigils(s).len() > 0 ==> without_sigils(s)[0] != '@',
    decreases s.len(),
{
    if s.len() > 0 && s[0] == '@' {
        lemma_without_sigils(s.drop_first());
    }
}

/// A token is taken for a user ID if and only if it has a colon and takes five
/// bytes or more. A label is what precedes the colon, and all of a token that
/// has none.
pub proof fn law_tokens_with_a_colon_are_user_ids(token: Seq<char>)
    ensures
        looks_like_mxid(token) <==> token.contains(':') && vstd::utf8::encode_utf8(token).len()
            >= 5,
        !token.contains(':') && (token.len() > 0 ==> token[0] != '@') ==> default_label(token)
            == token,
{
    text::lemma_first_index(token, text::equal_to(':'));
    let n = text::index_of_char(token, ':');
    if !token.contains(':') {
        if n < token.len() {
            assert(token[n] == ':');
        }
        assert(token.take(n) =~= token);
    }
}

/// A link starts with `[`, has its label up to the first `]`, a `(` right
/// after it, and its address up to the first `)`; everything of this form is
/// one, and nothing else.
pub proof fn law_what_a_link_is(
    label: Seq<char>,
    url: Seq<char>,
    rest: Seq<char>,
    s: Seq<char>,
)
    ensures
        !label.contains(']') && !url.contains(')') ==> link_prefix(
            "["@ + label + "]("@ + url + ")"@ + rest,
        ) == Some((label, url, label.len() as int + url.len() + 4)),
        link_prefix(s) matches Some((label, url, n)) ==> {
            &&& 0 <= n <= s.len()
            &&& s.take(n) == "["@ + label + "]("@ + url + ")"@
            &&& !label.contains(']')
            &&& !url.contains(')')
        },
{
    reveal_strlit("[");
    reveal_strlit("](");
    reveal_strlit(")");
    if !label.contains(']') && !url.contains(')') {
        lemma_link_prefix(label, url, rest);
    }
    if link_prefix(s) is Some {
        let inner = s.skip(1);
        text::lemma_first_index(inner, text::equal_to(']'));
        let k = text::index_of_char(inner, ']');
        let tail = inner.skip(k + 2);
        text::lemma_first_index(tail, text::equal_to(')'));
        let m = text::index_of_char(tail, ')');
        let found = inner.take(k);
        let address = tail.take(m);
        assert(inner[k] == ']');
        assert(tail[m] == ')');
        assert(s.take(k + m + 4) =~= "["@ + found + "]("@ + address + ")"@);
        if found.contains(']') {
            let i = choose|i: int| 0 <= i < found.len() && found[i] == ']';
            assert(text::equal_to(']')(inner[i]));
        }
        if address.contains(')') {
            let i = choose|i: int| 0 <= i < address.len() && address[i] == ')';
            assert(text::equal_to(')')(tail[i]));
        }
    }
}

/// The link at the start of a text.
proof fn lemma_link_prefix(label: Seq<char>, url: Seq<char>, rest: Seq<char>)
    requires
        !label.contains(']'),
        !url.contains(')'),
    ensures
        link_prefix("["@ + label + "]("@ + url + ")"@ + rest) == Some(
            (label, url, label.len() as int + url.len() + 4),
        ),
{
    reveal_strlit("[");
    reveal_strlit("](");
    reveal_strlit(")");
    let s = "["@ + label + "]("@ + url + ")"@ + rest;
    let inner = s.skip(1);
    let n = label.len() as int;
    assert forall|i: int| 0 <= i < n implies !text::equal_to(']')(#[trigger] inner[i]) by {
        assert(inner[i] == label[i]);
        assert(label.contains(label[i]));
    }
    assert(inner[n] == ']');
    assert(inner[n + 1] == '(');
    text::lemma_first_index_unique(inner, text::equal_to(']'), n);
    let tail = inner.skip(n + 2);
    let m = url.len() as int;
    assert forall|i: int| 0 <= i < m implies !text::equal_to(')')(#[trigger] tail[i]) by {
        assert(tail[i] == url[i]);
        assert(url.contains(url[i]));
    }
    assert(tail[m] == ')');
    text::lemma_first_index_unique(tail, text::equal_to(')'), m);
    assert(s[0] == '[');
    assert(inner.take(n) =~= label);
    assert(tail.take(m) =~= url);
}

} // verus!
