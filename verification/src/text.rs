//! Text as sequences of characters: searching, trimming, splitting and
//! joining.
use vstd::prelude::*;

verus! {

/// `String::push`: appends one character.
pub assume_specification[ String::push ](s: &mut String, c: char)
    ensures
        final(s)@ == old(s)@.push(c),
;

/// `String::push_str`: appends all characters of `other`.
pub assume_specification[ String::push_str ](s: &mut String, other: &str)
    ensures
        final(s)@ == old(s)@ + other@,
;

/// Whether `c` is whitespace: whether it has the Unicode property
/// `White_Space`.
pub open spec fn whitespace_char(c: char) -> bool {
    let code = c as u32;
    ||| 0x09 <= code <= 0x0d
    ||| code == 0x20
    ||| code == 0x85
    ||| code == 0xa0
    ||| code == 0x1680
    ||| 0x2000 <= code <= 0x200a
    ||| 0x2028 <= code <= 0x2029
    ||| code == 0x202f
    ||| code == 0x205f
    ||| code == 0x3000
}

/// `char::is_whitespace`: the Unicode property `White_Space`, as the Unicode
/// Character Database lists it.
pub assume_specification[ char::is_whitespace ](c: char) -> (res: bool)
    ensures
        res == whitespace_char(c),
;

/// Whether `c` is one of the control codes of Unicode (general category
/// `Cc`).
pub open spec fn control_char(c: char) -> bool {
    c as u32 <= 0x1f || 0x7f <= c as u32 <= 0x9f
}

/// `char::is_control`: the general category `Cc`, which Unicode fixes to the
/// two blocks of control codes.
pub assume_specification[ char::is_control ](c: char) -> (res: bool)
    ensures
        res == control_char(c),
;

/// The name of how `Debug` writes a string: quoted and escaped.
pub uninterp spec fn debug_text(s: Seq<char>) -> Seq<char>;

/// `Debug` for `str`: the quoted, escaped form is a function of the
/// characters alone. How single characters are escaped is left unsaid.
#[verifier::external_body]
pub(crate) fn debug_string(s: &str) -> (res: String)
    ensures
        res@ == debug_text(s@),
{
    format!("{s:?}")
}

/// The characters that the strings of a list hold.
pub open spec fn views(list: Seq<String>) -> Seq<Seq<char>> {
    Seq::new(list.len(), |i: int| list[i]@)
}

/// The characters of an optional string.
pub open spec fn option_view(s: Option<String>) -> Option<Seq<char>> {
    match s {
        Some(s) => Some(s@),
        None => None,
    }
}

/// All characters of `s`, in order.
pub fn chars_of(s: &str) -> (v: Vec<char>)
    ensures
        v@ == s@,
{
    let mut v: Vec<char> = Vec::new();
    for c in it: s.chars()
        invariant
            v@ == it.seq().take(it.index() as int),
            it.seq() == s@,
    {
        v.push(c);
    }
    v
}

/// The characters `from..to` as a string.
pub fn string_of(chars: &Vec<char>, from: usize, to: usize) -> (s: String)
    requires
        from <= to <= chars@.len(),
    ensures
        s@ == chars@.subrange(from as int, to as int),
{
    let mut s = String::new();
    let mut i = from;
    while i < to
        invariant
            from <= i <= to <= chars@.len(),
            s@ == chars@.subrange(from as int, i as int),
        decreases to - i,
    {
        s.push(chars[i]);
        i += 1;
    }
    s
}

/// A string with the given characters.
pub fn string_from(chars: &Vec<char>) -> (s: String)
    ensures
        s@ == chars@,
{
    let s = string_of(chars, 0, chars.len());
    assert(chars@.subrange(0, chars@.len() as int) =~= chars@);
    s
}

/// Whether two strings hold the same characters.
#[verifier::loop_isolation(false)]
pub fn same(a: &str, b: &str) -> (res: bool)
    ensures
        res == (a@ == b@),
{
    let x = chars_of(a);
    let y = chars_of(b);
    if x.len() != y.len() {
        return false;
    }
    let mut i: usize = 0;
    while i < x.len()
        invariant
            i <= x@.len(),
            x@.len() == y@.len(),
            forall|j: int| 0 <= j < i ==> x@[j] == y@[j],
        decreases x@.len() - i,
    {
        if x[i] != y[i] {
            return false;
        }
        i += 1;
    }
    assert(x@ =~= y@);
    true
}

/// Whether `list` holds a string with the characters of `s`.
pub fn list_contains(list: &Vec<String>, s: &str) -> (res: bool)
    ensures
        res == views(list@).contains(s@),
{
    let mut i: usize = 0;
    while i < list.len()
        invariant
            i <= list@.len(),
            forall|j: int| 0 <= j < i ==> views(list@)[j] != s@,
        decreases list@.len() - i,
    {
        if same(list[i].as_str(), s) {
            assert(views(list@)[i as int] == s@);
            return true;
        }
        i += 1;
    }
    false
}

// Searching

/// The position of the first character for which `p` holds; the length when
/// there is none.
pub open spec fn first_index(s: Seq<char>, p: spec_fn(char) -> bool) -> int
    decreases s.len(),
{
    if s.len() == 0 || p(s[0]) {
        0
    } else {
        1 + first_index(s.drop_first(), p)
    }
}

/// What `first_index` returns: every earlier character fails `p`, and the
/// one at that position, if there is one, satisfies it.
pub proof fn lemma_first_index(s: Seq<char>, p: spec_fn(char) -> bool)
    ensures
        0 <= first_index(s, p) <= s.len(),
        forall|i: int| 0 <= i < first_index(s, p) ==> !p(#[trigger] s[i]),
        first_index(s, p) < s.len() ==> p(s[first_index(s, p)]),
    decreases s.len(),
{
    if s.len() > 0 && !p(s[0]) {
        lemma_first_index(s.drop_first(), p);
        assert forall|i: int| 0 <= i < first_index(s, p) implies !p(#[trigger] s[i]) by {
            if i > 0 {
                assert(s[i] == s.drop_first()[i - 1]);
            }
        }
    }
}

/// A position with the properties of the first index is the first index.
pub proof fn lemma_first_index_unique(s: Seq<char>, p: spec_fn(char) -> bool, n: int)
    requires
        0 <= n <= s.len(),
        forall|i: int| 0 <= i < n ==> !p(#[trigger] s[i]),
        n < s.len() ==> p(s[n]),
    ensures
        first_index(s, p) == n,
{
    lemma_first_index(s, p);
    let m = first_index(s, p);
    if m < n {
        assert(!p(s[m]));
    } else if n < m {
        assert(!p(s[n]));
    }
}

/// The characters equal to `c`.
pub open spec fn equal_to(c: char) -> spec_fn(char) -> bool {
    |x: char| x == c
}

/// The whitespace characters.
pub open spec fn whitespace() -> spec_fn(char) -> bool {
    |x: char| whitespace_char(x)
}

/// The position of the first `c` in `s`, or the length.
pub open spec fn index_of_char(s: Seq<char>, c: char) -> int {
    first_index(s, equal_to(c))
}

/// The position of the first whitespace character in `s`, or the length.
pub open spec fn index_of_whitespace(s: Seq<char>) -> int {
    first_index(s, whitespace())
}

/// The first position at or after `from` that holds `c`, or the length.
pub fn find_char(chars: &Vec<char>, from: usize, c: char) -> (n: usize)
    requires
        from <= chars@.len(),
    ensures
        from <= n <= chars@.len(),
        n == from + index_of_char(chars@.skip(from as int), c),
        forall|i: int| from <= i < n ==> chars@[i] != c,
        n < chars@.len() ==> chars@[n as int] == c,
{
    let mut n = from;
    while n < chars.len() && chars[n] != c
        invariant
            from <= n <= chars@.len(),
            forall|i: int| from <= i < n ==> chars@[i] != c,
        decreases chars@.len() - n,
    {
        n += 1;
    }
    proof {
        lemma_first_index_unique(chars@.skip(from as int), equal_to(c), n - from);
    }
    n
}

/// The first position at or after `from` that holds whitespace, or the
/// length.
pub fn find_whitespace(chars: &Vec<char>, from: usize) -> (n: usize)
    requires
        from <= chars@.len(),
    ensures
        from <= n <= chars@.len(),
        n == from + index_of_whitespace(chars@.skip(from as int)),
{
    let mut n = from;
    while n < chars.len() && !chars[n].is_whitespace()
        invariant
            from <= n <= chars@.len(),
            forall|i: int| from <= i < n ==> !whitespace_char(chars@[i]),
        decreases chars@.len() - n,
    {
        n += 1;
    }
    proof {
        lemma_first_index_unique(chars@.skip(from as int), whitespace(), n - from);
    }
    n
}

/// Whether `pattern` occurs in `text` at position `at`.
pub open spec fn occurs_at(text: Seq<char>, pattern: Seq<char>, at: int) -> bool {
    &&& 0 <= at
    &&& at + pattern.len() <= text.len()
    &&& text.subrange(at, at + pattern.len()) == pattern
}

/// Whether `pattern` occurs anywhere in `text`.
pub open spec fn occurs_in(text: Seq<char>, pattern: Seq<char>) -> bool {
    exists|at: int| occurs_at(text, pattern, at)
}

/// Whether `pattern` occurs in `text` at `at`.
fn matches_at(text: &Vec<char>, pattern: &Vec<char>, at: usize) -> (res: bool)
    requires
        at + pattern@.len() <= text@.len(),
    ensures
        res == occurs_at(text@, pattern@, at as int),
{
    let mut i: usize = 0;
    assert(text.len() == text@.len());
    while i < pattern.len()
        invariant
            i <= pattern@.len(),
            at + pattern@.len() <= text@.len(),
            forall|j: int| 0 <= j < i ==> text@[at + j] == pattern@[j],
        decreases pattern@.len() - i,
    {
        assert(at + i < text.len());
        if text[at + i] != pattern[i] {
            assert(text@.subrange(at as int, at + pattern@.len())[i as int] != pattern@[i as int]);
            return false;
        }
        i += 1;
    }
    assert(text@.subrange(at as int, at + pattern@.len()) =~= pattern@);
    true
}

/// Whether `text` contains `pattern`.
pub fn contains(text: &str, pattern: &str) -> (res: bool)
    ensures
        res == occurs_in(text@, pattern@),
{
    let t = chars_of(text);
    let p = chars_of(pattern);
    if p.len() > t.len() {
        return false;
    }
    let last = t.len() - p.len();
    let mut at: usize = 0;
    while at < last && !matches_at(&t, &p, at)
        invariant
            last == t@.len() - p@.len(),
            at <= last,
            forall|k: int| 0 <= k < at ==> !occurs_at(t@, p@, k),
        decreases last - at,
    {
        at += 1;
    }
    let res = matches_at(&t, &p, at);
    assert(res ==> occurs_at(text@, pattern@, at as int));
    assert(!res ==> forall|k: int| !occurs_at(text@, pattern@, k));
    res
}

/// Whether `text` ends with `suffix`.
pub open spec fn is_suffix(text: Seq<char>, suffix: Seq<char>) -> bool {
    occurs_at(text, suffix, text.len() - suffix.len())
}

/// Whether `text` ends with `suffix`.
pub fn ends_with(text: &str, suffix: &str) -> (res: bool)
    ensures
        res == is_suffix(text@, suffix@),
{
    let t = chars_of(text);
    let s = chars_of(suffix);
    s.len() <= t.len() && matches_at(&t, &s, t.len() - s.len())
}

// Trimming

/// `s` without its leading whitespace.
pub open spec fn trim_start(s: Seq<char>) -> Seq<char>
    decreases s.len(),
{
    if s.len() > 0 && whitespace_char(s[0]) {
        trim_start(s.drop_first())
    } else {
        s
    }
}

/// `s` without its trailing whitespace.
pub open spec fn trim_end(s: Seq<char>) -> Seq<char>
    decreases s.len(),
{
    if s.len() > 0 && whitespace_char(s.last()) {
        trim_end(s.drop_last())
    } else {
        s
    }
}

/// `s` without leading and trailing whitespace.
pub open spec fn trimmed(s: Seq<char>) -> Seq<char> {
    trim_end(trim_start(s))
}

/// A trimmed text neither starts nor ends with whitespace.
pub proof fn lemma_trimmed_ends(s: Seq<char>)
    ensures
        trimmed(s).len() > 0 ==> !whitespace_char(trimmed(s)[0]) && !whitespace_char(
            trimmed(s).last(),
        ),
        trimmed(s).len() <= s.len(),
{
    lemma_trim_start(s);
    lemma_trim_end(trim_start(s));
}

/// Trimming the start drops a prefix and leaves no leading whitespace.
pub proof fn lemma_trim_start(s: Seq<char>)
    ensures
        trim_start(s).len() <= s.len(),
        trim_start(s).len() > 0 ==> !whitespace_char(trim_start(s)[0]),
        trim_start(s) == s.skip(s.len() - trim_start(s).len()),
    decreases s.len(),
{
    if s.len() > 0 && whitespace_char(s[0]) {
        lemma_trim_start(s.drop_first());
        let n = s.len() - trim_start(s).len();
        assert(s.drop_first().skip(n - 1) =~= s.skip(n));
    } else {
        assert(s.skip(0) =~= s);
    }
}

/// Trimming the end drops a suffix and leaves no trailing whitespace.
pub proof fn lemma_trim_end(s: Seq<char>)
    ensures
        trim_end(s).len() <= s.len(),
        trim_end(s).len() > 0 ==> !whitespace_char(trim_end(s).last()),
        trim_end(s) == s.take(trim_end(s).len() as int),
    decreases s.len(),
{
    if s.len() > 0 && whitespace_char(s.last()) {
        lemma_trim_end(s.drop_last());
        let n = trim_end(s).len() as int;
        assert(s.drop_last().take(n) =~= s.take(n));
    } else {
        assert(s.take(s.len() as int) =~= s);
    }
}

/// A text that neither starts nor ends with whitespace is its own trimmed
/// form.
pub proof fn lemma_trimmed_unchanged(s: Seq<char>)
    requires
        s.len() > 0 ==> !whitespace_char(s[0]) && !whitespace_char(s.last()),
    ensures
        trimmed(s) == s,
{
}

/// The given characters without leading and trailing whitespace.
#[verifier::loop_isolation(false)]
pub fn trim_chars(chars: &Vec<char>) -> (res: Vec<char>)
    ensures
        res@ == trimmed(chars@),
{
    let mut from: usize = 0;
    assert(chars@.skip(0) =~= chars@);
    while from < chars.len() && chars[from].is_whitespace()
        invariant
            from <= chars@.len(),
            trim_start(chars@) == trim_start(chars@.skip(from as int)),
        decreases chars@.len() - from,
    {
        assert(chars@.skip(from as int).drop_first() =~= chars@.skip(from + 1));
        from += 1;
    }
    let mut to: usize = chars.len();
    assert(chars@.subrange(from as int, to as int) =~= chars@.skip(from as int));
    while to > from && chars[to - 1].is_whitespace()
        invariant
            from <= to <= chars@.len(),
            trimmed(chars@) == trim_end(chars@.subrange(from as int, to as int)),
        decreases to,
    {
        assert(chars@.subrange(from as int, to as int).drop_last() =~= chars@.subrange(
            from as int,
            to - 1,
        ));
        to -= 1;
    }
    let mut res: Vec<char> = Vec::new();
    let mut i = from;
    while i < to
        invariant
            from <= i <= to,
            res@ == chars@.subrange(from as int, i as int),
        decreases to - i,
    {
        res.push(chars[i]);
        i += 1;
    }
    res
}

/// `s` without leading and trailing whitespace.
pub fn trim(s: &str) -> (res: String)
    ensures
        res@ == trimmed(s@),
{
    string_from(&trim_chars(&chars_of(s)))
}

// Splitting

/// The maximal runs of non-whitespace characters of `s`, in order.
pub open spec fn words(s: Seq<char>) -> Seq<Seq<char>>
    decreases s.len(),
{
    let t = trim_start(s);
    if t.len() == 0 {
        seq![]
    } else {
        proof {
            lemma_trim_start(s);
            lemma_first_index(t, whitespace());
        }
        let n = index_of_whitespace(t);
        seq![t.take(n)] + words(t.skip(n))
    }
}

/// What `words` computes in one step.
pub proof fn lemma_words(s: Seq<char>)
    ensures
        trim_start(s).len() == 0 ==> words(s) == Seq::<Seq<char>>::empty(),
        trim_start(s).len() > 0 ==> words(s) == seq![
            trim_start(s).take(index_of_whitespace(trim_start(s))),
        ] + words(trim_start(s).skip(index_of_whitespace(trim_start(s)))),
{
    lemma_trim_start(s);
    lemma_first_index(trim_start(s), whitespace());
}

/// The whitespace-separated words of `s`.
#[verifier::loop_isolation(false)]
pub fn split_words(s: &str) -> (res: Vec<String>)
    ensures
        views(res@) == words(s@),
{
    let chars = chars_of(s);
    let mut res: Vec<String> = Vec::new();
    let mut pos: usize = 0;
    assert(chars@.skip(0) =~= chars@);
    assert(views(res@) + words(chars@) =~= words(chars@));
    loop
        invariant
            pos <= chars@.len(),
            views(res@) + words(chars@.skip(pos as int)) == words(s@),
        decreases chars@.len() - pos,
    {
        let ghost start = pos as int;
        while pos < chars.len() && chars[pos].is_whitespace()
            invariant
                start <= pos <= chars@.len(),
                trim_start(chars@.skip(start)) == trim_start(chars@.skip(pos as int)),
            decreases chars@.len() - pos,
        {
            assert(chars@.skip(pos as int).drop_first() =~= chars@.skip(pos + 1));
            pos += 1;
        }
        let ghost t = chars@.skip(pos as int);
        proof {
            lemma_words(chars@.skip(start));
            lemma_words(t);
        }
        assert(trim_start(t) == t);
        if pos == chars.len() {
            break;
        }
        let end = find_whitespace(&chars, pos);
        proof {
            lemma_first_index(t, whitespace());
            assert(t.take(end - pos) =~= chars@.subrange(pos as int, end as int));
            assert(t.skip(end - pos) =~= chars@.skip(end as int));
        }
        let word = string_of(&chars, pos, end);
        let ghost before = views(res@);
        res.push(word);
        proof {
            assert(views(res@) =~= before.push(word@));
            assert(before.push(word@) + words(chars@.skip(end as int)) =~= before + (seq![word@]
                + words(chars@.skip(end as int))));
        }
        pos = end;
    }
    assert(views(res@) + Seq::<Seq<char>>::empty() =~= views(res@));
    res
}

/// What follows the first word of `s`.
pub open spec fn after_word(s: Seq<char>) -> Seq<char> {
    let t = trim_start(s);
    t.skip(index_of_whitespace(t))
}

/// What follows the first word has the other words.
pub proof fn lemma_after_word(s: Seq<char>)
    requires
        words(s).len() > 0,
    ensures
        words(after_word(s)) == words(s).drop_first(),
        words(s)[0] == trim_start(s).take(index_of_whitespace(trim_start(s))),
{
    lemma_words(s);
    assert(words(s).drop_first() =~= words(after_word(s)));
}

/// Where the word ends that starts at `from` or after whitespace there.
pub fn skip_word(chars: &Vec<char>, from: usize) -> (end: usize)
    requires
        from <= chars@.len(),
    ensures
        from <= end <= chars@.len(),
        chars@.skip(end as int) == after_word(chars@.skip(from as int)),
{
    let ghost s = chars@.skip(from as int);
    let mut pos = from;
    while pos < chars.len() && chars[pos].is_whitespace()
        invariant
            from <= pos <= chars@.len(),
            s == chars@.skip(from as int),
            trim_start(s) == trim_start(chars@.skip(pos as int)),
        decreases chars@.len() - pos,
    {
        assert(chars@.skip(pos as int).drop_first() =~= chars@.skip(pos + 1));
        pos += 1;
    }
    let end = find_whitespace(chars, pos);
    proof {
        let t = chars@.skip(pos as int);
        assert(trim_start(s) == t);
        assert(t.skip(end - pos) =~= chars@.skip(end as int));
    }
    end
}

/// Trimming the start stops at a character that is no whitespace.
proof fn lemma_trim_start_stops(s: Seq<char>, i: int)
    requires
        0 <= i < s.len(),
        !whitespace_char(s[i]),
    ensures
        trim_start(s).len() >= s.len() - i,
    decreases s.len(),
{
    if whitespace_char(s[0]) {
        assert(s.drop_first()[i - 1] == s[i]);
        lemma_trim_start_stops(s.drop_first(), i - 1);
    }
}

/// A whitespace character at the end adds no word.
proof fn lemma_words_push(s: Seq<char>, c: char)
    requires
        whitespace_char(c),
    ensures
        words(s.push(c)) == words(s),
    decreases s.len(),
{
    let longer = s.push(c);
    lemma_trim_start_push(s, c);
    lemma_words(s);
    lemma_words(longer);
    let t = trim_start(s);
    if t.len() > 0 {
        lemma_trim_start(s);
        lemma_first_index(t, whitespace());
        let n = index_of_whitespace(t);
        let u = t.push(c);
        assert forall|i: int| 0 <= i < n implies !whitespace()(#[trigger] u[i]) by {
            assert(u[i] == t[i]);
            assert(!whitespace()(t[i]));
        }
        lemma_first_index_unique(u, whitespace(), n);
        assert(u.take(n) =~= t.take(n));
        assert(n > 0) by {
            assert(!whitespace_char(t[0]));
        }
        assert(u.skip(n) =~= t.skip(n).push(c));
        lemma_words_push(t.skip(n), c);
    }
}

/// How a whitespace character at the end is trimmed.
proof fn lemma_trim_start_push(s: Seq<char>, c: char)
    requires
        whitespace_char(c),
    ensures
        trim_start(s).len() > 0 ==> trim_start(s.push(c)) == trim_start(s).push(c),
        trim_start(s).len() == 0 ==> trim_start(s.push(c)).len() == 0,
    decreases s.len(),
{
    let longer = s.push(c);
    if s.len() == 0 {
        assert(longer.drop_first() =~= Seq::<char>::empty());
        assert(trim_start(longer.drop_first()).len() == 0);
    } else if whitespace_char(s[0]) {
        assert(longer.drop_first() =~= s.drop_first().push(c));
        lemma_trim_start_push(s.drop_first(), c);
    }
}

/// Trimming changes no word.
pub proof fn lemma_words_trimmed(s: Seq<char>)
    ensures
        words(trimmed(s)) == words(s),
{
    lemma_words(s);
    lemma_trim_start(s);
    lemma_words(trim_start(s));
    assert(trim_start(trim_start(s)) == trim_start(s));
    lemma_words_trim_end(trim_start(s));
}

/// Trimming the end changes no word.
proof fn lemma_words_trim_end(s: Seq<char>)
    ensures
        words(trim_end(s)) == words(s),
    decreases s.len(),
{
    if s.len() > 0 && whitespace_char(s.last()) {
        lemma_words_trim_end(s.drop_last());
        lemma_words_push(s.drop_last(), s.last());
        assert(s =~= s.drop_last().push(s.last()));
    }
}

/// A trimmed text of two or more words is its first word, whitespace, and a
/// rest with the other words.
pub proof fn lemma_split_words(s: Seq<char>)
    requires
        words(s).len() >= 2,
        trimmed(s) == s,
    ensures
        ({
            let n = index_of_whitespace(s);
            &&& 0 < n < s.len()
            &&& words(s)[0] == s.take(n)
            &&& words(s.skip(n + 1)) == words(s).drop_first()
        }),
{
    lemma_trimmed_ends(s);
    lemma_after_word(s);
    let n = index_of_whitespace(s);
    lemma_words(s);
    lemma_first_index(s, whitespace());
    assert(trim_start(s) == s) by {
        lemma_trim_start(s);
        lemma_trim_end(trim_start(s));
    }
    let rest = s.skip(n);
    lemma_words(rest);
    lemma_trim_start(rest);
    assert(words(rest) == words(s).drop_first());
    assert(n < s.len());
    assert(whitespace_char(rest[0])) by {
        assert(whitespace()(s[n]));
    }
    assert(rest.drop_first() =~= s.skip(n + 1));
    lemma_words(s.skip(n + 1));
}

/// A trimmed text of one word is that word.
pub proof fn lemma_one_word(s: Seq<char>)
    requires
        words(s).len() == 1,
        trimmed(s) == s,
    ensures
        index_of_whitespace(s) == s.len(),
{
    lemma_trimmed_ends(s);
    lemma_trim_start(s);
    lemma_trim_end(trim_start(s));
    lemma_after_word(s);
    lemma_first_index(s, whitespace());
    let n = index_of_whitespace(s);
    if n < s.len() {
        let rest = s.skip(n);
        assert(rest.last() == s.last());
        lemma_trim_start_stops(rest, rest.len() - 1);
        lemma_words(rest);
    }
}

/// A text with a word is not blank, and a blank text has no word.
pub proof fn lemma_blank(s: Seq<char>)
    ensures
        words(s).len() == 0 <==> trimmed(s).len() == 0,
{
    lemma_words_trimmed(s);
    lemma_words(trimmed(s));
    lemma_trimmed_ends(s);
    if trimmed(s).len() > 0 {
        assert(trim_start(trimmed(s)) == trimmed(s));
    } else {
        assert(trimmed(s) =~= Seq::<char>::empty());
    }
}

/// The parts of `s` before and after its first whitespace character.
pub open spec fn split_at_whitespace(s: Seq<char>) -> Option<(Seq<char>, Seq<char>)> {
    let n = index_of_whitespace(s);
    if n < s.len() {
        Some((s.take(n), s.skip(n + 1)))
    } else {
        None
    }
}

/// The parts of `s` before and after its first whitespace character.
pub fn split_whitespace_once(s: &str) -> (res: Option<(String, String)>)
    ensures
        match res {
            Some((before, after)) => split_at_whitespace(s@) == Some((before@, after@)),
            None => split_at_whitespace(s@) is None,
        },
{
    let chars = chars_of(s);
    let n = find_whitespace(&chars, 0);
    assert(chars@.skip(0) =~= chars@);
    if n < chars.len() {
        let before = string_of(&chars, 0, n);
        let after = string_of(&chars, n + 1, chars.len());
        assert(before@ =~= s@.take(n as int));
        assert(after@ =~= s@.skip(n + 1));
        Some((before, after))
    } else {
        None
    }
}

/// The parts of `s` before and after its first `c`.
pub open spec fn split_at_char(s: Seq<char>, c: char) -> Option<(Seq<char>, Seq<char>)> {
    let n = index_of_char(s, c);
    if n < s.len() {
        Some((s.take(n), s.skip(n + 1)))
    } else {
        None
    }
}

/// The parts of `s` before and after its first `c`.
pub fn split_char_once(s: &str, c: char) -> (res: Option<(String, String)>)
    ensures
        match res {
            Some((before, after)) => split_at_char(s@, c) == Some((before@, after@)),
            None => split_at_char(s@, c) is None,
        },
{
    let chars = chars_of(s);
    let n = find_char(&chars, 0, c);
    assert(chars@.skip(0) =~= chars@);
    if n < chars.len() {
        let before = string_of(&chars, 0, n);
        let after = string_of(&chars, n + 1, chars.len());
        assert(before@ =~= s@.take(n as int));
        assert(after@ =~= s@.skip(n + 1));
        Some((before, after))
    } else {
        None
    }
}

// Joining

/// The `parts` with `separator` between each two neighbours.
pub open spec fn joined(parts: Seq<Seq<char>>, separator: Seq<char>) -> Seq<char>
    decreases parts.len(),
{
    if parts.len() == 0 {
        seq![]
    } else if parts.len() == 1 {
        parts[0]
    } else {
        joined(parts.drop_last(), separator) + separator + parts.last()
    }
}

/// The `parts` with `separator` between each two neighbours.
#[verifier::loop_isolation(false)]
pub fn join(parts: &Vec<String>, separator: &str) -> (res: String)
    ensures
        res@ == joined(views(parts@), separator@),
{
    let mut res = String::new();
    let mut i: usize = 0;
    while i < parts.len()
        invariant
            i <= parts@.len(),
            res@ == joined(views(parts@).take(i as int), separator@),
        decreases parts@.len() - i,
    {
        if i > 0 {
            res.push_str(separator);
        }
        res.push_str(parts[i].as_str());
        proof {
            let next = views(parts@).take(i + 1);
            assert(next.drop_last() =~= views(parts@).take(i as int));
            if i == 0 {
                assert(res@ =~= next[0]);
            }
        }
        i += 1;
    }
    assert(views(parts@).take(i as int) =~= views(parts@));
    res
}

/// The same strings once more.
pub fn copy_strings(list: &Vec<String>) -> (res: Vec<String>)
    ensures
        views(res@) == views(list@),
{
    let mut res: Vec<String> = Vec::new();
    let mut i: usize = 0;
    while i < list.len()
        invariant
            i <= list@.len(),
            views(res@) == views(list@).take(i as int),
        decreases list@.len() - i,
    {
        let ghost before = views(res@);
        res.push(list[i].clone());
        assert(views(res@) =~= before.push(list@[i as int]@));
        assert(views(list@).take(i + 1) =~= before.push(list@[i as int]@));
        i += 1;
    }
    assert(views(list@).take(i as int) =~= views(list@));
    res
}

/// A pattern occurs in every text that holds it between two others.
pub proof fn lemma_occurs_between(before: Seq<char>, pattern: Seq<char>, after: Seq<char>)
    ensures
        occurs_in(before + pattern + after, pattern),
{
    let text = before + pattern + after;
    let at = before.len() as int;
    assert(text.subrange(at, at + pattern.len()) =~= pattern);
    assert(occurs_at(text, pattern, at));
}

// Laws

/// Whether a text holds nothing but whitespace.
pub open spec fn all_blank(s: Seq<char>) -> bool {
    forall|i: int| 0 <= i < s.len() ==> whitespace_char(#[trigger] s[i])
}

/// Whether a text holds no whitespace.
pub open spec fn no_blank(s: Seq<char>) -> bool {
    forall|i: int| 0 <= i < s.len() ==> !whitespace_char(#[trigger] s[i])
}

/// Trimming the start takes leading whitespace off, and nothing else.
pub proof fn lemma_trim_start_of(blank: Seq<char>, rest: Seq<char>)
    requires
        all_blank(blank),
        rest.len() > 0 ==> !whitespace_char(rest[0]),
    ensures
        trim_start(blank + rest) == rest,
    decreases blank.len(),
{
    if blank.len() == 0 {
        assert(blank + rest =~= rest);
    } else {
        assert((blank + rest).drop_first() =~= blank.drop_first() + rest);
        assert(all_blank(blank.drop_first())) by {
            assert forall|i: int| 0 <= i < blank.drop_first().len() implies whitespace_char(
                #[trigger] blank.drop_first()[i],
            ) by {
                assert(blank.drop_first()[i] == blank[i + 1]);
            }
        }
        lemma_trim_start_of(blank.drop_first(), rest);
    }
}

/// Trimming the end takes trailing whitespace off, and nothing else.
proof fn lemma_trim_end_of(rest: Seq<char>, blank: Seq<char>)
    requires
        all_blank(blank),
        rest.len() > 0 ==> !whitespace_char(rest.last()),
    ensures
        trim_end(rest + blank) == rest,
    decreases blank.len(),
{
    if blank.len() == 0 {
        assert(rest + blank =~= rest);
    } else {
        assert((rest + blank).drop_last() =~= rest + blank.drop_last());
        assert((rest + blank).last() == blank[blank.len() - 1]);
        lemma_trim_end_of(rest, blank.drop_last());
    }
}

/// Trimming takes the whitespace at both ends off and leaves all that stands
/// between.
pub proof fn law_trimming_takes_the_ends_off(before: Seq<char>, s: Seq<char>, after: Seq<char>)
    requires
        all_blank(before),
        all_blank(after),
        s.len() > 0 ==> !whitespace_char(s[0]) && !whitespace_char(s.last()),
    ensures
        trimmed(before + s + after) == s,
{
    if s.len() > 0 {
        assert(before + s + after =~= before + (s + after));
        lemma_trim_start_of(before, s + after);
        lemma_trim_end_of(s, after);
    } else {
        let all = before + s + after;
        assert(all_blank(all));
        assert(all =~= all + Seq::<char>::empty());
        lemma_trim_start_of(all, Seq::<char>::empty());
    }
}

/// Where the first word of a text ends.
pub proof fn lemma_word_ends(word: Seq<char>, rest: Seq<char>)
    requires
        no_blank(word),
        rest.len() > 0 ==> whitespace_char(rest[0]),
    ensures
        index_of_whitespace(word + rest) == word.len(),
        (word + rest).take(word.len() as int) == word,
        (word + rest).skip(word.len() as int) == rest,
{
    let text = word + rest;
    assert forall|i: int| 0 <= i < word.len() implies !whitespace()(#[trigger] text[i]) by {
        assert(text[i] == word[i]);
    }
    lemma_first_index_unique(text, whitespace(), word.len() as int);
    assert(text.take(word.len() as int) =~= word);
    assert(text.skip(word.len() as int) =~= rest);
}

/// The words of a text are what whitespace parts: the first word is the
/// first run without whitespace, and whitespace alone makes no word.
pub proof fn law_whitespace_parts_words(blank: Seq<char>, word: Seq<char>, rest: Seq<char>)
    requires
        all_blank(blank),
        word.len() > 0,
        no_blank(word),
        rest.len() > 0 ==> whitespace_char(rest[0]),
    ensures
        words(blank + word + rest) == seq![word] + words(rest),
        words(blank) == Seq::<Seq<char>>::empty(),
{
    let text = blank + word + rest;
    assert(text =~= blank + (word + rest));
    lemma_trim_start_of(blank, word + rest);
    lemma_words(text);
    lemma_word_ends(word, rest);
    assert(blank =~= blank + Seq::<char>::empty());
    lemma_trim_start_of(blank, Seq::<char>::empty());
    lemma_words(blank);
}

/// What follows the first word.
pub proof fn lemma_after_word_of(blank: Seq<char>, word: Seq<char>, rest: Seq<char>)
    requires
        all_blank(blank),
        word.len() > 0,
        no_blank(word),
        rest.len() > 0 ==> whitespace_char(rest[0]),
    ensures
        after_word(blank + word + rest) == rest,
{
    assert(blank + word + rest =~= blank + (word + rest));
    lemma_trim_start_of(blank, word + rest);
    lemma_word_ends(word, rest);
}

/// A text ends in what was appended to it, and in nothing else of that
/// length.
pub proof fn law_suffixes(text: Seq<char>, suffix: Seq<char>)
    ensures
        is_suffix(text + suffix, suffix),
        is_suffix(text, suffix) <==> exists|head: Seq<char>| text == #[trigger] (head + suffix),
{
    let whole = text + suffix;
    assert(whole.subrange(text.len() as int, whole.len() as int) =~= suffix);
    if is_suffix(text, suffix) {
        let head = text.take(text.len() - suffix.len());
        assert(text =~= head + suffix);
    }
    if exists|head: Seq<char>| text == #[trigger] (head + suffix) {
        let head = choose|head: Seq<char>| text == #[trigger] (head + suffix);
        assert(text.subrange(head.len() as int, text.len() as int) =~= suffix);
    }
}

/// Parts are joined with the separator between every two of them.
pub proof fn law_joining_puts_the_separator_between(
    first: Seq<char>,
    rest: Seq<Seq<char>>,
    separator: Seq<char>,
)
    ensures
        joined(seq![first], separator) == first,
        joined(Seq::empty(), separator) == Seq::<char>::empty(),
        rest.len() > 0 ==> joined(seq![first] + rest, separator) == first + separator + joined(
            rest,
            separator,
        ),
    decreases rest.len(),
{
    let all = seq![first] + rest;
    if rest.len() == 1 {
        assert(all.drop_last() =~= seq![first]);
        assert(all.last() == rest[0]);
    } else if rest.len() > 1 {
        law_joining_puts_the_separator_between(first, rest.drop_last(), separator);
        assert(all.drop_last() =~= seq![first] + rest.drop_last());
        assert(all.last() == rest.last());
        assert(joined(all, separator) =~= first + separator + joined(rest, separator));
    }
}

/// A text with a character that is no whitespace does not trim to nothing.
pub proof fn lemma_not_blank(s: Seq<char>, i: int)
    requires
        0 <= i < s.len(),
        !whitespace_char(s[i]),
    ensures
        trimmed(s).len() > 0,
{
    lemma_trim_start_stops(s, i);
    lemma_trim_start(s);
    lemma_trim_end_stops(trim_start(s), 0);
}

proof fn lemma_trim_end_stops(s: Seq<char>, i: int)
    requires
        0 <= i < s.len(),
        !whitespace_char(s[i]),
    ensures
        trim_end(s).len() > i,
    decreases s.len(),
{
    if whitespace_char(s.last()) {
        assert(s.drop_last()[i] == s[i]);
        lemma_trim_end_stops(s.drop_last(), i);
    }
}

/// A text is split at the first of the characters in question: what stands
/// before holds none, and what stands after is taken as it is.
pub proof fn law_texts_are_split_at_the_first(before: Seq<char>, c: char, after: Seq<char>)
    requires
        !before.contains(c),
    ensures
        split_at_char(before + seq![c] + after, c) == Some((before, after)),
        split_at_char(before, c) is None,
        no_blank(before) && whitespace_char(c) ==> split_at_whitespace(before + seq![c] + after)
            == Some((before, after)),
        no_blank(before) ==> split_at_whitespace(before) is None,
{
    let s = before + seq![c] + after;
    let n = before.len() as int;
    assert(s[n] == c);
    assert forall|i: int| 0 <= i < n implies !equal_to(c)(#[trigger] s[i]) by {
        assert(s[i] == before[i]);
        assert(before.contains(before[i]));
    }
    assert forall|i: int| 0 <= i < n implies !equal_to(c)(#[trigger] before[i]) by {
        assert(before.contains(before[i]));
    }
    lemma_first_index_unique(s, equal_to(c), n);
    lemma_first_index_unique(before, equal_to(c), n);
    assert(s.take(n) =~= before);
    assert(s.skip(n + 1) =~= after);
    if no_blank(before) {
        assert forall|i: int| 0 <= i < n implies !whitespace()(#[trigger] s[i]) by {
            assert(s[i] == before[i]);
        }
        lemma_first_index_unique(before, whitespace(), n);
        if whitespace_char(c) {
            lemma_first_index_unique(s, whitespace(), n);
        }
    }
}

/// Every part occurs in what the parts are joined to.
pub proof fn law_joined_texts_hold_their_parts(
    parts: Seq<Seq<char>>,
    separator: Seq<char>,
    i: int,
)
    requires
        0 <= i < parts.len(),
    ensures
        occurs_in(joined(parts, separator), parts[i]),
    decreases parts.len(),
{
    let none = Seq::<char>::empty();
    if parts.len() == 1 {
        lemma_occurs_between(none, parts[0], none);
        assert(none + parts[0] + none =~= parts[0]);
    } else if i == parts.len() - 1 {
        let before = joined(parts.drop_last(), separator) + separator;
        lemma_occurs_between(before, parts[i], none);
        assert(before + parts[i] + none =~= joined(parts, separator));
    } else {
        law_joined_texts_hold_their_parts(parts.drop_last(), separator, i);
        let before = joined(parts.drop_last(), separator);
        assert(parts.drop_last()[i] == parts[i]);
        lemma_occurs_in_more(none, before, separator + parts.last(), parts[i]);
        assert(none + before + (separator + parts.last()) =~= joined(parts, separator));
    }
}

/// What occurs in a text occurs in every longer one.
pub proof fn lemma_occurs_in_more(
    before: Seq<char>,
    text: Seq<char>,
    after: Seq<char>,
    pattern: Seq<char>,
)
    requires
        occurs_in(text, pattern),
    ensures
        occurs_in(before + text + after, pattern),
{
    let at = choose|at: int| occurs_at(text, pattern, at);
    let start = before.len() + at;
    let whole = before + text + after;
    assert(whole.subrange(start, start + pattern.len()) =~= text.subrange(
        at,
        at + pattern.len(),
    ));
    assert(occurs_at(whole, pattern, start));
}

/// The characters of a list of strings are those of each string, in order,
/// and those of an optional string are those of the string, if there is one.
pub proof fn law_strings_are_their_characters(list: Seq<String>, i: int, s: String)
    ensures
        views(list).len() == list.len(),
        0 <= i < list.len() ==> views(list)[i] == list[i]@,
        option_view(Some(s)) == Some(s@),
        option_view(None) is None,
{
}

} // verus!
