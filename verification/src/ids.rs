//! Matrix identifiers and sets of them.
use vstd::prelude::*;

use crate::number;
use crate::text;
use crate::text::same;

verus! {

// Server names

/// The name of what std's parser of IPv6 addresses says of a text: whether it
/// is one. `UserId::parse` and `RoomId::server_name` ask it about what stands
/// in brackets.
pub uninterp spec fn ipv6_address(text: Seq<char>) -> bool;

/// Whether `c` may stand in a domain name or an IPv4 address.
pub open spec fn host_char(c: char) -> bool {
    ||| '0' <= c <= '9'
    ||| 'a' <= c <= 'z'
    ||| 'A' <= c <= 'Z'
    ||| c == '-'
    ||| c == '.'
}

/// Whether `text` is nothing, or a colon and a number of 16 bits.
pub open spec fn optional_port(text: Seq<char>) -> bool {
    text.len() == 0 || {
        let digits = number::without_plus(text.skip(1));
        text[0] == ':' && number::all_digits(digits) && number::digits_value(digits) <= 65535
    }
}

/// Whether `text` is a server name: an IPv6 address in brackets or a host of
/// letters, digits, `-` and `.`, with or without a port.
pub open spec fn valid_server_name(text: Seq<char>) -> bool {
    if text.len() > 0 && text[0] == '[' {
        let n = text::index_of_char(text, ']');
        n < text.len() && ipv6_address(bracketed(text)) && optional_port(text.skip(n + 1))
    } else {
        let n = text::index_of_char(text, ':');
        &&& n > 0
        &&& forall|i: int| 0 <= i < n ==> host_char(#[trigger] text[i])
        &&& optional_port(text.skip(n))
    }
}

/// What stands in the brackets at the start of `text`.
pub open spec fn bracketed(text: Seq<char>) -> Seq<char> {
    text.subrange(1, text::index_of_char(text, ']'))
}

// User IDs

/// What follows the first colon of `text`.
pub open spec fn after_colon(text: Seq<char>) -> Seq<char> {
    text.skip(text::index_of_char(text, ':') + 1)
}

/// What stands between the first character of `text` and its first colon.
pub open spec fn localpart_of(text: Seq<char>) -> Seq<char> {
    text.subrange(1, text::index_of_char(text, ':'))
}

/// Why `text` is no user ID, if it is none: a user ID is an `@`, a localpart
/// without NUL characters, a colon and a server name.
pub open spec fn user_id_error(text: Seq<char>) -> Option<Seq<char>> {
    if text.len() == 0 || text[0] != '@' {
        Some("leading sigil is incorrect or missing"@)
    } else if !text.contains(':') {
        Some("required colon is missing"@)
    } else if !valid_server_name(after_colon(text)) {
        Some("server name is not a valid IP address or domain name"@)
    } else if localpart_of(text).contains('\0') {
        Some("identifier contains invalid characters"@)
    } else {
        None
    }
}

/// `UserId::parse`: the sigil is looked at first, then the colon, the server
/// name and the localpart. The SDK compiles the check without a limit on the
/// length. Which texts are IPv6 addresses is left unsaid.
#[verifier::external_body]
fn check_user_id(text: &str) -> (res: Option<String>)
    ensures
        text::option_view(res) == user_id_error(text@),
        res is None && after_colon(text@)[0] == '[' ==> ipv6_address(
            bracketed(after_colon(text@)),
        ),
{
    match matrix_sdk::ruma::UserId::parse(text) {
        Ok(_) => None,
        Err(error) => Some(error.to_string()),
    }
}

/// `UserId::localpart`: what stands between the sigil and the first colon.
#[verifier::external_body]
fn user_localpart(text: &str) -> (res: String)
    requires
        user_id_error(text@) is None,
    ensures
        res@ == localpart_of(text@),
{
    match matrix_sdk::ruma::UserId::parse(text) {
        Ok(id) => id.localpart().to_owned(),
        Err(_) => String::new(),
    }
}

/// `UserId::server_name`: everything after the first colon.
#[verifier::external_body]
fn user_server_name(text: &str) -> (res: String)
    requires
        user_id_error(text@) is None,
    ensures
        res@ == after_colon(text@),
{
    match matrix_sdk::ruma::UserId::parse(text) {
        Ok(id) => id.server_name().to_string(),
        Err(_) => String::new(),
    }
}

// Room IDs

/// Why `text` is no room ID, if it is none: a room ID starts with `!` and
/// holds no NUL character.
pub open spec fn room_id_error(text: Seq<char>) -> Option<Seq<char>> {
    if text.len() == 0 || text[0] != '!' {
        Some("leading sigil is incorrect or missing"@)
    } else if text.contains('\0') {
        Some("identifier contains invalid characters"@)
    } else {
        None
    }
}

/// `RoomId::parse`: a missing sigil is reported before a NUL character. The
/// SDK compiles the check without a limit on the length.
#[verifier::external_body]
fn check_room_id(text: &str) -> (res: Option<String>)
    ensures
        text::option_view(res) == room_id_error(text@),
{
    match matrix_sdk::ruma::RoomId::parse(text) {
        Ok(_) => None,
        Err(error) => Some(error.to_string()),
    }
}

/// The server that a room ID names: what follows its first colon, where that
/// is a server name.
pub open spec fn room_server(text: Seq<char>) -> Option<Seq<char>> {
    if text.contains(':') && valid_server_name(after_colon(text)) {
        Some(after_colon(text))
    } else {
        None
    }
}

/// `RoomId::server_name`: everything after the first colon, if there is one
/// and a valid server name follows it. Which texts are IPv6 addresses is left
/// unsaid.
#[verifier::external_body]
fn room_server_name(text: &str) -> (res: Option<String>)
    requires
        room_id_error(text@) is None,
    ensures
        text::option_view(res) == room_server(text@),
        res is Some && after_colon(text@)[0] == '[' ==> ipv6_address(
            bracketed(after_colon(text@)),
        ),
{
    match matrix_sdk::ruma::RoomId::parse(text) {
        Ok(id) => id.server_name().map(|name| name.to_string()),
        Err(_) => None,
    }
}

/// Why a text is not the identifier it should be.
#[derive(Clone, Debug, PartialEq, Eq)]
pub struct IdError {
    pub message: String,
}

/// Identifiers that are written as text.
pub trait MatrixId: View<V = Seq<char>> + Sized {
    /// Why `text` is no such identifier; `None` when it is one.
    spec fn error_of(text: Seq<char>) -> Option<Seq<char>>;

    /// Reads an identifier.
    fn parse(text: &str) -> (res: Result<Self, IdError>)
        ensures
            match res {
                Ok(id) => Self::error_of(text@) is None && id@ == text@,
                Err(error) => Self::error_of(text@) == Some(error.message@),
            },
    ;

    /// The identifier as text.
    fn as_str(&self) -> (res: &str)
        ensures
            res@ == self@,
    ;

    /// The same identifier once more.
    fn duplicate(&self) -> (res: Self)
        ensures
            res@ == self@,
    ;
}

/// A user ID, such as `@alice:example.org`.
#[derive(Debug, PartialEq, Eq, PartialOrd, Ord, Hash)]
pub struct OwnedUserId {
    text: String,
}

impl View for OwnedUserId {
    type V = Seq<char>;

    closed spec fn view(&self) -> Seq<char> {
        self.text@
    }
}

impl OwnedUserId {
    #[verifier::type_invariant]
    spec fn is_valid(self) -> bool {
        user_id_error(self.text@) is None
    }

    /// What stands between the `@` and the first colon.
    pub fn localpart(&self) -> (res: String)
        ensures
            res@ == localpart_of(self@),
    {
        proof {
            use_type_invariant(self);
        }
        user_localpart(self.text.as_str())
    }

    /// The user's homeserver: what follows the first colon.
    pub fn server_name(&self) -> (res: String)
        ensures
            res@ == after_colon(self@),
    {
        proof {
            use_type_invariant(self);
        }
        user_server_name(self.text.as_str())
    }
}

impl MatrixId for OwnedUserId {
    open spec fn error_of(text: Seq<char>) -> Option<Seq<char>> {
        user_id_error(text)
    }

    fn parse(text: &str) -> (res: Result<Self, IdError>) {
        match check_user_id(text) {
            None => Ok(OwnedUserId { text: text.to_owned() }),
            Some(message) => Err(IdError { message }),
        }
    }

    fn as_str(&self) -> (res: &str) {
        self.text.as_str()
    }

    fn duplicate(&self) -> (res: Self) {
        proof {
            use_type_invariant(self);
        }
        OwnedUserId { text: self.text.clone() }
    }
}

impl Clone for OwnedUserId {
    fn clone(&self) -> (res: Self)
        ensures
            res@ == self@,
    {
        self.duplicate()
    }
}

/// A room ID, such as `!room:example.org`.
#[derive(Debug, PartialEq, Eq, PartialOrd, Ord, Hash)]
pub struct OwnedRoomId {
    text: String,
}

impl View for OwnedRoomId {
    type V = Seq<char>;

    closed spec fn view(&self) -> Seq<char> {
        self.text@
    }
}

impl OwnedRoomId {
    #[verifier::type_invariant]
    spec fn is_valid(self) -> bool {
        room_id_error(self.text@) is None
    }

    /// The server that created the room, when the ID names one.
    pub fn server_name(&self) -> (res: Option<String>)
        ensures
            text::option_view(res) == room_server(self@),
    {
        proof {
            use_type_invariant(self);
        }
        room_server_name(self.text.as_str())
    }
}

impl MatrixId for OwnedRoomId {
    open spec fn error_of(text: Seq<char>) -> Option<Seq<char>> {
        room_id_error(text)
    }

    fn parse(text: &str) -> (res: Result<Self, IdError>) {
        match check_room_id(text) {
            None => Ok(OwnedRoomId { text: text.to_owned() }),
            Some(message) => Err(IdError { message }),
        }
    }

    fn as_str(&self) -> (res: &str) {
        self.text.as_str()
    }

    fn duplicate(&self) -> (res: Self) {
        proof {
            use_type_invariant(self);
        }
        OwnedRoomId { text: self.text.clone() }
    }
}

impl Clone for OwnedRoomId {
    fn clone(&self) -> (res: Self)
        ensures
            res@ == self@,
    {
        self.duplicate()
    }
}

// Sets

/// The texts of a list of identifiers.
pub open spec fn id_texts<T: MatrixId>(list: Seq<T>) -> Seq<Seq<char>> {
    Seq::new(list.len(), |i: int| list[i]@)
}

/// A set of identifiers.
#[derive(Debug)]
pub struct IdSet<T: MatrixId> {
    items: Vec<T>,
}

impl<T: MatrixId> View for IdSet<T> {
    type V = Set<Seq<char>>;

    closed spec fn view(&self) -> Set<Seq<char>> {
        id_texts(self.items@).to_set()
    }
}

impl<T: MatrixId> IdSet<T> {
    #[verifier::type_invariant]
    spec fn distinct(self) -> bool {
        id_texts(self.items@).no_duplicates()
    }

    /// The empty set.
    pub fn new() -> (res: Self)
        ensures
            res@ == Set::<Seq<char>>::empty(),
    {
        let res = IdSet { items: Vec::new() };
        assert(res@ =~= Set::<Seq<char>>::empty());
        res
    }

    /// Whether an identifier with this text is in the set.
    pub fn contains(&self, text: &str) -> (res: bool)
        ensures
            res == self@.contains(text@),
    {
        let mut i: usize = 0;
        while i < self.items.len()
            invariant
                i <= self.items@.len(),
                forall|j: int| 0 <= j < i ==> id_texts(self.items@)[j] != text@,
            decreases self.items@.len() - i,
        {
            if same(self.items[i].as_str(), text) {
                assert(id_texts(self.items@)[i as int] == text@);
                return true;
            }
            i += 1;
        }
        false
    }

    /// Adds an identifier.
    pub fn insert(&mut self, id: T)
        ensures
            final(self)@ == old(self)@.insert(id@),
    {
        proof {
            use_type_invariant(&*self);
        }
        if self.contains(id.as_str()) {
            assert(self@.insert(id@) =~= self@);
            return;
        }
        let ghost before = id_texts(self.items@);
        let mut items: Vec<T> = Vec::new();
        std::mem::swap(&mut items, &mut self.items);
        items.push(id);
        proof {
            let after = id_texts(items@);
            assert(after =~= before.push(id@));
            assert(!before.contains(id@)) by {
                assert(!before.to_set().contains(id@));
            }
            assert forall|x: Seq<char>| after.to_set().contains(x) == before.to_set().insert(
                id@,
            ).contains(x) by {
                if before.contains(x) {
                    let k = choose|k: int| 0 <= k < before.len() && before[k] == x;
                    assert(after[k] == x);
                }
                assert(after[before.len() as int] == id@);
            }
            assert(after.to_set() =~= before.to_set().insert(id@));
        }
        self.items = items;
    }

    /// The number of identifiers.
    pub fn len(&self) -> (res: usize)
        ensures
            res == self@.len(),
    {
        proof {
            use_type_invariant(self);
            id_texts(self.items@).unique_seq_to_set();
        }
        self.items.len()
    }

    /// Whether the set is empty.
    pub fn is_empty(&self) -> (res: bool)
        ensures
            res == (self@ == Set::<Seq<char>>::empty()),
    {
        proof {
            use_type_invariant(self);
            id_texts(self.items@).unique_seq_to_set();
            if self.items@.len() > 0 {
                assert(self@.contains(id_texts(self.items@)[0]));
            } else {
                assert(self@ =~= Set::<Seq<char>>::empty());
            }
        }
        self.items.len() == 0
    }

    /// The identifiers, each once.
    pub fn entries(&self) -> (res: Vec<T>)
        ensures
            id_texts(res@).to_set() == self@,
            id_texts(res@).no_duplicates(),
    {
        proof {
            use_type_invariant(self);
        }
        let mut res: Vec<T> = Vec::new();
        let mut i: usize = 0;
        while i < self.items.len()
            invariant
                i <= self.items@.len(),
                id_texts(res@) == id_texts(self.items@).take(i as int),
            decreases self.items@.len() - i,
        {
            let ghost before = id_texts(res@);
            res.push(self.items[i].duplicate());
            assert(id_texts(res@) =~= before.push(self.items@[i as int]@));
            assert(id_texts(self.items@).take(i + 1) =~= id_texts(self.items@).take(i as int).push(
                self.items@[i as int]@,
            ));
            i += 1;
        }
        assert(id_texts(self.items@).take(i as int) =~= id_texts(self.items@));
        res
    }

    /// The set of the identifiers in a list.
    pub fn from_list(list: Vec<T>) -> (res: Self)
        ensures
            res@ == id_texts(list@).to_set(),
    {
        let mut res: Self = IdSet::new();
        let mut i: usize = 0;
        assert(id_texts(list@).take(0).to_set() =~= Set::<Seq<char>>::empty());
        while i < list.len()
            invariant
                i <= list@.len(),
                res@ == id_texts(list@).take(i as int).to_set(),
            decreases list@.len() - i,
        {
            res.insert(list[i].duplicate());
            proof {
                lemma_take_to_set(id_texts(list@), i as int);
            }
            i += 1;
        }
        assert(id_texts(list@).take(i as int) =~= id_texts(list@));
        res
    }

    /// Adds every identifier of `other`.
    pub fn extend(&mut self, other: &IdSet<T>)
        ensures
            final(self)@ == old(self)@.union(other@),
    {
        let list = other.entries();
        let mut i: usize = 0;
        assert(id_texts(list@).take(0).to_set() =~= Set::<Seq<char>>::empty());
        assert(old(self)@.union(id_texts(list@).take(0).to_set()) =~= old(self)@);
        while i < list.len()
            invariant
                i <= list@.len(),
                self@ == old(self)@.union(id_texts(list@).take(i as int).to_set()),
            decreases list@.len() - i,
        {
            self.insert(list[i].duplicate());
            proof {
                lemma_take_to_set(id_texts(list@), i as int);
                assert(self@ =~= old(self)@.union(id_texts(list@).take(i + 1).to_set()));
            }
            i += 1;
        }
        assert(id_texts(list@).take(i as int) =~= id_texts(list@));
    }
}

impl<T: MatrixId> IdSet<T> {
    /// Whether every identifier of this set is in the other.
    fn is_within(&self, other: &IdSet<T>) -> (res: bool)
        ensures
            res == self@.subset_of(other@),
    {
        let mut i: usize = 0;
        while i < self.items.len()
            invariant
                i <= self.items@.len(),
                forall|j: int| 0 <= j < i ==> other@.contains(#[trigger] id_texts(self.items@)[j]),
            decreases self.items@.len() - i,
        {
            if !other.contains(self.items[i].as_str()) {
                assert(self@.contains(id_texts(self.items@)[i as int]));
                return false;
            }
            i += 1;
        }
        true
    }
}

/// Two sets are equal when they hold the same identifiers.
impl<T: MatrixId> PartialEq for IdSet<T> {
    fn eq(&self, other: &Self) -> (res: bool) {
        let res = self.is_within(other) && other.is_within(self);
        assert(res ==> self@ =~= other@);
        res
    }
}

impl<T: MatrixId> vstd::std_specs::cmp::PartialEqSpecImpl for IdSet<T> {
    open spec fn obeys_eq_spec() -> bool {
        true
    }

    open spec fn eq_spec(&self, other: &Self) -> bool {
        self@ == other@
    }
}

impl<T: MatrixId> Eq for IdSet<T> {

}

impl<T: MatrixId> Clone for IdSet<T> {
    fn clone(&self) -> (res: Self)
        ensures
            res@ == self@,
    {
        IdSet { items: self.entries() }
    }
}

/// The set of the first `n + 1` items of a list.
proof fn lemma_take_to_set(list: Seq<Seq<char>>, n: int)
    requires
        0 <= n < list.len(),
    ensures
        list.take(n + 1).to_set() == list.take(n).to_set().insert(list[n]),
{
    let a = list.take(n + 1);
    let b = list.take(n);
    assert(a =~= b.push(list[n]));
    assert forall|x: Seq<char>| a.to_set().contains(x) == b.to_set().insert(list[n]).contains(
        x,
    ) by {
        if b.contains(x) {
            let k = choose|k: int| 0 <= k < b.len() && b[k] == x;
            assert(a[k] == x);
        }
        assert(a[n] == list[n]);
        if a.contains(x) && x != list[n] {
            let k = choose|k: int| 0 <= k < a.len() && a[k] == x;
            assert(b[k] == x);
        }
    }
    assert(a.to_set() =~= b.to_set().insert(list[n]));
}

/// The position of the first text that is no identifier; the length when
/// every text is one.
pub open spec fn first_invalid<T: MatrixId>(texts: Seq<Seq<char>>) -> int
    decreases texts.len(),
{
    if texts.len() == 0 || T::error_of(texts[0]) is Some {
        0
    } else {
        1 + first_invalid::<T>(texts.drop_first())
    }
}

/// Reads a list of identifiers. The first text that is none is reported with
/// its position.
#[verifier::loop_isolation(false)]
pub fn parse_all<T: MatrixId>(texts: &Vec<String>) -> (res: Result<IdSet<T>, (usize, IdError)>)
    ensures
        match res {
            Ok(set) => {
                &&& first_invalid::<T>(text::views(texts@)) == texts@.len()
                &&& set@ == text::views(texts@).to_set()
            },
            Err((n, error)) => {
                &&& n == first_invalid::<T>(text::views(texts@))
                &&& n < texts@.len()
                &&& T::error_of(texts@[n as int]@) == Some(error.message@)
            },
        },
{
    let ghost all = text::views(texts@);
    let mut set: IdSet<T> = IdSet::new();
    let mut i: usize = 0;
    assert(all.skip(0) =~= all);
    assert(all.take(0).to_set() =~= Set::<Seq<char>>::empty());
    while i < texts.len()
        invariant
            i <= texts@.len(),
            first_invalid::<T>(all) == i + first_invalid::<T>(all.skip(i as int)),
            set@ == all.take(i as int).to_set(),
        decreases texts@.len() - i,
    {
        match T::parse(texts[i].as_str()) {
            Ok(id) => {
                set.insert(id);
                proof {
                    lemma_take_to_set(all, i as int);
                    assert(all.skip(i as int).drop_first() =~= all.skip(i + 1));
                }
            },
            Err(error) => {
                return Err((i, error));
            },
        }
        i += 1;
    }
    assert(all.take(i as int) =~= all);
    Ok(set)
}

// Laws

/// The position of the first text that is no identifier: all before it are
/// some, and it is none, unless all are.
pub proof fn law_the_first_invalid_text_is_reported<T: MatrixId>(texts: Seq<Seq<char>>, n: int)
    requires
        0 <= n <= texts.len(),
        forall|i: int| 0 <= i < n ==> T::error_of(#[trigger] texts[i]) is None,
        n < texts.len() ==> T::error_of(texts[n]) is Some,
    ensures
        first_invalid::<T>(texts) == n,
    decreases texts.len(),
{
    if n > 0 {
        assert(T::error_of(texts[0]) is None);
        let rest = texts.drop_first();
        assert forall|i: int| 0 <= i < n - 1 implies T::error_of(#[trigger] rest[i]) is None by {
            assert(rest[i] == texts[i + 1]);
        }
        law_the_first_invalid_text_is_reported::<T>(rest, n - 1);
    }
}

/// Whether a text is a host: letters, digits, `-` and `.`, at least one.
pub open spec fn is_host(host: Seq<char>) -> bool {
    host.len() > 0 && forall|i: int| 0 <= i < host.len() ==> host_char(#[trigger] host[i])
}

/// An `@`, a localpart, a colon and a host make a user ID, with these parts,
/// whatever the localpart holds but colons and NUL characters.
pub proof fn law_which_texts_are_user_ids(localpart: Seq<char>, host: Seq<char>)
    requires
        !localpart.contains(':'),
        !localpart.contains('\0'),
        is_host(host),
    ensures
        ({
            let id = seq!['@'] + localpart + seq![':'] + host;
            &&& <OwnedUserId as MatrixId>::error_of(id) is None
            &&& localpart_of(id) == localpart
            &&& after_colon(id) == host
        }),
{
    let id = seq!['@'] + localpart + seq![':'] + host;
    let n = localpart.len() as int + 1;
    assert(id[0] == '@');
    assert(id[n] == ':');
    assert forall|i: int| 0 <= i < n implies !text::equal_to(':')(#[trigger] id[i]) by {
        if i > 0 {
            assert(id[i] == localpart[i - 1]);
            assert(localpart.contains(localpart[i - 1]));
        }
    }
    text::lemma_first_index_unique(id, text::equal_to(':'), n);
    assert(localpart_of(id) =~= localpart);
    assert(after_colon(id) =~= host);
    lemma_hosts_are_servers(host);
}

/// A host alone is a server name.
proof fn lemma_hosts_are_servers(host: Seq<char>)
    requires
        is_host(host),
    ensures
        valid_server_name(host),
{
    assert(host_char(host[0]));
    assert(!host_char('[') && !host_char(':'));
    assert forall|i: int| 0 <= i < host.len() implies !text::equal_to(':')(#[trigger] host[i]) by {
        assert(host_char(host[i]));
    }
    text::lemma_first_index_unique(host, text::equal_to(':'), host.len() as int);
}

/// A text without the `@`, or without a colon, is no user ID; nor is one
/// with a NUL character in its localpart.
pub proof fn law_which_texts_are_no_user_ids(text: Seq<char>, c: char, rest: Seq<char>)
    ensures
        <OwnedUserId as MatrixId>::error_of(Seq::empty()) is Some,
        c != '@' ==> <OwnedUserId as MatrixId>::error_of(seq![c] + rest) is Some,
        !text.contains(':') ==> <OwnedUserId as MatrixId>::error_of(text) is Some,
        text::index_of_char(text, ':') > 0 && localpart_of(text).contains('\0')
            ==> <OwnedUserId as MatrixId>::error_of(text) is Some,
{
    assert((seq![c] + rest)[0] == c);
}

/// A text is a room ID if and only if it starts with `!` and holds no NUL
/// character.
pub proof fn law_which_texts_are_room_ids(c: char, rest: Seq<char>)
    ensures
        <OwnedRoomId as MatrixId>::error_of(seq!['!'] + rest) is None <==> !rest.contains('\0'),
        c != '!' ==> <OwnedRoomId as MatrixId>::error_of(seq![c] + rest) is Some,
        <OwnedRoomId as MatrixId>::error_of(Seq::empty()) is Some,
{
    let text = seq!['!'] + rest;
    assert((seq![c] + rest)[0] == c);
    if rest.contains('\0') {
        let i = choose|i: int| 0 <= i < rest.len() && rest[i] == '\0';
        assert(text[i + 1] == '\0');
    }
    if text.contains('\0') {
        let i = choose|i: int| 0 <= i < text.len() && text[i] == '\0';
        assert(rest[i - 1] == '\0');
    }
}

/// A room ID names the server that stands behind its first colon, if one
/// does.
pub proof fn law_the_server_of_a_room(name: Seq<char>, host: Seq<char>)
    requires
        !name.contains(':'),
        is_host(host),
    ensures
        room_server(name + seq![':'] + host) == Some(host),
        room_server(name) is None,
{
    let id = name + seq![':'] + host;
    let n = name.len() as int;
    assert(id[n] == ':');
    assert forall|i: int| 0 <= i < n implies !text::equal_to(':')(#[trigger] id[i]) by {
        assert(id[i] == name[i]);
        assert(name.contains(name[i]));
    }
    text::lemma_first_index_unique(id, text::equal_to(':'), n);
    assert(after_colon(id) =~= host);
    lemma_hosts_are_servers(host);
}

/// The texts of a list of identifiers are those of each identifier, in order.
pub proof fn law_identifiers_are_their_texts<T: MatrixId>(list: Seq<T>, i: int)
    ensures
        id_texts(list).len() == list.len(),
        0 <= i < list.len() ==> id_texts(list)[i] == list[i]@,
{
}

/// Where the first invalid text stands.
pub proof fn lemma_first_invalid<T: MatrixId>(texts: Seq<Seq<char>>)
    ensures
        0 <= first_invalid::<T>(texts) <= texts.len(),
        forall|i: int|
            0 <= i < first_invalid::<T>(texts) ==> T::error_of(#[trigger] texts[i]) is None,
        first_invalid::<T>(texts) < texts.len() ==> T::error_of(
            texts[first_invalid::<T>(texts)],
        ) is Some,
    decreases texts.len(),
{
    if texts.len() > 0 && T::error_of(texts[0]) is None {
        let rest = texts.drop_first();
        lemma_first_invalid::<T>(rest);
        assert forall|i: int| 0 <= i < first_invalid::<T>(texts) implies T::error_of(
            #[trigger] texts[i],
        ) is None by {
            if i > 0 {
                assert(rest[i - 1] == texts[i]);
            }
        }
    }
}

} // verus!
