//! The header store: header names mapped to values, filled from
//! `"Name: value"` lines and handed to the transport as its header map.

use vstd::prelude::*;
use vstd::string::*;

use reqwest::header::{HeaderMap, HeaderName, HeaderValue};

use crate::error::EchoError;
use crate::text::{find_char, same_text, trim, trimmed};

verus! {

#[verifier::external_type_specification]
#[verifier::external_body]
pub struct ExHeaderName(HeaderName);

#[verifier::external_type_specification]
#[verifier::external_body]
pub struct ExHeaderValue(HeaderValue);

#[verifier::external_type_specification]
#[verifier::external_body]
#[verifier::reject_recursive_types(T)]
pub struct ExHeaderMap<T>(HeaderMap<T>);

/// The name and value that a header line holds: the text before its first
/// `:` and the text after it, each trimmed; none without a `:`.
pub open spec fn header_parts(line: Seq<char>) -> Option<(Seq<char>, Seq<char>)> {
    match line.index_of_first(':') {
        Some(i) => Some((trimmed(line.take(i)), trimmed(line.skip(i + 1)))),
        None => None,
    }
}

/// The map that a sequence of name/value pairs describes; a later pair for
/// a name replaces an earlier one.
pub open spec fn pairs_map(s: Seq<(Seq<char>, Seq<char>)>) -> Map<Seq<char>, Seq<char>>
    decreases s.len(),
{
    if s.len() == 0 {
        Map::empty()
    } else {
        pairs_map(s.drop_last()).insert(s.last().0, s.last().1)
    }
}

/// No name occurs twice.
pub open spec fn names_distinct(s: Seq<(Seq<char>, Seq<char>)>) -> bool {
    forall|i: int, j: int| 0 <= i < j < s.len() ==> s[i].0 != s[j].0
}

/// `m` after the header lines of `lines` were inserted in order; a line
/// without a `:` changes nothing.
pub open spec fn with_lines(m: Map<Seq<char>, Seq<char>>, lines: Seq<Seq<char>>) -> Map<
    Seq<char>,
    Seq<char>,
>
    decreases lines.len(),
{
    if lines.len() == 0 {
        m
    } else {
        let before = with_lines(m, lines.drop_last());
        match header_parts(lines.last()) {
            Some((k, v)) => before.insert(k, v),
            None => before,
        }
    }
}

/// The position of the first line in `lines` that holds no `:`.
pub open spec fn first_malformed(lines: Seq<Seq<char>>) -> Option<int> {
    if exists|i: int| 0 <= i < lines.len() && header_parts(lines[i]) is None {
        Some(
            choose|i: int|
                0 <= i < lines.len() && header_parts(lines[i]) is None && forall|j: int|
                    0 <= j < i ==> header_parts(lines[j]) is Some,
        )
    } else {
        None
    }
}

/// A character that HTTP allows in a header name (a token character).
pub open spec fn is_token_char(c: char) -> bool {
    ||| ('a' <= c && c <= 'z')
    ||| ('A' <= c && c <= 'Z')
    ||| ('0' <= c && c <= '9')
    ||| c == '!' || c == '#' || c == '$' || c == '%' || c == '&' || c == '\''
    ||| c == '*' || c == '+' || c == '-' || c == '.' || c == '^' || c == '_'
    ||| c == '`' || c == '|' || c == '~'
}

/// A header name that the transport accepts: 1 to 65535 token characters.
pub open spec fn valid_header_name(s: Seq<char>) -> bool {
    &&& 0 < s.len() <= 65535
    &&& forall|i: int| 0 <= i < s.len() ==> is_token_char(#[trigger] s[i])
}

/// A character that HTTP allows in a header value: a tab, or anything but an
/// ASCII control character.
pub open spec fn is_value_char(c: char) -> bool {
    c == '\t' || (' ' <= c && c != '\u{7f}')
}

/// A header value that the transport accepts.
pub open spec fn valid_header_value(s: Seq<char>) -> bool {
    forall|i: int| 0 <= i < s.len() ==> is_value_char(#[trigger] s[i])
}

/// Every header of `m` can be encoded for the transport.
pub open spec fn all_encodable(m: Map<Seq<char>, Seq<char>>) -> bool {
    forall|k: Seq<char>|
        #[trigger] m.contains_key(k) ==> valid_header_name(k) && valid_header_value(m[k])
}

/// A header name in lower case: each ASCII capital letter replaced by its
/// small letter, every other character kept.
pub open spec fn ascii_lower(s: Seq<char>) -> Seq<char> {
    s.map_values(
        |c: char|
            if 'A' <= c && c <= 'Z' {
                ((c as u32) + 32) as char
            } else {
                c
            },
    )
}

/// The most entries a header map is relied on to take; a map of this size
/// or more may refuse one more.
pub const HEADER_MAP_LIMIT: usize = 6000;

/// The entries of a header map: each header name, in lower case, with its
/// value.
pub uninterp spec fn header_entries(m: HeaderMap) -> Map<Seq<char>, Seq<char>>;

/// The header name that `HeaderName::from_bytes` makes of `s`.
pub uninterp spec fn header_name_of(s: Seq<char>) -> HeaderName;

/// The header value that `HeaderValue::from_str` makes of `s`.
pub uninterp spec fn header_value_of(s: Seq<char>) -> HeaderValue;

/// Relies on `HeaderName::from_bytes`: it accepts exactly the non-empty names
/// of at most 65535 bytes whose every byte is a token character. A character
/// outside ASCII encodes to bytes of 128 and above, none of them a token
/// character, so over characters the rule reads as stated.
#[verifier::external_body]
fn header_name(s: &str) -> (r: Option<HeaderName>)
    ensures
        r is Some <==> valid_header_name(s@),
        r matches Some(n) ==> n == header_name_of(s@),
{
    HeaderName::from_bytes(s.as_bytes()).ok()
}

/// Relies on `HeaderValue::from_str`: it accepts exactly the strings whose
/// every byte is a tab, or at least 32 and not 127. A character outside ASCII
/// encodes to bytes of 128 and above, all accepted.
#[verifier::external_body]
fn header_value(s: &str) -> (r: Option<HeaderValue>)
    ensures
        r is Some <==> valid_header_value(s@),
        r matches Some(v) ==> v == header_value_of(s@),
{
    HeaderValue::from_str(s).ok()
}

/// No header entries.
pub open spec fn no_entries() -> Map<Seq<char>, Seq<char>> {
    Map::empty()
}

/// Relies on `HeaderMap::new`: a map without entries.
#[verifier::external_body]
fn empty_header_map() -> (r: HeaderMap)
    ensures
        header_entries(r) == no_entries(),
{
    HeaderMap::new()
}

/// Relies on `HeaderMap::try_insert`; tells whether the entry went in. On
/// success the entry replaces any other under the same name: names compare in
/// lower case, which is how `HeaderName::from_bytes` stores them. It fails only
/// when the map would have to grow past its largest table (32768 slots),
/// which needs at least 6554 entries.
#[verifier::external_body]
fn header_map_insert(m: &mut HeaderMap, name: HeaderName, value: HeaderValue) -> (r: bool)
    ensures
        r ==> forall|s: Seq<char>, t: Seq<char>|
            valid_header_name(s) && valid_header_value(t) && name == #[trigger] header_name_of(s)
                && value == #[trigger] header_value_of(t) ==> header_entries(*final(m))
                == header_entries(*old(m)).insert(ascii_lower(s), t),
        !r ==> header_entries(*final(m)) == header_entries(*old(m)),
        header_entries(*old(m)).len() < HEADER_MAP_LIMIT ==> r,
{
    m.try_insert(name, value).is_ok()
}

/// The pairs of `s` with their names in lower case.
pub open spec fn lowered(s: Seq<(Seq<char>, Seq<char>)>) -> Seq<(Seq<char>, Seq<char>)> {
    s.map_values(|p: (Seq<char>, Seq<char>)| (ascii_lower(p.0), p.1))
}

/// The entries of a header map hold the headers of `h`: each name of `h`, in
/// lower case, with the value of a name of `h` that is the same in lower
/// case; and nothing else.
pub open spec fn carries(entries: Map<Seq<char>, Seq<char>>, h: Map<Seq<char>, Seq<char>>) -> bool {
    &&& forall|k: Seq<char>|
        #[trigger] h.contains_key(k) ==> entries.contains_key(ascii_lower(k)) && exists|
            k2: Seq<char>,
        |
            h.contains_key(k2) && ascii_lower(k2) == ascii_lower(k) && entries[ascii_lower(k)]
                == h[k2]
    &&& forall|l: Seq<char>|
        #[trigger] entries.contains_key(l) ==> exists|k: Seq<char>|
            h.contains_key(k) && ascii_lower(k) == l
}

/// Splits a header line at its first `:` into a trimmed name and value.
pub fn split_header(line: &str) -> (r: Option<(String, String)>)
    ensures
        match header_parts(line@) {
            Some((k, v)) => r matches Some(p) && p.0@ == k && p.1@ == v,
            None => r is None,
        },
{
    match find_char(line, ':') {
        None => None,
        Some(i) => {
            let n = line.unicode_len();
            let name = trim(line.substring_char(0, i));
            let value = trim(line.substring_char(i + 1, n));
            assert(line@.subrange(0, i as int) =~= line@.take(i as int));
            assert(line@.subrange(i + 1, n as int) =~= line@.skip(i + 1));
            Some((String::from_str(name), String::from_str(value)))
        },
    }
}

/// A pair sequence that ends with one more pair maps its name to its value.
proof fn lemma_pairs_map_push(s: Seq<(Seq<char>, Seq<char>)>, p: (Seq<char>, Seq<char>))
    ensures
        pairs_map(s.push(p)) == pairs_map(s).insert(p.0, p.1),
{
    assert(s.push(p).drop_last() =~= s);
}

/// The names that a pair sequence maps are those that occur in it.
proof fn lemma_pairs_map_keys(s: Seq<(Seq<char>, Seq<char>)>, k: Seq<char>)
    ensures
        pairs_map(s).contains_key(k) <==> exists|i: int| 0 <= i < s.len() && s[i].0 == k,
    decreases s.len(),
{
    if s.len() > 0 {
        lemma_pairs_map_keys(s.drop_last(), k);
        if pairs_map(s.drop_last()).contains_key(k) {
            let i = choose|i: int| 0 <= i < s.drop_last().len() && s.drop_last()[i].0 == k;
            assert(s[i].0 == k);
        }
        if exists|i: int| 0 <= i < s.len() && s[i].0 == k {
            let i = choose|i: int| 0 <= i < s.len() && s[i].0 == k;
            if i < s.len() - 1 {
                assert(s.drop_last()[i].0 == k);
            }
        }
    }
}

/// With distinct names, a pair sequence maps each name to the value beside it.
proof fn lemma_pairs_map_at(s: Seq<(Seq<char>, Seq<char>)>, i: int)
    requires
        names_distinct(s),
        0 <= i < s.len(),
    ensures
        pairs_map(s).contains_key(s[i].0),
        pairs_map(s)[s[i].0] == s[i].1,
    decreases s.len(),
{
    if i < s.len() - 1 {
        lemma_pairs_map_at(s.drop_last(), i);
    }
}

/// With distinct names, replacing the value of one pair replaces it in the map.
proof fn lemma_pairs_map_update(s: Seq<(Seq<char>, Seq<char>)>, i: int, v: Seq<char>)
    requires
        names_distinct(s),
        0 <= i < s.len(),
    ensures
        pairs_map(s.update(i, (s[i].0, v))) == pairs_map(s).insert(s[i].0, v),
    decreases s.len(),
{
    let t = s.update(i, (s[i].0, v));
    if i == s.len() - 1 {
        assert(t.drop_last() =~= s.drop_last());
        assert(pairs_map(t) =~= pairs_map(s).insert(s[i].0, v));
    } else {
        assert(t.drop_last() =~= s.drop_last().update(i, (s[i].0, v)));
        lemma_pairs_map_update(s.drop_last(), i, v);
        assert(pairs_map(t) =~= pairs_map(s).insert(s[i].0, v));
    }
}

/// With distinct names, a pair sequence maps as many names as it holds pairs.
proof fn lemma_pairs_map_len(s: Seq<(Seq<char>, Seq<char>)>)
    requires
        names_distinct(s),
    ensures
        pairs_map(s).dom().finite(),
        pairs_map(s).len() == s.len(),
    decreases s.len(),
{
    if s.len() > 0 {
        let t = s.drop_last();
        lemma_pairs_map_len(t);
        lemma_pairs_map_keys(t, s.last().0);
        assert(!pairs_map(t).contains_key(s.last().0)) by {
            if pairs_map(t).contains_key(s.last().0) {
                let i = choose|i: int| 0 <= i < t.len() && t[i].0 == s.last().0;
                assert(s[i].0 == s[s.len() - 1].0);
            }
        }
    }
}

/// A name that a pair sequence maps is mapped to the value of one of its
/// pairs with that name.
proof fn lemma_pairs_map_value(s: Seq<(Seq<char>, Seq<char>)>, k: Seq<char>)
    requires
        pairs_map(s).contains_key(k),
    ensures
        exists|j: int| 0 <= j < s.len() && s[j].0 == k && pairs_map(s)[k] == s[j].1,
    decreases s.len(),
{
    if s.last().0 == k {
        assert(s[s.len() - 1].0 == k);
    } else {
        lemma_pairs_map_value(s.drop_last(), k);
        let j = choose|j: int|
            0 <= j < s.drop_last().len() && s.drop_last()[j].0 == k && pairs_map(s.drop_last())[k]
                == s.drop_last()[j].1;
        assert(s[j].0 == k);
    }
}

/// A pair sequence maps finitely many names, no more than it holds pairs.
proof fn lemma_pairs_map_len_le(s: Seq<(Seq<char>, Seq<char>)>)
    ensures
        pairs_map(s).dom().finite(),
        pairs_map(s).len() <= s.len(),
    decreases s.len(),
{
    if s.len() > 0 {
        lemma_pairs_map_len_le(s.drop_last());
    }
}

/// A header store: each name maps to one value.
#[derive(Debug)]
pub struct Headers {
    entries: Vec<(String, String)>,
}

impl View for Headers {
    type V = Map<Seq<char>, Seq<char>>;

    closed spec fn view(&self) -> Map<Seq<char>, Seq<char>> {
        pairs_map(self.pairs())
    }
}

impl Clone for Headers {
    fn clone(&self) -> (r: Headers)
        ensures
            r@ == self@,
    {
        proof {
            use_type_invariant(self);
        }
        let n = self.entries.len();
        let mut entries: Vec<(String, String)> = Vec::new();
        let mut i: usize = 0;
        while i < n
            invariant
                n == self.entries@.len(),
                i <= n,
                entries@.map_values(|e: (String, String)| (e.0@, e.1@)) == self.pairs().take(
                    i as int,
                ),
            decreases n - i,
        {
            let k = self.entries[i].0.clone();
            let v = self.entries[i].1.clone();
            let ghost before = entries@.map_values(|e: (String, String)| (e.0@, e.1@));
            entries.push((k, v));
            assert(entries@.map_values(|e: (String, String)| (e.0@, e.1@)) =~= before.push(
                self.pairs()[i as int],
            ));
            assert(self.pairs().take(i + 1) =~= self.pairs().take(i as int).push(
                self.pairs()[i as int],
            ));
            i = i + 1;
        }
        assert(self.pairs().take(n as int) =~= self.pairs());
        let r = Headers { entries };
        assert(r.pairs() == self.pairs());
        r
    }
}

impl PartialEq for Headers {
    /// Whether the two stores map the same names to the same values.
    fn eq(&self, other: &Headers) -> (r: bool)
        ensures
            r == (self@ == other@),
    {
        proof {
            use_type_invariant(self);
            use_type_invariant(other);
            lemma_pairs_map_len(self.pairs());
            lemma_pairs_map_len(other.pairs());
        }
        let n = self.entries.len();
        if n != other.entries.len() {
            return false;
        }
        let mut i: usize = 0;
        while i < n
            invariant
                n == self.entries@.len(),
                n == other.entries@.len(),
                i <= n,
                names_distinct(self.pairs()),
                names_distinct(other.pairs()),
                forall|j: int|
                    0 <= j < i ==> other@.contains_key(#[trigger] self.pairs()[j].0)
                        && other@[self.pairs()[j].0] == self.pairs()[j].1,
            decreases n - i,
        {
            assert(self.pairs()[i as int] == (self.entries@[i as int].0@, self.entries@[i as int].1@));
            match other.get(self.entries[i].0.as_str()) {
                Some(w) => {
                    if !same_text(w.as_str(), self.entries[i].1.as_str()) {
                        proof {
                            lemma_pairs_map_at(self.pairs(), i as int);
                        }
                        return false;
                    }
                },
                None => {
                    proof {
                        lemma_pairs_map_at(self.pairs(), i as int);
                    }
                    return false;
                },
            }
            i = i + 1;
        }
        proof {
            assert forall|k: Seq<char>| #[trigger] self@.contains_key(k) implies other@.contains_key(
                k,
            ) && other@[k] == self@[k] by {
                lemma_pairs_map_keys(self.pairs(), k);
                let j = choose|j: int| 0 <= j < self.pairs().len() && self.pairs()[j].0 == k;
                lemma_pairs_map_at(self.pairs(), j);
            }
            assert(self@.dom().subset_of(other@.dom()));
            vstd::set_lib::lemma_subset_equality(self@.dom(), other@.dom());
            assert(self@ =~= other@);
        }
        true
    }
}

impl vstd::std_specs::cmp::PartialEqSpecImpl for Headers {
    open spec fn obeys_eq_spec() -> bool {
        true
    }

    open spec fn eq_spec(&self, other: &Headers) -> bool {
        self@ == other@
    }
}

impl Default for Headers {
    fn default() -> (r: Headers)
        ensures
            r@ == Map::<Seq<char>, Seq<char>>::empty(),
    {
        Headers::new()
    }
}

impl Headers {
    /// The stored names and values, in the order they were first stored.
    pub closed spec fn pairs(&self) -> Seq<(Seq<char>, Seq<char>)> {
        self.entries@.map_values(|e: (String, String)| (e.0@, e.1@))
    }

    /// The store holds each name once.
    #[verifier::type_invariant]
    pub closed spec fn wf(&self) -> bool {
        names_distinct(self.pairs())
    }

    /// An empty store.
    pub fn new() -> (r: Headers)
        ensures
            r@ == Map::<Seq<char>, Seq<char>>::empty(),
    {
        let r = Headers { entries: Vec::new() };
        assert(r.pairs() =~= Seq::<(Seq<char>, Seq<char>)>::empty());
        r
    }

    /// The number of stored headers.
    pub fn len(&self) -> (r: usize)
        ensures
            r == self@.len(),
    {
        proof {
            use_type_invariant(self);
            lemma_pairs_map_len(self.pairs());
        }
        self.entries.len()
    }

    /// The position of the entry named `key`, if there is one.
    fn position(&self, key: &str) -> (r: Option<usize>)
        ensures
            match r {
                Some(i) => i < self.entries@.len() && self.pairs()[i as int].0 == key@,
                None => !self@.contains_key(key@),
            },
    {
        proof {
            use_type_invariant(&*self);
        }
        let n = self.entries.len();
        let mut i: usize = 0;
        while i < n
            invariant
                n == self.entries@.len(),
                i <= n,
                forall|j: int| 0 <= j < i ==> self.pairs()[j].0 != key@,
            decreases n - i,
        {
            if same_text(self.entries[i].0.as_str(), key) {
                return Some(i);
            }
            i = i + 1;
        }
        proof {
            lemma_pairs_map_keys(self.pairs(), key@);
        }
        None
    }

    /// The value stored under `key`.
    pub fn get(&self, key: &str) -> (r: Option<&String>)
        ensures
            match r {
                Some(v) => self@.contains_key(key@) && v@ == self@[key@],
                None => !self@.contains_key(key@),
            },
    {
        proof {
            use_type_invariant(self);
        }
        match self.position(key) {
            Some(i) => {
                proof {
                    lemma_pairs_map_at(self.pairs(), i as int);
                }
                Some(&self.entries[i].1)
            },
            None => None,
        }
    }

    /// Stores `value` under `key`, replacing any earlier value.
    fn put(&mut self, key: String, value: String)
        ensures
            final(self)@ == old(self)@.insert(key@, value@),
    {
        proof {
            use_type_invariant(&*self);
        }
        match self.position(key.as_str()) {
            Some(i) => {
                proof {
                    lemma_pairs_map_update(self.pairs(), i as int, value@);
                }
                let ghost k = key@;
                let ghost v = value@;
                let ghost before = self.pairs();
                let mut entries: Vec<(String, String)> = Vec::new();
                std::mem::swap(&mut entries, &mut self.entries);
                entries.set(i, (key, value));
                assert(entries@.map_values(|e: (String, String)| (e.0@, e.1@)) =~= before.update(
                    i as int,
                    (k, v),
                ));
                std::mem::swap(&mut entries, &mut self.entries);
                assert(self.pairs() =~= old(self).pairs().update(i as int, (k, v)));
            },
            None => {
                proof {
                    lemma_pairs_map_keys(self.pairs(), key@);
                    lemma_pairs_map_push(self.pairs(), (key@, value@));
                }
                let ghost p = (key@, value@);
                let ghost before = self.pairs();
                let mut entries: Vec<(String, String)> = Vec::new();
                std::mem::swap(&mut entries, &mut self.entries);
                entries.push((key, value));
                assert(entries@.map_values(|e: (String, String)| (e.0@, e.1@)) =~= before.push(p));
                std::mem::swap(&mut entries, &mut self.entries);
                assert(self.pairs() =~= old(self).pairs().push(p));
            },
        }
    }

    /// Inserts the header that a `"Name: value"` line holds, splitting it at
    /// its first `:` and trimming both parts; a line without a `:` is
    /// refused and leaves the store as it was.
    pub fn insert(&mut self, header: &str) -> (r: Result<(), EchoError>)
        ensures
            match header_parts(header@) {
                Some((k, v)) => r is Ok && final(self)@ == old(self)@.insert(k, v),
                None => (r matches Err(EchoError::MalformedHeader(line)) && line@ == header@)
                    && final(self)@ == old(self)@,
            },
    {
        match split_header(header) {
            Some((key, value)) => {
                self.put(key, value);
                Ok(())
            },
            None => Err(EchoError::MalformedHeader(String::from_str(header))),
        }
    }

    /// Inserts the header lines of `headers` in order, stopping at the first
    /// line without a `:`, which the error carries; the lines before it stay
    /// inserted.
    pub fn insert_many(&mut self, headers: Vec<&str>) -> (r: Result<(), EchoError>)
        ensures
            ({
                let lines = headers@.map_values(|h: &str| h@);
                match first_malformed(lines) {
                    None => r is Ok && final(self)@ == with_lines(old(self)@, lines),
                    Some(i) => (r matches Err(EchoError::MalformedHeader(line)) && line@
                        == lines[i]) && final(self)@ == with_lines(old(self)@, lines.take(i)),
                }
            }),
    {
        let ghost lines = headers@.map_values(|h: &str| h@);
        let n = headers.len();
        let mut i: usize = 0;
        assert(lines.take(0) =~= Seq::<Seq<char>>::empty());
        while i < n
            invariant
                n == headers@.len(),
                lines == headers@.map_values(|h: &str| h@),
                i <= n,
                self@ == with_lines(old(self)@, lines.take(i as int)),
                forall|j: int| 0 <= j < i ==> header_parts(#[trigger] lines[j]) is Some,
            decreases n - i,
        {
            let line = headers[i];
            let res = self.insert(line);
            assert(lines.take(i + 1).drop_last() =~= lines.take(i as int));
            match res {
                Ok(()) => {},
                Err(e) => {
                    proof {
                        assert(header_parts(lines[i as int]) is None);
                        let k = choose|k: int|
                            0 <= k < lines.len() && header_parts(lines[k]) is None && forall|j: int|
                                0 <= j < k ==> header_parts(lines[j]) is Some;
                        assert(k == i);
                    }
                    return Err(e);
                },
            }
            i = i + 1;
        }
        assert(lines.take(n as int) =~= lines);
        Ok(())
    }

    /// The store as the transport's header map, every name in lower case. A
    /// header whose name or value the transport cannot encode makes it fail,
    /// naming that header; so may a store of `HEADER_MAP_LIMIT` headers or
    /// more, which the map may refuse to hold.
    pub fn to_header_map(&self) -> (r: Result<HeaderMap, EchoError>)
        ensures
            r is Ok ==> all_encodable(self@),
            all_encodable(self@) && self@.len() < HEADER_MAP_LIMIT ==> r is Ok,
            r matches Ok(m) ==> carries(header_entries(m), self@),
            r matches Err(EchoError::InvalidHeaderValue(k)) ==> self@.contains_key(k@) && !(
            valid_header_name(k@) && valid_header_value(self@[k@])),
            !all_encodable(self@) && self@.len() < HEADER_MAP_LIMIT ==> r matches Err(
                EchoError::InvalidHeaderValue(_),
            ),
            r is Err ==> (r matches Err(EchoError::InvalidHeaderValue(_)) || r matches Err(
                EchoError::TooManyHeaders,
            )),
            r matches Err(EchoError::TooManyHeaders) ==> self@.len() >= HEADER_MAP_LIMIT,
    {
        proof {
            use_type_invariant(self);
            lemma_pairs_map_len(self.pairs());
        }
        let n = self.entries.len();
        let mut map = empty_header_map();
        let mut i: usize = 0;
        assert(lowered(self.pairs().take(0)) =~= Seq::<(Seq<char>, Seq<char>)>::empty());
        while i < n
            invariant
                n == self.entries@.len(),
                n == self@.len(),
                i <= n,
                names_distinct(self.pairs()),
                forall|j: int|
                    0 <= j < i ==> valid_header_name(#[trigger] self.pairs()[j].0)
                        && valid_header_value(self.pairs()[j].1),
                header_entries(map) == pairs_map(lowered(self.pairs().take(i as int))),
            decreases n - i,
        {
            assert(self.pairs()[i as int] == (self.entries@[i as int].0@, self.entries@[i as int].1@));
            let key = self.entries[i].0.as_str();
            let name = match header_name(key) {
                Some(name) => name,
                None => {
                    proof {
                        lemma_pairs_map_at(self.pairs(), i as int);
                    }
                    return Err(EchoError::InvalidHeaderValue(self.entries[i].0.clone()));
                },
            };
            let value = match header_value(self.entries[i].1.as_str()) {
                Some(value) => value,
                None => {
                    proof {
                        lemma_pairs_map_at(self.pairs(), i as int);
                    }
                    return Err(EchoError::InvalidHeaderValue(self.entries[i].0.clone()));
                },
            };
            let ghost before = header_entries(map);
            proof {
                lemma_pairs_map_len_le(lowered(self.pairs().take(i as int)));
            }
            let inserted = header_map_insert(&mut map, name, value);
            if !inserted {
                return Err(EchoError::TooManyHeaders);
            }
            proof {
                let p = self.pairs()[i as int];
                assert(header_entries(map) == before.insert(ascii_lower(p.0), p.1));
                assert(lowered(self.pairs().take(i + 1)) =~= lowered(self.pairs().take(i as int)).push(
                    (ascii_lower(p.0), p.1),
                ));
                lemma_pairs_map_push(lowered(self.pairs().take(i as int)), (ascii_lower(p.0), p.1));
            }
            i = i + 1;
        }
        proof {
            let ps = self.pairs();
            let lw = lowered(ps);
            assert(ps.take(n as int) =~= ps);
            assert forall|k: Seq<char>| #[trigger] self@.contains_key(k) implies valid_header_name(k)
                && valid_header_value(self@[k]) by {
                lemma_pairs_map_keys(ps, k);
                let j = choose|j: int| 0 <= j < ps.len() && ps[j].0 == k;
                lemma_pairs_map_at(ps, j);
            }
            assert forall|k: Seq<char>| #[trigger] self@.contains_key(k) implies header_entries(
                map,
            ).contains_key(ascii_lower(k)) && exists|k2: Seq<char>|
                self@.contains_key(k2) && ascii_lower(k2) == ascii_lower(k) && header_entries(
                    map,
                )[ascii_lower(k)] == self@[k2] by {
                lemma_pairs_map_keys(ps, k);
                let i0 = choose|j: int| 0 <= j < ps.len() && ps[j].0 == k;
                assert(lw[i0].0 == ascii_lower(k));
                lemma_pairs_map_keys(lw, ascii_lower(k));
                lemma_pairs_map_value(lw, ascii_lower(k));
                let j = choose|j: int|
                    0 <= j < lw.len() && lw[j].0 == ascii_lower(k) && pairs_map(lw)[ascii_lower(k)]
                        == lw[j].1;
                lemma_pairs_map_at(ps, j);
                let k2 = ps[j].0;
                assert(self@.contains_key(k2) && ascii_lower(k2) == ascii_lower(k)
                    && header_entries(map)[ascii_lower(k)] == self@[k2]);
            }
            assert forall|l: Seq<char>| #[trigger] header_entries(map).contains_key(l) implies exists|
                k: Seq<char>,
            | self@.contains_key(k) && ascii_lower(k) == l by {
                lemma_pairs_map_keys(lw, l);
                let j = choose|j: int| 0 <= j < lw.len() && lw[j].0 == l;
                lemma_pairs_map_at(ps, j);
                assert(self@.contains_key(ps[j].0));
            }
        }
        Ok(map)
    }
}

} // verus!
