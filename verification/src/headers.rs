//! Header sets: a mapping from header name to value in which names are
//! compared without regard to ASCII case and a later write to a name replaces
//! the earlier one.
//!
//! Names are stored in canonical (lower-case) form. Canonical names and the
//! check of values come from the HTTP library that sends the request, so a
//! header set that exists here is one that the library will accept.

use vstd::prelude::*;

verus! {

/// The longest header name, in characters, that is accepted.
pub const MAX_NAME_LEN: usize = 65535;

/// The characters that may occur in a header name.
pub open spec fn is_token_char(c: char) -> bool {
    ||| ('a' <= c && c <= 'z')
    ||| ('A' <= c && c <= 'Z')
    ||| ('0' <= c && c <= '9')
    ||| c == '!'
    ||| c == '#'
    ||| c == '$'
    ||| c == '%'
    ||| c == '&'
    ||| c == '\''
    ||| c == '*'
    ||| c == '+'
    ||| c == '-'
    ||| c == '.'
    ||| c == '^'
    ||| c == '_'
    ||| c == '`'
    ||| c == '|'
    ||| c == '~'
}

/// `c` with an ASCII capital letter turned into its small letter.
pub open spec fn ascii_lower(c: char) -> char {
    if 'A' <= c && c <= 'Z' {
        ((c as int) + 32) as char
    } else {
        c
    }
}

/// `name` with every ASCII capital letter turned into its small letter.
pub open spec fn lowered(name: Seq<char>) -> Seq<char> {
    Seq::new(name.len(), |i: int| ascii_lower(name[i]))
}

/// Whether `name` can be a header name: not empty, not too long, and made of
/// token characters only.
pub open spec fn is_valid_name(name: Seq<char>) -> bool {
    &&& 1 <= name.len() <= MAX_NAME_LEN
    &&& forall|i: int| 0 <= i < name.len() ==> is_token_char(#[trigger] name[i])
}

/// The form under which a header name is stored and compared: its lower-case
/// spelling, or `None` where `name` is no header name.
pub open spec fn canonical_name(name: Seq<char>) -> Option<Seq<char>> {
    if is_valid_name(name) {
        Some(lowered(name))
    } else {
        None
    }
}

/// Whether `c` may occur in a header value: a tab, or any character from the
/// space on except DEL.
pub open spec fn is_value_char(c: char) -> bool {
    c == '\t' || (' ' <= c && c != '\x7f')
}

/// Whether `value` can be a header value.
pub open spec fn is_valid_value(value: Seq<char>) -> bool {
    forall|i: int| 0 <= i < value.len() ==> is_value_char(#[trigger] value[i])
}

/// The mapping that a list of name-value pairs denotes: a later pair
/// replaces an earlier one of the same name.
pub open spec fn pairs_map(pairs: Seq<(String, String)>) -> Map<Seq<char>, Seq<char>>
    decreases pairs.len(),
{
    if pairs.len() == 0 {
        Map::empty()
    } else {
        pairs_map(pairs.drop_last()).insert(pairs.last().0@, pairs.last().1@)
    }
}

/// No name occurs twice in `pairs`.
pub open spec fn distinct_names(pairs: Seq<(String, String)>) -> bool {
    forall|i: int, j: int|
        0 <= i < j < pairs.len() ==> (#[trigger] pairs[i]).0@ != (#[trigger] pairs[j]).0@
}

/// Every name in `pairs` is in canonical form and every value is valid.
pub open spec fn canonical_pairs(pairs: Seq<(String, String)>) -> bool {
    forall|i: int|
        0 <= i < pairs.len() ==> {
            &&& canonical_name((#[trigger] pairs[i]).0@) == Some(pairs[i].0@)
            &&& is_valid_value(pairs[i].1@)
        }
}

/// A header set is well formed when it is finite, its names are canonical and
/// its values valid.
pub open spec fn header_set_wf(set: Map<Seq<char>, Seq<char>>) -> bool {
    &&& set.dom().finite()
    &&& forall|name: Seq<char>| #[trigger]
        set.contains_key(name) ==> canonical_name(name) == Some(name) && is_valid_value(set[name])
}

/// Why a header was refused.
#[derive(Clone, Copy, Debug, PartialEq, Eq, Structural)]
pub enum HeaderError {
    /// The name is empty, too long, or holds a character that is no token
    /// character.
    InvalidName,
    /// The value holds a control character other than a tab.
    InvalidValue,
}

/// Calls `HeaderName::from_bytes` of the HTTP library on the bytes of `name`
/// and returns the text of the resulting header name.
///
/// Trusted: the library accepts exactly the names of 1 to 65535 bytes that are
/// made of token characters, and the name it builds spells the input with
/// ASCII capitals turned into small letters.
#[verifier::external_body]
fn parse_header_name(name: &str) -> (parsed: Option<String>)
    ensures
        match parsed {
            Some(text) => canonical_name(name@) == Some(text@),
            None => canonical_name(name@) is None,
        },
{
    match reqwest::header::HeaderName::from_bytes(name.as_bytes()) {
        Ok(header_name) => Some(header_name.as_str().to_string()),
        Err(_) => None,
    }
}

/// Calls `HeaderValue::from_str` of the HTTP library on `value` and tells
/// whether it was accepted.
///
/// Trusted: the library accepts exactly the strings whose every byte is a
/// tab, or is at least 32 and not 127. A character outside ASCII is encoded
/// in bytes of 128 and above, so it is accepted.
#[verifier::external_body]
fn header_value_accepted(value: &str) -> (accepted: bool)
    ensures
        accepted == is_valid_value(value@),
{
    reqwest::header::HeaderValue::from_str(value).is_ok()
}

/// The map of `pairs` has exactly the names of `pairs` as its keys.
proof fn lemma_pairs_map_dom(pairs: Seq<(String, String)>)
    ensures
        pairs_map(pairs).dom().finite(),
        forall|name: Seq<char>| #[trigger]
            pairs_map(pairs).contains_key(name) <==> exists|i: int|
                0 <= i < pairs.len() && (#[trigger] pairs[i]).0@ == name,
    decreases pairs.len(),
{
    if pairs.len() > 0 {
        let front = pairs.drop_last();
        lemma_pairs_map_dom(front);
        assert forall|name: Seq<char>| #[trigger]
            pairs_map(pairs).contains_key(name) implies exists|i: int|
            0 <= i < pairs.len() && (#[trigger] pairs[i]).0@ == name by {
            if name == pairs.last().0@ {
                assert(pairs[pairs.len() - 1].0@ == name);
            } else {
                assert(pairs_map(front).contains_key(name));
                let i = choose|i: int| 0 <= i < front.len() && (#[trigger] front[i]).0@ == name;
                assert(pairs[i].0@ == name);
            }
        }
        assert forall|name: Seq<char>|
            (exists|i: int|
                0 <= i < pairs.len() && (#[trigger] pairs[i]).0@ == name) implies #[trigger]
            pairs_map(pairs).contains_key(name) by {
            let i = choose|i: int| 0 <= i < pairs.len() && (#[trigger] pairs[i]).0@ == name;
            if i < pairs.len() - 1 {
                assert(front[i].0@ == name);
            }
        }
    }
}

/// Where names are distinct, the map of `pairs` gives each name the value
/// that stands beside it.
proof fn lemma_pairs_map_lookup(pairs: Seq<(String, String)>, i: int)
    requires
        distinct_names(pairs),
        0 <= i < pairs.len(),
    ensures
        pairs_map(pairs).contains_key(pairs[i].0@),
        pairs_map(pairs)[pairs[i].0@] == pairs[i].1@,
    decreases pairs.len(),
{
    let front = pairs.drop_last();
    if i < pairs.len() - 1 {
        assert(front[i] == pairs[i]);
        assert(distinct_names(front)) by {
            assert forall|a: int, b: int| 0 <= a < b < front.len() implies (#[trigger] front[a]).0@
                != (#[trigger] front[b]).0@ by {
                assert(front[a] == pairs[a] && front[b] == pairs[b]);
            }
        }
        lemma_pairs_map_lookup(front, i);
        assert(pairs[i].0@ != pairs[pairs.len() - 1].0@);
    }
}

/// Replacing the pair of a name in place gives the map with that name
/// rewritten.
proof fn lemma_pairs_map_update(pairs: Seq<(String, String)>, i: int, pair: (String, String))
    requires
        distinct_names(pairs),
        0 <= i < pairs.len(),
        pairs[i].0@ == pair.0@,
    ensures
        distinct_names(pairs.update(i, pair)),
        pairs_map(pairs.update(i, pair)) == pairs_map(pairs).insert(pair.0@, pair.1@),
    decreases pairs.len(),
{
    let updated = pairs.update(i, pair);
    assert(distinct_names(updated)) by {
        assert forall|a: int, b: int| 0 <= a < b < updated.len() implies (#[trigger] updated[a]).0@
            != (#[trigger] updated[b]).0@ by {
            assert(updated[a].0@ == pairs[a].0@);
            assert(updated[b].0@ == pairs[b].0@);
        }
    }
    let front = pairs.drop_last();
    if i == pairs.len() - 1 {
        assert(updated.drop_last() == front);
        assert(pairs_map(updated) == pairs_map(pairs).insert(pair.0@, pair.1@));
    } else {
        assert(distinct_names(front)) by {
            assert forall|a: int, b: int| 0 <= a < b < front.len() implies (#[trigger] front[a]).0@
                != (#[trigger] front[b]).0@ by {
                assert(front[a] == pairs[a] && front[b] == pairs[b]);
            }
        }
        assert(front[i] == pairs[i]);
        lemma_pairs_map_update(front, i, pair);
        assert(updated.drop_last() == front.update(i, pair));
        assert(updated.last() == pairs.last());
        assert(pairs[i].0@ != pairs[pairs.len() - 1].0@);
        assert(pairs_map(updated) == pairs_map(pairs).insert(pair.0@, pair.1@));
    }
}

/// A canonical name is its own canonical form.
pub proof fn lemma_canonical_name_idempotent(name: Seq<char>)
    requires
        canonical_name(name) is Some,
    ensures
        canonical_name(canonical_name(name)->0) == canonical_name(name),
{
    let low = lowered(name);
    assert forall|i: int| 0 <= i < low.len() implies is_token_char(#[trigger] low[i])
        && ascii_lower(low[i]) == low[i] by {
        assert(is_token_char(name[i]));
        lemma_ascii_lower(name[i]);
    }
    assert(lowered(low) == low);
}

/// Turning a capital into its small letter neither makes nor unmakes a token
/// character, and a second turn changes nothing.
proof fn lemma_ascii_lower(c: char)
    ensures
        is_token_char(ascii_lower(c)) == is_token_char(c),
        ascii_lower(ascii_lower(c)) == ascii_lower(c),
{
    if 'A' <= c && c <= 'Z' {
        let low = ascii_lower(c);
        assert('a' <= low && low <= 'z');
    }
}

/// Header names are compared without regard to ASCII case: two spellings
/// that differ only in the case of their letters have the same canonical
/// form.
pub proof fn lemma_canonical_name_ignores_case(a: Seq<char>, b: Seq<char>)
    requires
        lowered(a) == lowered(b),
    ensures
        canonical_name(a) == canonical_name(b),
{
    assert(a.len() == lowered(a).len());
    assert(b.len() == lowered(b).len());
    assert forall|i: int| 0 <= i < a.len() implies is_token_char(a[i]) == is_token_char(
        b[i],
    ) by {
        assert(lowered(a)[i] == ascii_lower(a[i]));
        assert(lowered(b)[i] == ascii_lower(b[i]));
        lemma_ascii_lower(a[i]);
        lemma_ascii_lower(b[i]);
    }
    if is_valid_name(a) {
        assert forall|i: int| 0 <= i < b.len() implies is_token_char(#[trigger] b[i]) by {
            assert(is_token_char(a[i]));
        }
    }
    if is_valid_name(b) {
        assert forall|i: int| 0 <= i < a.len() implies is_token_char(#[trigger] a[i]) by {
            assert(is_token_char(b[i]));
        }
    }
}

/// Laying `extra` over `base` keeps every header of `extra`, keeps of `base`
/// what `extra` does not name, and adds nothing else. The outcome is a well
/// formed header set where both are.
pub proof fn lemma_merge_prefers_extra(
    base: Map<Seq<char>, Seq<char>>,
    extra: Map<Seq<char>, Seq<char>>,
)
    requires
        header_set_wf(base),
        header_set_wf(extra),
    ensures
        header_set_wf(base.union_prefer_right(extra)),
        forall|name: Seq<char>| #[trigger]
            extra.contains_key(name) ==> base.union_prefer_right(extra)[name] == extra[name],
        forall|name: Seq<char>|
            base.contains_key(name) && !extra.contains_key(name) ==> #[trigger] base.union_prefer_right(
                extra,
            )[name] == base[name],
        forall|name: Seq<char>| #[trigger]
            base.union_prefer_right(extra).contains_key(name) <==> base.contains_key(name)
                || extra.contains_key(name),
{
    assert(base.union_prefer_right(extra).dom() =~= base.dom().union(extra.dom()));
    vstd::set::axiom_set_union_finite(base.dom(), extra.dom());
}

/// A later write to a header replaces an earlier one, whatever the case in
/// which the two spell the name.
pub proof fn lemma_last_write_wins(
    set: Map<Seq<char>, Seq<char>>,
    first_name: Seq<char>,
    first_value: Seq<char>,
    second_name: Seq<char>,
    second_value: Seq<char>,
)
    requires
        canonical_name(first_name) is Some,
        lowered(first_name) == lowered(second_name),
    ensures
        canonical_name(second_name) == canonical_name(first_name),
        set.insert(canonical_name(first_name)->0, first_value).insert(
            canonical_name(second_name)->0,
            second_value,
        ) == set.insert(canonical_name(second_name)->0, second_value),
{
    lemma_canonical_name_ignores_case(first_name, second_name);
    let key = canonical_name(first_name)->0;
    assert(set.insert(key, first_value).insert(key, second_value) =~= set.insert(
        key,
        second_value,
    ));
}

/// Writes `pair` into `pairs`: in place of the pair of the same name, or at
/// the end where the name is new.
fn put_pair(pairs: &mut Vec<(String, String)>, pair: (String, String))
    requires
        distinct_names(old(pairs)@),
        canonical_pairs(old(pairs)@),
        canonical_name(pair.0@) == Some(pair.0@),
        is_valid_value(pair.1@),
    ensures
        distinct_names(final(pairs)@),
        canonical_pairs(final(pairs)@),
        pairs_map(final(pairs)@) == pairs_map(old(pairs)@).insert(pair.0@, pair.1@),
{
    let mut i: usize = 0;
    while i < pairs.len()
        invariant
            i <= pairs.len(),
            *pairs == *old(pairs),
            distinct_names(pairs@),
            canonical_pairs(pairs@),
            canonical_name(pair.0@) == Some(pair.0@),
            is_valid_value(pair.1@),
            forall|k: int| 0 <= k < i ==> (#[trigger] pairs@[k]).0@ != pair.0@,
        decreases pairs.len() - i,
    {
        if pairs[i].0 == pair.0 {
            proof {
                lemma_pairs_map_update(pairs@, i as int, pair);
            }
            pairs.set(i, pair);
            return ;
        }
        i += 1;
    }
    proof {
        let pushed = pairs@.push(pair);
        assert(pushed.drop_last() == pairs@);
        assert(pushed.last() == pair);
    }
    pairs.push(pair);
}

/// A set of HTTP headers, by canonical name.
#[derive(Debug)]
pub struct Headers {
    pairs: Vec<(String, String)>,
}

impl View for Headers {
    type V = Map<Seq<char>, Seq<char>>;

    closed spec fn view(&self) -> Map<Seq<char>, Seq<char>> {
        pairs_map(self.pairs@)
    }
}

impl Headers {
    #[verifier::type_invariant]
    spec fn inv(self) -> bool {
        distinct_names(self.pairs@) && canonical_pairs(self.pairs@)
    }

    /// The empty header set.
    pub fn new() -> (headers: Self)
        ensures
            headers@ == Map::<Seq<char>, Seq<char>>::empty(),
            header_set_wf(headers@),
    {
        Headers { pairs: Vec::new() }
    }

    /// Sets the header `name` to `value`, in place of any value that the name
    /// had under whatever spelling. Refuses a name or a value that HTTP does
    /// not allow, and then changes nothing.
    pub fn insert(&mut self, name: &str, value: &str) -> (outcome: Result<(), HeaderError>)
        ensures
            header_set_wf(final(self)@),
            outcome == if canonical_name(name@) is None {
                Err::<(), HeaderError>(HeaderError::InvalidName)
            } else if !is_valid_value(value@) {
                Err(HeaderError::InvalidValue)
            } else {
                Ok(())
            },
            final(self)@ == if outcome is Ok {
                old(self)@.insert(canonical_name(name@)->0, value@)
            } else {
                old(self)@
            },
    {
        proof {
            use_type_invariant(&*self);
            self.lemma_wf();
        }
        let canonical = match parse_header_name(name) {
            Some(text) => text,
            None => {
                return Err(HeaderError::InvalidName);
            },
        };
        if !header_value_accepted(value) {
            return Err(HeaderError::InvalidValue);
        }
        proof {
            lemma_canonical_name_idempotent(name@);
        }
        let mut pairs: Vec<(String, String)> = Vec::new();
        std::mem::swap(&mut pairs, &mut self.pairs);
        put_pair(&mut pairs, (canonical, value.to_owned()));
        self.pairs = pairs;
        proof {
            self.lemma_wf();
        }
        Ok(())
    }

    /// The value of the header `name`, whatever the case of its letters.
    pub fn get(&self, name: &str) -> (value: Option<&String>)
        ensures
            header_set_wf(self@),
            match canonical_name(name@) {
                Some(key) if self@.contains_key(key) => value matches Some(v) && v@ == self@[key],
                _ => value is None,
            },
    {
        proof {
            use_type_invariant(self);
            self.lemma_wf();
            lemma_pairs_map_dom(self.pairs@);
        }
        let canonical = match parse_header_name(name) {
            Some(text) => text,
            None => {
                return None;
            },
        };
        let mut i: usize = 0;
        while i < self.pairs.len()
            invariant
                i <= self.pairs.len(),
                header_set_wf(self@),
                canonical_name(name@) == Some(canonical@),
                forall|k: int| 0 <= k < i ==> (#[trigger] self.pairs@[k]).0@ != canonical@,
            decreases self.pairs.len() - i,
        {
            if self.pairs[i].0 == canonical {
                proof {
                    use_type_invariant(self);
                    lemma_pairs_map_lookup(self.pairs@, i as int);
                }
                return Some(&self.pairs[i].1);
            }
            i += 1;
        }
        None
    }

    /// The headers as a list of name-value pairs, each name once and in
    /// canonical form.
    pub fn pairs(&self) -> (pairs: &Vec<(String, String)>)
        ensures
            header_set_wf(self@),
            distinct_names(pairs@),
            canonical_pairs(pairs@),
            pairs_map(pairs@) == self@,
    {
        proof {
            use_type_invariant(self);
            self.lemma_wf();
        }
        &self.pairs
    }

    /// These headers with those of `extra` laid over them: where both have a
    /// name, the value of `extra` stands.
    pub fn merged(&self, extra: &Headers) -> (merged: Headers)
        ensures
            header_set_wf(merged@),
            merged@ == self@.union_prefer_right(extra@),
    {
        proof {
            use_type_invariant(self);
            use_type_invariant(extra);
        }
        let mut pairs: Vec<(String, String)> = Vec::new();
        let mut i: usize = 0;
        while i < self.pairs.len()
            invariant
                i <= self.pairs.len(),
                pairs@ == self.pairs@.take(i as int),
            decreases self.pairs.len() - i,
        {
            let name = self.pairs[i].0.clone();
            let value = self.pairs[i].1.clone();
            proof {
                assert(self.pairs@.take(i + 1) == self.pairs@.take(i as int).push(
                    self.pairs@[i as int],
                ));
            }
            pairs.push((name, value));
            i += 1;
        }
        assert(pairs@ == self.pairs@) by {
            assert(self.pairs@.take(self.pairs@.len() as int) == self.pairs@);
        }
        let mut j: usize = 0;
        while j < extra.pairs.len()
            invariant
                j <= extra.pairs.len(),
                distinct_names(pairs@),
                canonical_pairs(pairs@),
                distinct_names(extra.pairs@),
                canonical_pairs(extra.pairs@),
                pairs_map(pairs@) == self@.union_prefer_right(
                    pairs_map(extra.pairs@.take(j as int)),
                ),
            decreases extra.pairs.len() - j,
        {
            let name = extra.pairs[j].0.clone();
            let value = extra.pairs[j].1.clone();
            proof {
                let before = extra.pairs@.take(j as int);
                let after = extra.pairs@.take(j + 1);
                assert(after.drop_last() == before);
                assert(after.last() == extra.pairs@[j as int]);
                assert(self@.union_prefer_right(pairs_map(before)).insert(name@, value@)
                    == self@.union_prefer_right(pairs_map(after)));
            }
            put_pair(&mut pairs, (name, value));
            j += 1;
        }
        assert(extra.pairs@.take(extra.pairs@.len() as int) == extra.pairs@);
        let merged = Headers { pairs };
        proof {
            merged.lemma_wf();
        }
        merged
    }

    /// The number of headers.
    pub fn len(&self) -> (n: usize)
        ensures
            n == self@.len(),
    {
        proof {
            use_type_invariant(self);
            lemma_pairs_map_len(self.pairs@);
        }
        self.pairs.len()
    }

    /// The invariant of the pairs makes the set they denote well formed.
    proof fn lemma_wf(self)
        requires
            distinct_names(self.pairs@),
            canonical_pairs(self.pairs@),
        ensures
            header_set_wf(self@),
    {
        lemma_pairs_map_dom(self.pairs@);
        assert forall|name: Seq<char>| #[trigger] self@.contains_key(name) implies canonical_name(
            name,
        ) == Some(name) && is_valid_value(self@[name]) by {
            let i = choose|i: int| 0 <= i < self.pairs@.len() && (#[trigger] self.pairs@[i]).0@ == name;
            lemma_pairs_map_lookup(self.pairs@, i);
        }
    }
}

/// Where names are distinct, the map of `pairs` has as many keys as `pairs`
/// has members.
proof fn lemma_pairs_map_len(pairs: Seq<(String, String)>)
    requires
        distinct_names(pairs),
    ensures
        pairs_map(pairs).len() == pairs.len(),
    decreases pairs.len(),
{
    if pairs.len() > 0 {
        let front = pairs.drop_last();
        assert(distinct_names(front)) by {
            assert forall|a: int, b: int| 0 <= a < b < front.len() implies (#[trigger] front[a]).0@
                != (#[trigger] front[b]).0@ by {
                assert(front[a] == pairs[a] && front[b] == pairs[b]);
            }
        }
        lemma_pairs_map_len(front);
        lemma_pairs_map_dom(front);
        assert(!pairs_map(front).contains_key(pairs.last().0@)) by {
            if pairs_map(front).contains_key(pairs.last().0@) {
                let i = choose|i: int|
                    0 <= i < front.len() && (#[trigger] front[i]).0@ == pairs.last().0@;
                assert(front[i] == pairs[i]);
                assert(pairs[i].0@ != pairs[pairs.len() - 1].0@);
            }
        }
    }
}

} // verus!
