//! HTTP header collections.
//!
//! The collection itself is `HeaderMap` of the `http` crate, as `axum` re-exports it. This module
//! says what such a collection holds, declares what its operations do, and builds on them the
//! copying and setting of headers that the rest of the crate uses.

use axum::http::header::{InvalidHeaderValue, ToStrError};
use axum::http::{HeaderMap, HeaderName, HeaderValue};
use vstd::prelude::*;
use vstd::utf8::encode_utf8;

use crate::text::{ascii_lower, letter_case_is_that_of_ascii, same_in_any_case};

verus! {

/// What a header collection holds: under each lower-case name the octets of its values, in the
/// order in which they were added.
pub type Fields = Map<Seq<char>, Seq<Seq<u8>>>;

/// `http::HeaderMap`, opaque here.
#[verifier::external_type_specification]
#[verifier::external_body]
#[verifier::reject_recursive_types(T)]
pub struct ExHeaderMap<T>(HeaderMap<T>);

/// `http::HeaderName`, opaque here.
#[verifier::external_type_specification]
#[verifier::external_body]
pub struct ExHeaderName(HeaderName);

/// `http::HeaderValue`, opaque here.
#[verifier::external_type_specification]
#[verifier::external_body]
pub struct ExHeaderValue(HeaderValue);

/// The error of `HeaderValue::to_str`, opaque here.
#[verifier::external_type_specification]
#[verifier::external_body]
pub struct ExToStrError(ToStrError);

/// The error of `HeaderValue::from_str`, opaque here.
#[verifier::external_type_specification]
#[verifier::external_body]
pub struct ExInvalidHeaderValue(InvalidHeaderValue);

/// What a header collection holds.
pub uninterp spec fn header_fields(map: HeaderMap<HeaderValue>) -> Fields;

/// The octets that a header value holds.
pub uninterp spec fn value_octets(value: HeaderValue) -> Seq<u8>;

/// The characters that a header name holds.
pub uninterp spec fn name_text(name: HeaderName) -> Seq<char>;

/// The number of names up to which a collection takes one more header for certain.
pub const SURE_NAMES: usize = 6553;

/// Whether an octet may stand in a header value that is read as text.
pub open spec fn is_visible_octet(b: u8) -> bool {
    32 <= b < 127 || b == 9
}

/// Whether octets read as text: all of them visible ASCII.
pub open spec fn is_visible(octets: Seq<u8>) -> bool {
    forall|i: int| 0 <= i < octets.len() ==> is_visible_octet(#[trigger] octets[i])
}

/// ASCII octets as characters.
pub open spec fn octets_text(octets: Seq<u8>) -> Seq<char> {
    octets.map_values(|b: u8| b as char)
}

/// Whether a character may stand in a header value: no control character but the tab.
pub open spec fn is_header_char(c: char) -> bool {
    c == '\t' || (c >= ' ' && c != '\x7f')
}

/// Whether a text can be a header value.
pub open spec fn is_header_content(text: Seq<char>) -> bool {
    forall|i: int| 0 <= i < text.len() ==> is_header_char(#[trigger] text[i])
}

/// Whether a text reads back as it is from a header, or is empty: nothing but visible ASCII, the
/// space and the tab.
pub open spec fn is_visible_or_empty(text: Seq<char>) -> bool {
    forall|i: int| 0 <= i < text.len() ==> ' ' <= #[trigger] text[i] < '\x7f' || text[i] == '\t'
}

/// Whether a text reads back as it is from a header.
pub open spec fn is_visible_text(text: Seq<char>) -> bool {
    text.len() > 0 && is_visible_or_empty(text)
}

/// Whether a character may stand in a header name in lower case: a letter, a digit, or one of
/// ``!"#$%&'*+-.^_`|~``.
pub open spec fn is_name_char(c: char) -> bool {
    ||| '!' <= c <= '\''
    ||| c == '*' || c == '+' || c == '-' || c == '.'
    ||| '0' <= c <= '9'
    ||| '^' <= c <= 'z'
    ||| c == '|' || c == '~'
}

/// Whether a text is a header name in lower case.
pub open spec fn is_header_name(text: Seq<char>) -> bool {
    &&& 0 < text.len() <= 65535
    &&& forall|i: int| 0 <= i < text.len() ==> is_name_char(#[trigger] text[i])
}

/// The values that stand under a name; none if the name is absent.
pub open spec fn values_of(fields: Fields, name: Seq<char>) -> Seq<Seq<u8>> {
    if fields.contains_key(name) {
        fields[name]
    } else {
        Seq::empty()
    }
}

/// The fields that a list of headers amounts to: the values of one name stay in their order.
pub open spec fn grouped(entries: Seq<(Seq<char>, Seq<u8>)>) -> Fields
    decreases entries.len(),
{
    if entries.len() == 0 {
        Fields::empty()
    } else {
        let before = grouped(entries.drop_last());
        let (name, octets) = entries.last();
        before.insert(name, values_of(before, name).push(octets))
    }
}

/// The names and octets of a list of headers.
pub open spec fn listed(entries: Seq<(&HeaderName, &HeaderValue)>) -> Seq<(Seq<char>, Seq<u8>)> {
    entries.map_values(|e: (&HeaderName, &HeaderValue)| (name_text(*e.0), value_octets(*e.1)))
}

/// `HeaderName::as_str` gives the characters of the name.
pub assume_specification[ HeaderName::as_str ](name: &HeaderName) -> (text: &str)
    ensures
        text@ == name_text(*name),
;

/// `Clone` of `HeaderName` gives the same name.
pub assume_specification[ <HeaderName as Clone>::clone ](name: &HeaderName) -> (copy: HeaderName)
    ensures
        name_text(copy) == name_text(*name),
;

/// `Clone` of `HeaderValue` gives the same octets.
pub assume_specification[ <HeaderValue as Clone>::clone ](value: &HeaderValue) -> (copy:
    HeaderValue)
    ensures
        value_octets(copy) == value_octets(*value),
;

/// `HeaderName::from_static` makes a name of a text. It panics on a text that is no header name
/// in lower case.
pub assume_specification[ HeaderName::from_static ](text: &'static str) -> (name: HeaderName)
    requires
        is_header_name(text@),
    ensures
        name_text(name) == text@,
;

/// `HeaderValue::to_str` gives the value as text if all its octets are visible ASCII (the tab is
/// one of them), and an error otherwise.
pub assume_specification[ HeaderValue::to_str ](value: &HeaderValue) -> (text: Result<
    &str,
    ToStrError,
>)
    ensures
        text is Ok <==> is_visible(value_octets(*value)),
        text matches Ok(s) ==> s@ == octets_text(value_octets(*value)),
;

/// `HeaderValue::from_str` makes a value of the UTF-8 form of a text, unless a control character
/// other than the tab stands in it.
pub assume_specification[ HeaderValue::from_str ](text: &str) -> (value: Result<
    HeaderValue,
    InvalidHeaderValue,
>)
    ensures
        value is Ok <==> is_header_content(text@),
        value matches Ok(v) ==> value_octets(v) == encode_utf8(text@),
;

/// `HeaderMap::new` makes an empty collection.
#[verifier::external_body]
pub(crate) fn header_map() -> (made: HeaderMap<HeaderValue>)
    ensures
        header_fields(made) == Fields::empty(),
{
    HeaderMap::new()
}

/// `HeaderMap::get` finds the first value of a name.
#[verifier::external_body]
pub(crate) fn header_get<'a>(map: &'a HeaderMap<HeaderValue>, name: &HeaderName) -> (found: Option<
    &'a HeaderValue,
>)
    ensures
        found is Some <==> header_fields(*map).contains_key(name_text(*name)),
        found matches Some(value) ==> value_octets(*value) == header_fields(*map)[name_text(
            *name,
        )].first(),
{
    map.get(name)
}

/// `HeaderMap::iter` visits every header; the values of one name come in their order, the names
/// in any order.
#[verifier::external_body]
pub(crate) fn header_entries<'a>(map: &'a HeaderMap<HeaderValue>) -> (entries: Vec<
    (&'a HeaderName, &'a HeaderValue),
>)
    ensures
        grouped(listed(entries@)) == header_fields(*map),
{
    map.iter().collect()
}

/// `HeaderMap::try_insert` makes a value the only one of its name. It refuses, and leaves the
/// collection as it is, only if that already holds more names than [`SURE_NAMES`]: its table of
/// 32768 places then cannot grow, and one fifth of it is taken.
#[verifier::external_body]
pub(crate) fn header_insert(
    map: &mut HeaderMap<HeaderValue>,
    name: HeaderName,
    value: HeaderValue,
) -> (stored: bool)
    ensures
        stored ==> header_fields(*final(map)) == header_fields(*old(map)).insert(
            name_text(name),
            seq![value_octets(value)],
        ),
        !stored ==> header_fields(*final(map)) == header_fields(*old(map)),
        !stored ==> header_fields(*final(map)).dom().len() > SURE_NAMES,
{
    map.try_insert(name, value).is_ok()
}

/// `HeaderMap::try_append` adds a value behind those that its name has. It refuses, and leaves the
/// collection as it is, only if that already holds more names than [`SURE_NAMES`], for the same
/// reason as `HeaderMap::try_insert`.
#[verifier::external_body]
pub(crate) fn header_append(
    map: &mut HeaderMap<HeaderValue>,
    name: HeaderName,
    value: HeaderValue,
) -> (stored: bool)
    ensures
        stored ==> header_fields(*final(map)) == header_fields(*old(map)).insert(
            name_text(name),
            values_of(header_fields(*old(map)), name_text(name)).push(value_octets(value)),
        ),
        !stored ==> header_fields(*final(map)) == header_fields(*old(map)),
        !stored ==> header_fields(*final(map)).dom().len() > SURE_NAMES,
{
    map.try_append(name, value).is_ok()
}

/// The lower-case forms of a list of names.
pub open spec fn name_set(names: Seq<&'static str>) -> Set<Seq<char>> {
    Set::new(
        |name: Seq<char>|
            exists|i: int| 0 <= i < names.len() && name == ascii_lower(#[trigger] names[i]@),
    )
}

/// Whether a name is in a list, whatever the case of its letters.
pub fn is_listed(names: &[&'static str], name: &str) -> (found: bool)
    ensures
        found == name_set(names@).contains(ascii_lower(name@)),
{
    let mut i: usize = 0;
    while i < names.len()
        invariant
            i <= names.len(),
            forall|j: int| 0 <= j < i ==> ascii_lower(#[trigger] names@[j]@) != ascii_lower(name@),
        decreases names.len() - i,
    {
        if same_in_any_case(name, names[i]) {
            assert(ascii_lower(names@[i as int]@) == ascii_lower(name@));
            return true;
        }
        i = i + 1;
    }
    false
}

/// The fields that are left of a collection once some names are dropped. A name that is not
/// dropped keeps all its values in their order.
pub open spec fn without(fields: Fields, dropped: Set<Seq<char>>) -> Fields {
    Map::new(
        |name: Seq<char>| fields.contains_key(name) && !dropped.contains(ascii_lower(name)),
        |name: Seq<char>| fields[name],
    )
}

/// The names of a list of headers are finite in number, and each has a value.
proof fn lemma_grouped(entries: Seq<(Seq<char>, Seq<u8>)>)
    ensures
        grouped(entries).dom().finite(),
        forall|name: Seq<char>| #[trigger]
            grouped(entries).contains_key(name) ==> grouped(entries)[name].len() > 0,
    decreases entries.len(),
{
    if entries.len() > 0 {
        lemma_grouped(entries.drop_last());
    }
}

/// What is left of a list grows with each further header as the list itself does.
proof fn lemma_without_grows(entries: Seq<(Seq<char>, Seq<u8>)>, dropped: Set<Seq<char>>)
    requires
        entries.len() > 0,
    ensures
        without(grouped(entries), dropped) == (if dropped.contains(ascii_lower(entries.last().0)) {
            without(grouped(entries.drop_last()), dropped)
        } else {
            without(grouped(entries.drop_last()), dropped).insert(
                entries.last().0,
                values_of(
                    without(grouped(entries.drop_last()), dropped),
                    entries.last().0,
                ).push(entries.last().1),
            )
        }),
{
    let before = grouped(entries.drop_last());
    let (name, octets) = entries.last();
    let after = grouped(entries);
    assert(after.remove(name) =~= before.remove(name));
    if dropped.contains(ascii_lower(name)) {
        assert(without(after, dropped) =~= without(before, dropped));
    } else {
        assert(values_of(without(before, dropped), name) == values_of(before, name));
        assert(without(after, dropped) =~= without(before, dropped).insert(
            name,
            values_of(before, name).push(octets),
        ));
    }
}

/// The names of the beginning of a list are among those of the whole list, and the values of each
/// are the first ones that it has there.
proof fn lemma_grouped_prefix(entries: Seq<(Seq<char>, Seq<u8>)>, len: int)
    requires
        0 <= len <= entries.len(),
    ensures
        grouped(entries.take(len)).dom().subset_of(grouped(entries).dom()),
        forall|name: Seq<char>| #[trigger]
            grouped(entries.take(len)).contains_key(name) ==> grouped(entries.take(
                len,
            ))[name].is_prefix_of(grouped(entries)[name]),
    decreases entries.len() - len,
{
    if len == entries.len() {
        assert(entries.take(len) =~= entries);
    } else {
        lemma_grouped_prefix(entries, len + 1);
        assert(entries.take(len + 1).drop_last() =~= entries.take(len));
        let shorter = grouped(entries.take(len));
        let longer = grouped(entries.take(len + 1));
        assert forall|name: Seq<char>| #[trigger]
            shorter.contains_key(name) implies shorter[name].is_prefix_of(
            grouped(entries)[name],
        ) by {
            assert(longer.contains_key(name));
            assert(shorter[name] =~= longer[name].subrange(0, shorter[name].len() as int));
            assert(shorter[name] =~= grouped(entries)[name].subrange(
                0,
                shorter[name].len() as int,
            ));
        }
    }
}

/// Whether every header of `made` is taken from `fields`, under a name that is not dropped and
/// with the first of the values that stand there.
pub open spec fn is_selection_of(made: Fields, fields: Fields, dropped: Set<Seq<char>>) -> bool {
    forall|name: Seq<char>| #[trigger]
        made.contains_key(name) ==> without(fields, dropped).contains_key(name) && made[name].len()
            > 0 && made[name].is_prefix_of(fields[name])
}

/// Copies a header collection without the names of two lists, whatever the case of their
/// letters. A name that occurs more than once keeps all its values. The copy ends before the
/// first header for which there is no room; that takes more names than a collection takes for
/// certain.
pub fn copy_without(
    source: &HeaderMap<HeaderValue>,
    dropped: &[&'static str],
    also_dropped: &[&'static str],
) -> (copied: HeaderMap<HeaderValue>)
    ensures
        header_fields(*source).dom().finite(),
        header_fields(*source).dom().len() <= SURE_NAMES ==> header_fields(copied) == without(
            header_fields(*source),
            name_set(dropped@).union(name_set(also_dropped@)),
        ),
        header_fields(copied) == without(
            header_fields(*source),
            name_set(dropped@).union(name_set(also_dropped@)),
        ) || header_fields(copied).dom().len() > SURE_NAMES,
        is_selection_of(
            header_fields(copied),
            header_fields(*source),
            name_set(dropped@).union(name_set(also_dropped@)),
        ),
        header_fields(copied).dom().finite(),
        header_fields(copied).dom().len() <= header_fields(*source).dom().len(),
{
    let entries = header_entries(source);
    let mut copied = header_map();
    let ghost all = listed(entries@);
    let ghost gone = name_set(dropped@).union(name_set(also_dropped@));
    proof {
        assert(all.take(0) =~= Seq::empty());
        assert(without(Fields::empty(), gone) =~= Fields::empty());
    }
    let mut i: usize = 0;
    let mut room = true;
    while i < entries.len() && room
        invariant
            i <= entries.len(),
            all == listed(entries@),
            gone == name_set(dropped@).union(name_set(also_dropped@)),
            header_fields(copied) == without(grouped(all.take(i as int)), gone),
            !room ==> header_fields(copied).dom().len() > SURE_NAMES,
        decreases
                (entries.len() - i) + if room {
                    1int
                } else {
                    0int
                },
    {
        let (name, value) = entries[i];
        proof {
            let seen = all.take(i + 1);
            assert(seen.drop_last() =~= all.take(i as int));
            assert(seen.last() == (name_text(*name), value_octets(*value)));
            lemma_without_grows(seen, gone);
        }
        if !is_listed(dropped, name.as_str()) && !is_listed(also_dropped, name.as_str()) {
            room = header_append(&mut copied, name.clone(), value.clone());
        }
        if room {
            i = i + 1;
        }
    }
    proof {
        let part = grouped(all.take(i as int));
        lemma_grouped(all);
        lemma_grouped(all.take(i as int));
        lemma_grouped_prefix(all, i as int);
        assert(i == all.len() ==> all.take(i as int) =~= all);
        assert forall|name: Seq<char>| #[trigger] header_fields(copied).contains_key(name) implies
            without(grouped(all), gone).contains_key(name) && header_fields(copied)[name].len() > 0
            && header_fields(copied)[name].is_prefix_of(grouped(all)[name]) by {
            assert(part.contains_key(name));
        }
        assert(header_fields(copied).dom().subset_of(grouped(all).dom()));
        vstd::set_lib::lemma_len_subset(header_fields(copied).dom(), grouped(all).dom());
    }
    copied
}

/// The fields with only the last value of each name.
pub open spec fn last_values(fields: Fields) -> Fields {
    Map::new(
        |name: Seq<char>| fields.contains_key(name),
        |name: Seq<char>| seq![fields[name].last()],
    )
}

/// Whether every header of `made` has one value, which stands in `fields` under the same name.
pub open spec fn is_choice_of(made: Fields, fields: Fields) -> bool {
    forall|name: Seq<char>| #[trigger]
        made.contains_key(name) ==> fields.contains_key(name) && made[name].len() == 1
            && fields[name].contains(made[name][0])
}

/// Copies the last value of each name of a header collection, without the names of a list,
/// whatever the case of their letters. The copy ends before the first header for which there is
/// no room; that takes more names than a collection takes for certain.
pub fn copy_last_without(source: &HeaderMap<HeaderValue>, dropped: &[&'static str]) -> (copied:
    HeaderMap<HeaderValue>)
    ensures
        header_fields(*source).dom().finite(),
        header_fields(*source).dom().len() <= SURE_NAMES ==> header_fields(copied) == last_values(
            without(header_fields(*source), name_set(dropped@)),
        ),
        header_fields(copied) == last_values(without(header_fields(*source), name_set(dropped@)))
            || header_fields(copied).dom().len() > SURE_NAMES,
        is_choice_of(
            header_fields(copied),
            without(header_fields(*source), name_set(dropped@)),
        ),
{
    let entries = header_entries(source);
    let mut copied = header_map();
    let ghost all = listed(entries@);
    let ghost gone = name_set(dropped@);
    proof {
        assert(all.take(0) =~= Seq::empty());
        assert(last_values(without(Fields::empty(), gone)) =~= Fields::empty());
    }
    let mut i: usize = 0;
    let mut room = true;
    while i < entries.len() && room
        invariant
            i <= entries.len(),
            all == listed(entries@),
            gone == name_set(dropped@),
            header_fields(copied) == last_values(without(grouped(all.take(i as int)), gone)),
            !room ==> header_fields(copied).dom().len() > SURE_NAMES,
        decreases
                (entries.len() - i) + if room {
                    1int
                } else {
                    0int
                },
    {
        let (name, value) = entries[i];
        proof {
            let seen = all.take(i + 1);
            let before = without(grouped(all.take(i as int)), gone);
            let after = without(grouped(seen), gone);
            assert(seen.drop_last() =~= all.take(i as int));
            assert(seen.last() == (name_text(*name), value_octets(*value)));
            lemma_without_grows(seen, gone);
            if !gone.contains(ascii_lower(name_text(*name))) {
                assert(after[name_text(*name)].last() == value_octets(*value));
                assert(last_values(after) =~= last_values(before).insert(
                    name_text(*name),
                    seq![value_octets(*value)],
                ));
            }
        }
        if !is_listed(dropped, name.as_str()) {
            room = header_insert(&mut copied, name.clone(), value.clone());
        }
        if room {
            i = i + 1;
        }
    }
    proof {
        let part = grouped(all.take(i as int));
        lemma_grouped(all);
        lemma_grouped(all.take(i as int));
        lemma_grouped_prefix(all, i as int);
        assert(i == all.len() ==> all.take(i as int) =~= all);
        assert forall|name: Seq<char>| #[trigger] header_fields(copied).contains_key(name) implies
            without(grouped(all), gone).contains_key(name) && header_fields(copied)[name].len() == 1
            && without(grouped(all), gone)[name].contains(header_fields(copied)[name][0]) by {
            assert(part.contains_key(name));
            let last = part[name].len() - 1;
            assert(part[name][last] == grouped(all)[name].subrange(
                0,
                part[name].len() as int,
            )[last]);
            assert(grouped(all)[name][last] == header_fields(copied)[name][0]);
        }
        assert(header_fields(copied).dom().subset_of(grouped(all).dom()));
        vstd::set_lib::lemma_len_subset(header_fields(copied).dom(), grouped(all).dom());
    }
    copied
}

/// The text of the first value of a name; empty if there is none, or if it does not read as text.
pub open spec fn field_text(fields: Fields, name: Seq<char>) -> Seq<char> {
    if fields.contains_key(name) && is_visible(fields[name].first()) {
        octets_text(fields[name].first())
    } else {
        Seq::empty()
    }
}

/// Reads the text of the first value of a name; empty if there is none, or if it does not read
/// as text.
pub fn header_text(map: &HeaderMap<HeaderValue>, name: &'static str) -> (text: String)
    requires
        is_header_name(name@),
    ensures
        text@ == field_text(header_fields(*map), name@),
{
    match header_get(map, &HeaderName::from_static(name)) {
        None => String::new(),
        Some(value) => match value.to_str() {
            Ok(text) => text.to_owned(),
            Err(_) => String::new(),
        },
    }
}

/// The fields once a name has a text as its only value. A text that cannot be a header value
/// changes nothing.
pub open spec fn with_field(fields: Fields, name: Seq<char>, text: Seq<char>) -> Fields {
    if is_header_content(text) {
        fields.insert(name, seq![encode_utf8(text)])
    } else {
        fields
    }
}

/// Whether setting a text under a name leads from `before` to `after`: the text is the only value
/// of its name then, unless it cannot be a header value, or there was no room for it.
pub open spec fn is_set(before: Fields, after: Fields, name: Seq<char>, text: Seq<char>) -> bool {
    after == with_field(before, name, text) || after == before && before.dom().len() > SURE_NAMES
}

/// Makes a text the only value of a name. A text that cannot be a header value is skipped; so
/// may be any text once the collection holds more names than it takes for certain.
pub fn set(map: &mut HeaderMap<HeaderValue>, name: &'static str, text: &str)
    requires
        is_header_name(name@),
    ensures
        is_set(header_fields(*old(map)), header_fields(*final(map)), name@, text@),
{
    if let Ok(value) = HeaderValue::from_str(text) {
        let _ = header_insert(map, HeaderName::from_static(name), value);
    }
}

/// The last text that is set wins: a collection in which a name is set to a text and then to a
/// later one holds what it holds if the name is set to the later one alone, provided that this can
/// be a header value. The collection must take the name for certain.
pub proof fn last_set_wins(
    fields: Fields,
    name: Seq<char>,
    text: Seq<char>,
    later: Seq<char>,
    first: Fields,
    twice: Fields,
    once: Fields,
)
    requires
        is_header_content(later),
        fields.dom().insert(name).len() <= SURE_NAMES,
        fields.dom().finite(),
        is_set(fields, first, name, text),
        is_set(first, twice, name, later),
        is_set(fields, once, name, later),
    ensures
        twice == once,
{
    assert(first.dom() =~= fields.dom() || first.dom() =~= fields.dom().insert(name));
    assert(fields.dom().len() <= fields.dom().insert(name).len());
    assert(twice =~= once);
}

/// Setting the same text twice is setting it once.
pub proof fn setting_again_changes_nothing(
    fields: Fields,
    name: Seq<char>,
    text: Seq<char>,
    once: Fields,
    twice: Fields,
)
    requires
        fields.dom().len() <= SURE_NAMES,
        is_set(fields, once, name, text),
        is_set(once, twice, name, text),
    ensures
        twice == once,
{
    assert(twice =~= once);
}

/// A text that is set replaces every value of its name, and no other name is touched.
pub proof fn set_replaces_one_name(fields: Fields, name: Seq<char>, text: Seq<char>)
    requires
        is_header_content(text),
    ensures
        values_of(with_field(fields, name, text), name) == seq![encode_utf8(text)],
        forall|other: Seq<char>|
            other != name ==> #[trigger] values_of(with_field(fields, name, text), other)
                == values_of(fields, other),
{
}

/// The fields once each name of a list has the text at its place as its only value, one after the
/// other. A text that cannot be a header value is skipped.
pub open spec fn with_fields(
    fields: Fields,
    names: Seq<&'static str>,
    texts: Seq<Seq<char>>,
) -> Fields
    decreases names.len(),
{
    if names.len() == 0 || texts.len() != names.len() {
        fields
    } else {
        with_field(
            with_fields(fields, names.drop_last(), texts.drop_last()),
            names.last()@,
            texts.last(),
        )
    }
}

/// Whether no name of a list occurs in it twice.
pub open spec fn all_distinct(names: Seq<&'static str>) -> bool {
    forall|i: int, j: int|
        0 <= i < j < names.len() ==> #[trigger] names[i]@ != #[trigger] names[j]@
}

/// What setting a list of headers does to each name: one of the list has the text at its place
/// as its only value, if that can be a header value; every other name is left alone.
pub proof fn lemma_with_fields(fields: Fields, names: Seq<&'static str>, texts: Seq<Seq<char>>)
    requires
        all_distinct(names),
        texts.len() == names.len(),
    ensures
        forall|i: int|
            #![trigger names[i]]
            #![trigger texts[i]]
            0 <= i < names.len() && is_header_content(texts[i]) ==> with_fields(
                fields,
                names,
                texts,
            ).contains_key(names[i]@) && with_fields(fields, names, texts)[names[i]@]
                == seq![encode_utf8(texts[i])],
        forall|i: int|
            #![trigger names[i]]
            #![trigger texts[i]]
            0 <= i < names.len() && !is_header_content(texts[i]) ==> with_fields(
                fields,
                names,
                texts,
            ).contains_key(names[i]@) == fields.contains_key(names[i]@) && with_fields(
                fields,
                names,
                texts,
            )[names[i]@] == fields[names[i]@],
        forall|name: Seq<char>|
            (forall|i: int| 0 <= i < names.len() ==> #[trigger] names[i]@ != name) ==> {
                &&& #[trigger] with_fields(fields, names, texts).contains_key(name)
                    == fields.contains_key(name)
                &&& with_fields(fields, names, texts)[name] == fields[name]
            },
        fields.dom().finite() ==> with_fields(fields, names, texts).dom().finite() && with_fields(
            fields,
            names,
            texts,
        ).dom().len() <= fields.dom().len() + names.len(),
    decreases names.len(),
{
    if names.len() > 0 {
        let n = names.len() - 1;
        lemma_with_fields(fields, names.drop_last(), texts.drop_last());
        let before = with_fields(fields, names.drop_last(), texts.drop_last());
        let after = with_fields(fields, names, texts);
        assert(forall|i: int| 0 <= i < n ==> names.drop_last()[i] == names[i]);
        assert(forall|i: int| 0 <= i < n ==> texts.drop_last()[i] == texts[i]);
        assert(forall|i: int| 0 <= i < n ==> #[trigger] names[i]@ != names[n]@);
        assert forall|name: Seq<char>|
            (forall|i: int| 0 <= i < names.len() ==> #[trigger] names[i]@ != name) implies {
            &&& #[trigger] after.contains_key(name) == fields.contains_key(name)
            &&& after[name] == fields[name]
        } by {
            assert(names[n]@ != name);
            assert(forall|i: int|
                0 <= i < names.drop_last().len() ==> #[trigger] names.drop_last()[i]@ != name);
            assert(before.contains_key(name) == fields.contains_key(name));
        }
        assert(forall|i: int|
            0 <= i < names.drop_last().len() ==> #[trigger] names.drop_last()[i]@ != names[n]@);
        assert(before.contains_key(names[n]@) == fields.contains_key(names[n]@));
    }
}

/// The characters of a list of texts.
pub open spec fn texts_of(texts: Seq<&str>) -> Seq<Seq<char>> {
    texts.map_values(|text: &str| text@)
}

/// Whether `made` is `wanted`, up to headers for which there was no room: it has no name of its
/// own, and what it has under a name is what `wanted` or `before` has there.
pub open spec fn is_part_of(made: Fields, wanted: Fields, before: Fields) -> bool {
    forall|name: Seq<char>| #[trigger]
        made.contains_key(name) ==> wanted.contains_key(name) && (made[name] == wanted[name]
            || before.contains_key(name) && made[name] == before[name])
}

/// Makes each text the only value of the name at its place. A text that cannot be a header value
/// is skipped; so may be any text once the collection holds more names than it takes for certain.
pub fn set_all(map: &mut HeaderMap<HeaderValue>, names: &[&'static str], texts: &[&str])
    requires
        names@.len() == texts@.len(),
        all_distinct(names@),
        forall|i: int| 0 <= i < names@.len() ==> is_header_name(#[trigger] names@[i]@),
        header_fields(*old(map)).dom().finite(),
    ensures
        header_fields(*old(map)).dom().len() + names@.len() <= SURE_NAMES ==> header_fields(
            *final(map),
        ) == with_fields(header_fields(*old(map)), names@, texts_of(texts@)),
        header_fields(*final(map)) == with_fields(
            header_fields(*old(map)),
            names@,
            texts_of(texts@),
        ) || header_fields(*final(map)).dom().len() > SURE_NAMES,
        header_fields(*final(map)).dom().finite(),
        header_fields(*final(map)).dom().len() >= header_fields(*old(map)).dom().len(),
        is_part_of(
            header_fields(*final(map)),
            with_fields(header_fields(*old(map)), names@, texts_of(texts@)),
            header_fields(*old(map)),
        ),
{
    let ghost before = header_fields(*map);
    let ghost all = texts_of(texts@);
    let mut i: usize = 0;
    while i < names.len()
        invariant
            i <= names@.len(),
            names@.len() == texts@.len(),
            all == texts_of(texts@),
            all_distinct(names@),
            before.dom().finite(),
            forall|i: int| 0 <= i < names@.len() ==> is_header_name(#[trigger] names@[i]@),
            header_fields(*map) == with_fields(before, names@.take(i as int), all.take(i as int))
                || header_fields(*map).dom().len() > SURE_NAMES,
            header_fields(*map).dom().finite(),
            header_fields(*map).dom().len() >= before.dom().len(),
            is_part_of(
                header_fields(*map),
                with_fields(before, names@.take(i as int), all.take(i as int)),
                before,
            ),
        decreases names.len() - i,
    {
        proof {
            let done = names@.take(i as int);
            let done_texts = all.take(i as int);
            assert(all_distinct(done)) by {
                assert forall|a: int, b: int| 0 <= a < b < done.len() implies #[trigger] done[a]@
                    != #[trigger] done[b]@ by {
                    assert(done[a] == names@[a] && done[b] == names@[b]);
                }
            }
            lemma_with_fields(before, done, done_texts);
            assert(names@.take(i + 1).drop_last() =~= done);
            assert(all.take(i + 1).drop_last() =~= done_texts);
            assert(forall|j: int| 0 <= j < i ==> done[j] == names@[j]);
            assert(forall|j: int| 0 <= j < done.len() ==> #[trigger] done[j]@ != names@[i as int]@);
            assert(with_fields(before, done, done_texts).contains_key(names@[i as int]@)
                == before.contains_key(names@[i as int]@));
        }
        set(map, names[i], texts[i]);
        i = i + 1;
    }
    assert(names@.take(i as int) =~= names@);
    assert(all.take(i as int) =~= all);
    proof {
        lemma_with_fields(before, names@, all);
        assert(header_fields(*map).dom().subset_of(with_fields(before, names@, all).dom()));
        vstd::set_lib::lemma_len_subset(
            header_fields(*map).dom(),
            with_fields(before, names@, all).dom(),
        );
    }
}

/// Setting a header, told without its parts: if the text has no control character but tabs in it,
/// its octets are the only value of the name, and every other name keeps what it has; if it has
/// one, nothing changes.
pub proof fn setting_replaces_or_does_nothing(
    before: Fields,
    after: Fields,
    name: Seq<char>,
    text: Seq<char>,
)
    requires
        is_set(before, after, name, text),
    ensures
        ({
            let clean = forall|i: int|
                0 <= i < text.len() ==> #[trigger] text[i] == '\t' || (text[i] >= ' ' && text[i]
                    != '\x7f');
            let replaced = {
                &&& after.contains_key(name) && after[name] == seq![encode_utf8(text)]
                &&& forall|other: Seq<char>|
                    other != name ==> #[trigger] after.contains_key(other) == before.contains_key(
                        other,
                    ) && (before.contains_key(other) ==> after[other] == before[other])
            };
            &&& clean && before.dom().len() <= 6553 ==> replaced
            &&& clean ==> replaced || after == before
            &&& !clean ==> after == before
        }),
{
}

/// Setting headers one after the other: a name of the list has the octets of its text as its only
/// value, unless no header can carry the text, and then it keeps what it had; so does every name
/// that is not in the list.
pub proof fn setting_many_sets_each(
    fields: Fields,
    names: Seq<&'static str>,
    texts: Seq<Seq<char>>,
    name: Seq<char>,
)
    requires
        forall|i: int, j: int|
            0 <= i < j < names.len() ==> #[trigger] names[i]@ != #[trigger] names[j]@,
        texts.len() == names.len(),
    ensures
        ({
            let after = with_fields(fields, names, texts);
            let kept = after.contains_key(name) == fields.contains_key(name) && after[name]
                == fields[name];
            &&& (forall|i: int| 0 <= i < names.len() ==> #[trigger] names[i]@ != name) ==> kept
            &&& forall|i: int|
                0 <= i < names.len() && #[trigger] names[i]@ == name ==> {
                    let clean = forall|k: int|
                        0 <= k < texts[i].len() ==> #[trigger] texts[i][k] == '\t' || (texts[i][k]
                            >= ' ' && texts[i][k] != '\x7f');
                    if clean {
                        after.contains_key(name) && after[name] == seq![encode_utf8(texts[i])]
                    } else {
                        kept
                    }
                }
        }),
{
    lemma_with_fields(fields, names, texts);
    let after = with_fields(fields, names, texts);
    assert(after.contains_key(name) || !after.contains_key(name));
    assert forall|i: int| 0 <= i < names.len() && #[trigger] names[i]@ == name implies {
        let clean = forall|k: int|
            0 <= k < texts[i].len() ==> #[trigger] texts[i][k] == '\t' || (texts[i][k] >= ' '
                && texts[i][k] != '\x7f');
        if clean {
            after.contains_key(name) && after[name] == seq![encode_utf8(texts[i])]
        } else {
            after.contains_key(name) == fields.contains_key(name) && after[name] == fields[name]
        }
    } by {
        assert(is_header_content(texts[i]) || !is_header_content(texts[i]));
    }
}

/// Reading a header gives the characters of its first value, one for each octet, if all of them
/// are visible ASCII, spaces or tabs, and nothing otherwise.
pub proof fn reading_gives_the_first_value(fields: Fields, name: Seq<char>)
    ensures
        ({
            let first = fields[name][0];
            let text = field_text(fields, name);
            if fields.contains_key(name) && forall|i: int|
                0 <= i < first.len() ==> 32 <= #[trigger] first[i] < 127 || first[i] == 9 {
                text.len() == first.len() && forall|i: int|
                    0 <= i < first.len() ==> #[trigger] text[i] as int == first[i] as int
            } else {
                text.len() == 0
            }
        }),
{
}

/// Dropping names takes away those names and nothing else.
pub proof fn dropping_leaves_the_rest(fields: Fields, dropped: Set<Seq<char>>, name: Seq<char>)
    ensures
        without(fields, dropped).contains_key(name) <==> fields.contains_key(name)
            && !dropped.contains(ascii_lower(name)),
        without(fields, dropped).contains_key(name) ==> without(fields, dropped)[name]
            == fields[name],
        last_values(fields).contains_key(name) <==> fields.contains_key(name),
        fields.contains_key(name) ==> last_values(fields)[name].len() == 1 && last_values(
            fields,
        )[name][0] == fields[name][fields[name].len() - 1],
{
}

/// A name is in a list exactly if it is one of its names, whole, but for letter case: same length,
/// and at each place the same character or the other case of one ASCII letter.
pub proof fn lists_hold_whole_names(names: Seq<&'static str>, name: Seq<char>)
    ensures
        name_set(names).contains(ascii_lower(name)) <==> exists|i: int|
            0 <= i < names.len() && (#[trigger] names[i])@.len() == name.len() && forall|k: int|
                0 <= k < name.len() ==> {
                    let c = #[trigger] name[k];
                    let d = names[i]@[k];
                    ||| c == d
                    ||| 'A' <= c <= 'Z' && d as int == c as int + 32
                    ||| 'A' <= d <= 'Z' && c as int == d as int + 32
                },
{
    assert forall|i: int| 0 <= i < names.len() implies (ascii_lower(name) == ascii_lower(
        #[trigger] names[i]@,
    ) <==> names[i]@.len() == name.len() && forall|k: int|
        0 <= k < name.len() ==> {
            let c = #[trigger] name[k];
            let d = names[i]@[k];
            ||| c == d
            ||| 'A' <= c <= 'Z' && d as int == c as int + 32
            ||| 'A' <= d <= 'Z' && c as int == d as int + 32
        }) by {
        letter_case_is_that_of_ascii(name, names[i]@);
    }
    assert(name_set(names).contains(ascii_lower(name)) <==> exists|i: int|
        0 <= i < names.len() && ascii_lower(name) == ascii_lower(#[trigger] names[i]@));
}

/// Letters in lower case, digits and the marks of a token make a header name, and nothing else
/// does.
pub proof fn header_names_are_tokens(text: Seq<char>)
    ensures
        is_header_name(text) <==> 0 < text.len() <= 65535 && forall|i: int|
            0 <= i < text.len() ==> {
                let c = #[trigger] text[i];
                ||| 'a' <= c <= 'z'
                ||| '0' <= c <= '9'
                ||| c == '!' || c == '"' || c == '#' || c == '$' || c == '%' || c == '&'
                ||| c == '\'' || c == '*' || c == '+' || c == '-' || c == '.' || c == '^'
                ||| c == '_' || c == '`' || c == '|' || c == '~'
            },
{
    assert(forall|i: int|
        0 <= i < text.len() ==> is_name_char(#[trigger] text[i]) == {
            let c = text[i];
            ||| 'a' <= c <= 'z'
            ||| '0' <= c <= '9'
            ||| c == '!' || c == '"' || c == '#' || c == '$' || c == '%' || c == '&'
            ||| c == '\'' || c == '*' || c == '+' || c == '-' || c == '.' || c == '^'
            ||| c == '_' || c == '`' || c == '|' || c == '~'
        });
}

} // verus!
