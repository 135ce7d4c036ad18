//! Header fields of a request or a response, held in an [`http::HeaderMap`].
//!
//! A header map is a multimap: each field name has a list of values in the order
//! in which they were added. Its model here is a map from the name, in lower
//! case, to that list.

use vstd::prelude::*;
use vstd::string::*;
use vstd::utf8::*;

use crate::text::{lower, same_text_ignoring_case};

verus! {

/// [`http::HeaderMap`].
#[verifier::external_type_specification]
#[verifier::external_body]
#[verifier::reject_recursive_types(T)]
pub struct ExHeaderMap<T>(http::HeaderMap<T>);

/// [`http::HeaderName`].
#[verifier::external_type_specification]
#[verifier::external_body]
pub struct ExHeaderName(http::HeaderName);

/// [`http::HeaderValue`].
#[verifier::external_type_specification]
#[verifier::external_body]
pub struct ExHeaderValue(http::HeaderValue);

/// [`http::header::InvalidHeaderName`].
#[verifier::external_type_specification]
#[verifier::external_body]
pub struct ExInvalidHeaderName(http::header::InvalidHeaderName);

/// [`http::header::InvalidHeaderValue`].
#[verifier::external_type_specification]
#[verifier::external_body]
pub struct ExInvalidHeaderValue(http::header::InvalidHeaderValue);

/// [`http::header::MaxSizeReached`].
#[verifier::external_type_specification]
#[verifier::external_body]
pub struct ExMaxSizeReached(http::header::MaxSizeReached);

/// [`http::header::ToStrError`].
#[verifier::external_type_specification]
#[verifier::external_body]
pub struct ExToStrError(http::header::ToStrError);

/// The characters that a header name holds.
pub uninterp spec fn name_text(name: http::HeaderName) -> Seq<char>;

/// The bytes that a header value holds.
pub uninterp spec fn value_bytes(value: http::HeaderValue) -> Seq<u8>;

/// The fields that a header map holds: the list of values of each name.
pub uninterp spec fn header_lists(map: http::HeaderMap<http::HeaderValue>) -> Map<
    Seq<char>,
    Seq<Seq<u8>>,
>;

/// With at most this many names in it, a header map takes one more.
pub const ROOMY: usize = 6553;

/// A character of a field name: a token character that is no upper case letter.
pub open spec fn is_name_char(c: char) -> bool {
    ||| 'a' <= c && c <= 'z'
    ||| '0' <= c && c <= '9'
    ||| c == '!' || c == '#' || c == '$' || c == '%' || c == '&' || c == '\'' || c == '*'
    ||| c == '+' || c == '-' || c == '.' || c == '^' || c == '_' || c == '`' || c == '|'
    ||| c == '~'
}

/// A field name in lower case.
pub open spec fn is_field_name(name: Seq<char>) -> bool {
    &&& 0 < name.len() <= 65535
    &&& forall|i: int| 0 <= i < name.len() ==> is_name_char(#[trigger] name[i])
}

/// A byte of a field value: no control byte but the tab.
pub open spec fn is_value_byte(b: u8) -> bool {
    b == 9 || (32 <= b && b != 127)
}

/// A field value.
pub open spec fn is_field_value(value: Seq<u8>) -> bool {
    forall|i: int| 0 <= i < value.len() ==> is_value_byte(#[trigger] value[i])
}

/// A byte of a value that is also a text: a visible ASCII character, a space or a tab.
pub open spec fn is_text_byte(b: u8) -> bool {
    b == 9 || (32 <= b && b < 127)
}

/// A field value that is also a text.
pub open spec fn is_text_value(value: Seq<u8>) -> bool {
    forall|i: int| 0 <= i < value.len() ==> is_text_byte(#[trigger] value[i])
}

/// The text whose characters have the codes `bytes`.
pub open spec fn ascii_text(bytes: Seq<u8>) -> Seq<char> {
    bytes.map_values(|b: u8| b as char)
}

/// The lists after one more field: the value goes to the end of its name's list.
pub open spec fn with_field(
    lists: Map<Seq<char>, Seq<Seq<u8>>>,
    name: Seq<char>,
    value: Seq<u8>,
) -> Map<Seq<char>, Seq<Seq<u8>>> {
    if lists.contains_key(name) {
        lists.insert(name, lists[name].push(value))
    } else {
        lists.insert(name, seq![value])
    }
}

/// The lists of a sequence of fields.
pub open spec fn grouped(fields: Seq<(Seq<char>, Seq<u8>)>) -> Map<Seq<char>, Seq<Seq<u8>>>
    decreases fields.len(),
{
    if fields.len() == 0 {
        Map::empty()
    } else {
        with_field(grouped(fields.drop_last()), fields.last().0, fields.last().1)
    }
}

/// The contents of a list of fields.
pub open spec fn field_views(fields: Seq<(String, Vec<u8>)>) -> Seq<(Seq<char>, Seq<u8>)> {
    fields.map_values(|f: (String, Vec<u8>)| (f.0@, f.1@))
}

/// Every name is a field name and every value a field value.
pub open spec fn well_formed(lists: Map<Seq<char>, Seq<Seq<u8>>>) -> bool {
    forall|name: Seq<char>| #[trigger]
        lists.contains_key(name) ==> is_field_name(name) && forall|i: int|
            0 <= i < lists[name].len() ==> is_field_value(#[trigger] lists[name][i])
}

/// The fields cannot be taken over into a new map, for this reason: there is a name that
/// is no field name, there is a value that is no field value, or there are too many names.
pub open spec fn cannot_copy(lists: Map<Seq<char>, Seq<Seq<u8>>>, e: HeaderError) -> bool {
    match e {
        HeaderError::Name => exists|name: Seq<char>| #[trigger]
            lists.contains_key(name) && !is_field_name(name),
        HeaderError::Value => exists|name: Seq<char>, i: int|
            #![trigger lists[name][i]]
            lists.contains_key(name) && 0 <= i < lists[name].len() && !is_field_value(
                lists[name][i],
            ),
        HeaderError::Full => lists.dom().len() > ROOMY,
    }
}

/// The first value of a name, where the name has one.
pub open spec fn first_value(
    lists: Map<Seq<char>, Seq<Seq<u8>>>,
    name: Seq<char>,
) -> Option<Seq<u8>> {
    if lists.contains_key(name) {
        Some(lists[name][0])
    } else {
        None
    }
}

/// The first value of a name, where the name has one and that one is a text.
pub open spec fn first_text(
    lists: Map<Seq<char>, Seq<Seq<u8>>>,
    name: Seq<char>,
) -> Option<Seq<char>> {
    match first_value(lists, name) {
        Some(value) => if is_text_value(value) {
            Some(ascii_text(value))
        } else {
            None
        },
        None => None,
    }
}

/// What is found under a key: the first value of the field name that the key is in lower
/// case. A key that is no field name finds nothing.
pub open spec fn found_value(
    lists: Map<Seq<char>, Seq<Seq<u8>>>,
    key: Seq<char>,
) -> Option<Seq<u8>> {
    if is_field_name(lower(key)) {
        first_value(lists, lower(key))
    } else {
        None
    }
}

/// What is found under a key, where that is a text.
pub open spec fn found_text(
    lists: Map<Seq<char>, Seq<Seq<u8>>>,
    key: Seq<char>,
) -> Option<Seq<char>> {
    if is_field_name(lower(key)) {
        first_text(lists, lower(key))
    } else {
        None
    }
}

/// `http::HeaderValue::to_str`: a value is handed out as a text when each of its
/// bytes is a visible ASCII character, a space or a tab, and not otherwise.
pub assume_specification[ http::HeaderValue::to_str ](value: &http::HeaderValue) -> (r: Result<
    &str,
    http::header::ToStrError,
>)
    ensures
        r is Ok <==> is_text_value(value_bytes(*value)),
        r matches Ok(text) ==> text@ == ascii_text(value_bytes(*value)),
;

/// `http::HeaderValue::from_bytes`: the bytes become a value when none of them is
/// a control byte other than the tab, and not otherwise.
pub assume_specification[ http::HeaderValue::from_bytes ](src: &[u8]) -> (r: Result<
    http::HeaderValue,
    http::header::InvalidHeaderValue,
>)
    ensures
        r is Ok <==> is_field_value(src@),
        r matches Ok(value) ==> value_bytes(value) == src@,
;

/// `http::HeaderName::from_bytes`: the bytes become a name, in lower case, when
/// they are one to 65535 token characters, and not otherwise.
pub assume_specification[ http::HeaderName::from_bytes ](src: &[u8]) -> (r: Result<
    http::HeaderName,
    http::header::InvalidHeaderName,
>)
    ensures
        r is Ok <==> is_field_name(lower(ascii_text(src@))),
        r matches Ok(name) ==> name_text(name) == lower(ascii_text(src@)),
;

/// `HeaderValue == str` of the http crate: it compares the value's bytes with the
/// bytes of the text.
#[verifier::external_body]
fn value_is(value: &http::HeaderValue, text: &str) -> (r: bool)
    ensures
        r == (value_bytes(*value) == encode_utf8(text@)),
{
    *value == *text
}

/// `http::HeaderMap::new`: the map is empty.
#[verifier::external_body]
pub(crate) fn new_headers() -> (r: http::HeaderMap<http::HeaderValue>)
    ensures
        header_lists(r) == grouped(Seq::empty()),
{
    http::HeaderMap::new()
}

/// `http::HeaderMap::get` with a text as the key: whatever the case of its letters, it
/// hands out the first value of the field name that the key is, or nothing where that
/// name has none or the key is no field name.
#[verifier::external_body]
fn header_get<'a>(map: &'a http::HeaderMap<http::HeaderValue>, name: &str) -> (r: Option<
    &'a http::HeaderValue,
>)
    ensures
        r is None ==> found_value(header_lists(*map), name@) is None,
        r is Some ==> found_value(header_lists(*map), name@) == Some(value_bytes(*r->0)),
{
    map.get(name)
}

/// `http::HeaderMap::iter`: each field once per value, the values of one name in
/// the order of its list, with the name in lower case. The order among different
/// names is left open.
#[verifier::external_body]
fn header_fields(map: &http::HeaderMap<http::HeaderValue>) -> (r: Vec<(String, Vec<u8>)>)
    ensures
        grouped(field_views(r@)) == header_lists(*map),
        forall|i: int| 0 <= i < r@.len() ==> lower((#[trigger] r@[i]).0@) == r@[i].0@,
{
    map.iter().map(|(n, v)| (n.as_str().to_string(), v.as_bytes().to_vec())).collect()
}

/// `http::HeaderMap::try_append`: the value goes to the end of the name's list. A
/// map that has become too large refuses it and keeps its fields; one with at most
/// `ROOMY` names never does.
#[verifier::external_body]
fn header_append(
    map: &mut http::HeaderMap<http::HeaderValue>,
    name: http::HeaderName,
    value: http::HeaderValue,
) -> (r: Result<bool, http::header::MaxSizeReached>)
    ensures
        r matches Ok(present) ==> {
            &&& present == header_lists(*old(map)).contains_key(name_text(name))
            &&& header_lists(*final(map)) == with_field(
                header_lists(*old(map)),
                name_text(name),
                value_bytes(value),
            )
        },
        r is Err ==> header_lists(*final(map)) == header_lists(*old(map)),
        r is Err ==> header_lists(*old(map)).dom().len() > ROOMY,
{
    map.try_append(name, value)
}

/// Why a field cannot be added to a header map.
#[derive(Clone, Copy, Debug, PartialEq, Eq, Structural)]
pub enum HeaderError {
    /// The name is no field name.
    Name,
    /// The value is no field value.
    Value,
    /// The map is full.
    Full,
}

proof fn lemma_name_bytes(name: &str)
    requires
        is_ascii_chars(name@),
    ensures
        ascii_text(name.spec_bytes()) == name@,
{
    is_ascii_chars_encode_utf8(name@);
    assert(ascii_text(name.spec_bytes()) =~= name@);
}

proof fn lemma_field_name_is_ascii(name: Seq<char>)
    requires
        is_field_name(lower(name)),
    ensures
        is_ascii_chars(name),
{
    assert forall|i: int| 0 <= i < name.len() implies '\0' <= #[trigger] name[i] <= '\u{7f}' by {
        assert(is_name_char(lower(name)[i]));
    }
}

/// Adds a field at the end of its name's list. It is refused where the name or the
/// value is not well formed, and may be where the map is large.
pub fn push_field(
    map: &mut http::HeaderMap<http::HeaderValue>,
    name: &str,
    value: &[u8],
) -> (r: Result<(), HeaderError>)
    ensures
        r is Ok ==> header_lists(*final(map)) == with_field(
            header_lists(*old(map)),
            lower(name@),
            value@,
        ),
        r is Err ==> header_lists(*final(map)) == header_lists(*old(map)),
        r == Err::<(), HeaderError>(HeaderError::Name) <==> !is_field_name(lower(name@)),
        r == Err::<(), HeaderError>(HeaderError::Value) <==> is_field_name(lower(name@))
            && !is_field_value(value@),
        r == Err::<(), HeaderError>(HeaderError::Full) ==> header_lists(*old(map)).dom().len()
            > ROOMY,
{
    if !name.is_ascii() {
        proof {
            if is_field_name(lower(name@)) {
                lemma_field_name_is_ascii(name@);
            }
        }
        return Err(HeaderError::Name);
    }
    proof {
        lemma_name_bytes(name);
    }
    match http::HeaderName::from_bytes(name.as_bytes()) {
        Ok(field_name) => match http::HeaderValue::from_bytes(value) {
            Ok(field_value) => match header_append(map, field_name, field_value) {
                Ok(_) => Ok(()),
                Err(_) => Err(HeaderError::Full),
            },
            Err(_) => Err(HeaderError::Value),
        },
        Err(_) => Err(HeaderError::Name),
    }
}

/// The first value of a name as a text.
pub fn field_text(map: &http::HeaderMap<http::HeaderValue>, name: &str) -> (r: Option<String>)
    ensures
        r is Some <==> found_text(header_lists(*map), name@) is Some,
        r matches Some(text) ==> found_text(header_lists(*map), name@) == Some(text@),
{
    match header_get(map, name) {
        Some(value) => match value.to_str() {
            Ok(text) => Some(text.to_owned()),
            Err(_) => None,
        },
        None => None,
    }
}

/// Whether the first value of a name is the given text.
pub fn field_is(map: &http::HeaderMap<http::HeaderValue>, name: &str, text: &str) -> (r: bool)
    ensures
        r == (found_value(header_lists(*map), name@) == Some(encode_utf8(text@))),
{
    match header_get(map, name) {
        Some(value) => value_is(value, text),
        None => false,
    }
}

/// The lists of a copy: all of them, or all but the one of `content-length`.
pub open spec fn copied_lists(
    lists: Map<Seq<char>, Seq<Seq<u8>>>,
    drop_length: bool,
) -> Map<Seq<char>, Seq<Seq<u8>>> {
    if drop_length {
        lists.remove("content-length"@)
    } else {
        lists
    }
}

/// The fields that a copy takes over.
spec fn kept(fields: Seq<(Seq<char>, Seq<u8>)>, drop_length: bool) -> Seq<(Seq<char>, Seq<u8>)>
    decreases fields.len(),
{
    if fields.len() == 0 {
        Seq::empty()
    } else {
        let front = kept(fields.drop_last(), drop_length);
        if drop_length && fields.last().0 == "content-length"@ {
            front
        } else {
            front.push(fields.last())
        }
    }
}

proof fn lemma_kept(fields: Seq<(Seq<char>, Seq<u8>)>, drop_length: bool)
    ensures
        grouped(kept(fields, drop_length)) == copied_lists(grouped(fields), drop_length),
    decreases fields.len(),
{
    if fields.len() > 0 {
        let front = fields.drop_last();
        lemma_kept(front, drop_length);
        let last = fields.last();
        let k = kept(front, drop_length);
        if !(drop_length && last.0 == "content-length"@) {
            assert(k.push(last).drop_last() =~= k);
        }
    }
    assert(grouped(kept(fields, drop_length)) =~= copied_lists(grouped(fields), drop_length));
}

/// Every field of the sequence is in the lists.
proof fn lemma_grouped_has(fields: Seq<(Seq<char>, Seq<u8>)>, i: int)
    requires
        0 <= i < fields.len(),
    ensures
        grouped(fields).contains_key(fields[i].0),
        grouped(fields)[fields[i].0].contains(fields[i].1),
    decreases fields.len(),
{
    let front = fields.drop_last();
    let last = fields.last();
    let name = fields[i].0;
    if i == fields.len() - 1 {
        let list = grouped(fields)[name];
        assert(list[list.len() - 1] == last.1);
    } else {
        lemma_grouped_has(front, i);
        assert(front[i] == fields[i]);
        let list = grouped(front)[name];
        let j = choose|j: int| 0 <= j < list.len() && list[j] == fields[i].1;
        assert(grouped(fields)[name][j] == fields[i].1);
    }
}

/// Adding fields never takes a name away, and there are finitely many names.
proof fn lemma_grouped_dom(fields: Seq<(Seq<char>, Seq<u8>)>, i: int)
    requires
        0 <= i <= fields.len(),
    ensures
        grouped(fields).dom().finite(),
        grouped(fields.take(i)).dom().finite(),
        grouped(fields.take(i)).dom().len() <= grouped(fields).dom().len(),
    decreases fields.len(),
{
    if i == fields.len() {
        assert(fields.take(i) =~= fields);
        if fields.len() > 0 {
            lemma_grouped_dom(fields.drop_last(), fields.len() - 1);
        }
    } else {
        lemma_grouped_dom(fields.drop_last(), i);
        assert(fields.drop_last().take(i) =~= fields.take(i));
        let small = grouped(fields.drop_last()).dom();
        assert(grouped(fields).dom() =~= small.insert(fields.last().0));
    }
}

/// Copies the fields of a map into a new one, either all of them or all but those
/// named `content-length`. The copy fails where a field to be taken over is not
/// well formed, and may fail where there are more than `ROOMY` names.
pub fn copy_headers(map: &http::HeaderMap<http::HeaderValue>, drop_length: bool) -> (r: Result<
    http::HeaderMap<http::HeaderValue>,
    HeaderError,
>)
    ensures
        r matches Ok(copy) ==> {
            &&& header_lists(copy) == copied_lists(header_lists(*map), drop_length)
            &&& well_formed(header_lists(copy))
        },
        r matches Err(e) ==> cannot_copy(copied_lists(header_lists(*map), drop_length), e),
{
    let fields = header_fields(map);
    let ghost views = field_views(fields@);
    let ghost target = kept(views, drop_length);
    proof {
        lemma_kept(views, drop_length);
        reveal_strlit("content-length");
        assert(lower("content-length"@) =~= "content-length"@);
    }
    let mut copy = new_headers();
    let mut i: usize = 0;
    assert(views.take(0) =~= Seq::empty());
    while i < fields.len()
        invariant
            i <= fields@.len(),
            views == field_views(fields@),
            target == kept(views, drop_length),
            grouped(target) == copied_lists(header_lists(*map), drop_length),
            header_lists(copy) == grouped(kept(views.take(i as int), drop_length)),
            well_formed(header_lists(copy)),
            lower("content-length"@) == "content-length"@,
            forall|k: int| 0 <= k < fields@.len() ==> lower((#[trigger] fields@[k]).0@)
                == fields@[k].0@,
        decreases fields@.len() - i,
    {
        let ghost now = kept(views.take(i as int), drop_length);
        proof {
            assert(views.take(i + 1).drop_last() =~= views.take(i as int));
            assert(views.take(i + 1).last() == views[i as int]);
            lemma_kept_take(views, drop_length, i + 1);
        }
        let field = &fields[i];
        if !(drop_length && same_text_ignoring_case(field.0.as_str(), "content-length")) {
            let ghost next = now.push(views[i as int]);
            let ghost place = next.len() - 1;
            proof {
                assert(next.drop_last() =~= now);
                assert(next == target.take(next.len() as int));
                assert(target[place] == next[place]);
                lemma_grouped_has(target, place);
                lemma_grouped_dom(target, place);
                assert(target.take(place) =~= now);
            }
            match push_field(&mut copy, field.0.as_str(), field.1.as_slice()) {
                Ok(_) => {
                    proof {
                        lemma_still_well_formed(
                            grouped(now),
                            views[i as int].0,
                            views[i as int].1,
                        );
                    }
                },
                Err(e) => {
                    proof {
                        let list = grouped(target)[views[i as int].0];
                        let j = choose|j: int| 0 <= j < list.len() && list[j] == views[i as int].1;
                        assert(is_field_value(list[j]) <==> is_field_value(field.1@));
                        assert(grouped(target).contains_key(field.0@));
                    }
                    return Err(e);
                },
            }
        }
        i = i + 1;
    }
    assert(views.take(i as int) =~= views);
    Ok(copy)
}

proof fn lemma_still_well_formed(
    lists: Map<Seq<char>, Seq<Seq<u8>>>,
    name: Seq<char>,
    value: Seq<u8>,
)
    requires
        well_formed(lists),
        is_field_name(name),
        is_field_value(value),
    ensures
        well_formed(with_field(lists, name, value)),
{
    let next = with_field(lists, name, value);
    assert forall|n: Seq<char>| #[trigger] next.contains_key(n) implies is_field_name(n)
        && forall|i: int| 0 <= i < next[n].len() ==> is_field_value(#[trigger] next[n][i]) by {
        if n != name {
            assert(lists.contains_key(n));
        } else if lists.contains_key(n) {
            assert forall|i: int| 0 <= i < next[n].len() implies is_field_value(
                #[trigger] next[n][i],
            ) by {
                if i < lists[n].len() {
                    assert(next[n][i] == lists[n][i]);
                }
            }
        }
    }
}

/// What is kept of the first fields is a first part of what is kept of all.
proof fn lemma_kept_take(fields: Seq<(Seq<char>, Seq<u8>)>, drop_length: bool, i: int)
    requires
        0 <= i <= fields.len(),
    ensures
        kept(fields.take(i), drop_length).len() <= kept(fields, drop_length).len(),
        kept(fields.take(i), drop_length) == kept(fields, drop_length).take(
            kept(fields.take(i), drop_length).len() as int,
        ),
    decreases fields.len(),
{
    if i == fields.len() {
        assert(fields.take(i) =~= fields);
        assert(kept(fields, drop_length).take(kept(fields, drop_length).len() as int) =~= kept(
            fields,
            drop_length,
        ));
    } else {
        lemma_kept_take(fields.drop_last(), drop_length, i);
        assert(fields.drop_last().take(i) =~= fields.take(i));
        let part = kept(fields.take(i), drop_length);
        let front = kept(fields.drop_last(), drop_length);
        assert(front.take(part.len() as int) =~= kept(fields, drop_length).take(part.len() as int));
    }
}

/// A copy has all of the fields, in their order, or all but those of `content-length`, and
/// it can only fail for a name that is no field name, for a value that is no field value, or
/// for more than 6553 names.
pub proof fn law_copied_lists(
    lists: Map<Seq<char>, Seq<Seq<u8>>>,
    drop_length: bool,
    name: Seq<char>,
    e: HeaderError,
)
    ensures
        copied_lists(lists, drop_length).contains_key(name) <==> lists.contains_key(name) && !(
        drop_length && name == "content-length"@),
        copied_lists(lists, drop_length).contains_key(name) ==> copied_lists(
            lists,
            drop_length,
        )[name] == lists[name],
        cannot_copy(lists, e) ==> {
            ||| lists.dom().len() > 6553
            ||| exists|n: Seq<char>| #[trigger] lists.contains_key(n) && !is_field_name(n)
            ||| exists|n: Seq<char>, i: int|
                #![trigger lists[n][i]]
                lists.contains_key(n) && 0 <= i < lists[n].len() && !is_field_value(lists[n][i])
        },
{
}

/// What is found under a key does not hang on the case of its letters, and it is the first
/// value of the name that the key is in lower case; as a text it is found when each byte of
/// it is a visible ASCII character, a space or a tab, character by character.
pub proof fn law_found(
    lists: Map<Seq<char>, Seq<Seq<u8>>>,
    key: Seq<char>,
    other: Seq<char>,
    text: Seq<char>,
)
    requires
        is_field_name(lower(key)),
        lower(other) == lower(key),
    ensures
        found_value(lists, other) == found_value(lists, key),
        found_text(lists, other) == found_text(lists, key),
        !lists.contains_key(lower(key)) ==> found_value(lists, key) is None && found_text(
            lists,
            key,
        ) is None,
        lists.contains_key(lower(key)) ==> found_value(lists, key) == Some(lists[lower(key)][0]),
        lists.contains_key(lower(key)) ==> (found_text(lists, key) == Some(text) <==> {
            &&& lists[lower(key)][0].len() == text.len()
            &&& forall|i: int|
                0 <= i < text.len() ==> (#[trigger] text[i] == '\t' || (' ' <= text[i] && text[i]
                    <= '~')) && lists[lower(key)][0][i] as char == text[i]
        }),
{
    if lists.contains_key(lower(key)) {
        let value = lists[lower(key)][0];
        if found_text(lists, key) == Some(text) {
            assert forall|i: int| 0 <= i < text.len() implies (#[trigger] text[i] == '\t' || (' '
                <= text[i] && text[i] <= '~')) && value[i] as char == text[i] by {
                assert(is_text_byte(value[i]));
                assert(text[i] == ascii_text(value)[i]);
            }
        }
        if value.len() == text.len() && (forall|i: int|
            0 <= i < text.len() ==> (#[trigger] text[i] == '\t' || (' ' <= text[i] && text[i]
                <= '~')) && value[i] as char == text[i]) {
            assert forall|i: int| 0 <= i < value.len() implies is_text_byte(#[trigger] value[i]) by {
                assert(value[i] as char == text[i]);
            }
            assert(ascii_text(value) =~= text);
        }
    }
}

} // verus!
