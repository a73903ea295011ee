//! A header list with the operations of `http::HeaderMap`: looking up the
//! first value of a name, removing every value of a name, and inserting a
//! value that replaces all earlier ones.

use vstd::prelude::*;

use crate::http_rules::{header_views, Header};
use crate::text::str_eq;

verus! {

pub type HeaderSeq = Seq<(Seq<char>, Seq<u8>)>;

/// The position of the first header named `name`.
pub open spec fn first_header_index(headers: HeaderSeq, name: Seq<char>) -> Option<int>
    decreases headers.len(),
{
    if headers.len() == 0 {
        None
    } else {
        match first_header_index(headers.drop_last(), name) {
            Some(i) => Some(i),
            None => if headers.last().0 == name {
                Some(headers.len() - 1)
            } else {
                None
            },
        }
    }
}

/// `HeaderMap::get`: the first value of `name`.
pub open spec fn header_get(headers: HeaderSeq, name: Seq<char>) -> Option<Seq<u8>> {
    match first_header_index(headers, name) {
        Some(i) => Some(headers[i].1),
        None => None,
    }
}

/// `HeaderMap::remove`: every value of `name` removed, the rest in order.
pub open spec fn header_removed(headers: HeaderSeq, name: Seq<char>) -> HeaderSeq
    decreases headers.len(),
{
    if headers.len() == 0 {
        headers
    } else if headers.last().0 == name {
        header_removed(headers.drop_last(), name)
    } else {
        header_removed(headers.drop_last(), name).push(headers.last())
    }
}

/// The headers with the one at `first` given `value` and every other
/// header named `name` removed.
pub open spec fn header_collapsed(headers: HeaderSeq, name: Seq<char>, value: Seq<u8>, first: int) -> HeaderSeq
    decreases headers.len(),
{
    if headers.len() == 0 {
        headers
    } else {
        let rest = header_collapsed(headers.drop_last(), name, value, first);
        let last = headers.len() - 1;
        if headers.last().0 != name {
            rest.push(headers.last())
        } else if last == first {
            rest.push((name, value))
        } else {
            rest
        }
    }
}

/// `HeaderMap::insert`: the value takes the place of the first header of
/// that name and the other values of the name are dropped; a new name is
/// appended.
pub open spec fn header_inserted(headers: HeaderSeq, name: Seq<char>, value: Seq<u8>) -> HeaderSeq {
    match first_header_index(headers, name) {
        Some(first) => header_collapsed(headers, name, value, first),
        None => headers.push((name, value)),
    }
}

/// The first value of a name after one more header is appended.
proof fn lemma_get_push(headers: HeaderSeq, header: (Seq<char>, Seq<u8>), name: Seq<char>)
    ensures
        header_get(headers.push(header), name) == match header_get(headers, name) {
            Some(value) => Some(value),
            None => if header.0 == name {
                Some(header.1)
            } else {
                None
            },
        },
{
    let pushed = headers.push(header);
    assert(pushed.drop_last() =~= headers);
    assert(pushed.last() == header);
    match first_header_index(headers, name) {
        Some(i) => {
            lemma_first_header_index_bounds(headers, name);
            assert(pushed[i] == headers[i]);
        },
        None => {},
    }
}

proof fn lemma_first_header_index_bounds(headers: HeaderSeq, name: Seq<char>)
    ensures
        first_header_index(headers, name) matches Some(i) ==> 0 <= i < headers.len() && headers[i].0 == name,
    decreases headers.len(),
{
    if headers.len() > 0 {
        lemma_first_header_index_bounds(headers.drop_last(), name);
        match first_header_index(headers.drop_last(), name) {
            Some(i) => {
                assert(headers.drop_last()[i] == headers[i]);
            },
            None => {},
        }
    }
}

/// Removing the values of one name leaves the first value of every other
/// name as it was.
pub proof fn lemma_get_after_remove(headers: HeaderSeq, removed: Seq<char>, name: Seq<char>)
    requires
        removed != name,
    ensures
        header_get(header_removed(headers, removed), name) == header_get(headers, name),
    decreases headers.len(),
{
    if headers.len() > 0 {
        let rest = headers.drop_last();
        lemma_get_after_remove(rest, removed, name);
        assert(rest.push(headers.last()) =~= headers);
        lemma_get_push(rest, headers.last(), name);
        if headers.last().0 != removed {
            lemma_get_push(header_removed(rest, removed), headers.last(), name);
        }
    }
}

proof fn lemma_get_after_collapse(headers: HeaderSeq, collapsed: Seq<char>, value: Seq<u8>, first: int, name: Seq<char>)
    requires
        collapsed != name,
    ensures
        header_get(header_collapsed(headers, collapsed, value, first), name) == header_get(headers, name),
    decreases headers.len(),
{
    if headers.len() > 0 {
        let rest = headers.drop_last();
        lemma_get_after_collapse(rest, collapsed, value, first, name);
        assert(rest.push(headers.last()) =~= headers);
        lemma_get_push(rest, headers.last(), name);
        let before = header_collapsed(rest, collapsed, value, first);
        if headers.last().0 != collapsed {
            lemma_get_push(before, headers.last(), name);
        } else if headers.len() - 1 == first {
            lemma_get_push(before, (collapsed, value), name);
        }
    }
}

/// Inserting a value of one name leaves the first value of every other
/// name as it was.
pub proof fn lemma_get_after_insert_other(headers: HeaderSeq, inserted: Seq<char>, value: Seq<u8>, name: Seq<char>)
    requires
        inserted != name,
    ensures
        header_get(header_inserted(headers, inserted, value), name) == header_get(headers, name),
{
    match first_header_index(headers, inserted) {
        Some(first) => lemma_get_after_collapse(headers, inserted, value, first, name),
        None => lemma_get_push(headers, (inserted, value), name),
    }
}

proof fn lemma_collapse_before_first(headers: HeaderSeq, name: Seq<char>, value: Seq<u8>, first: int)
    requires
        first_header_index(headers, name) is None,
    ensures
        header_get(header_collapsed(headers, name, value, first), name) is None,
    decreases headers.len(),
{
    if headers.len() > 0 {
        let rest = headers.drop_last();
        assert(first_header_index(rest, name) is None);
        assert(headers.last().0 != name);
        lemma_collapse_before_first(rest, name, value, first);
        lemma_get_push(header_collapsed(rest, name, value, first), headers.last(), name);
    }
}

proof fn lemma_collapse_from_first(headers: HeaderSeq, name: Seq<char>, value: Seq<u8>, first: int)
    requires
        first_header_index(headers, name) == Some(first),
    ensures
        header_get(header_collapsed(headers, name, value, first), name) == Some(value),
    decreases headers.len(),
{
    lemma_first_header_index_bounds(headers, name);
    let rest = headers.drop_last();
    let before = header_collapsed(rest, name, value, first);
    if first < headers.len() - 1 {
        assert(first_header_index(rest, name) == Some(first));
        lemma_collapse_from_first(rest, name, value, first);
        if headers.last().0 != name {
            lemma_get_push(before, headers.last(), name);
        }
    } else {
        lemma_first_header_index_bounds(rest, name);
        assert(first_header_index(rest, name) is None);
        lemma_collapse_before_first(rest, name, value, first);
        lemma_get_push(before, (name, value), name);
    }
}

/// After an insert the first value of the name is the inserted one.
pub proof fn lemma_get_after_insert(headers: HeaderSeq, name: Seq<char>, value: Seq<u8>)
    ensures
        header_get(header_inserted(headers, name, value), name) == Some(value),
{
    match first_header_index(headers, name) {
        Some(first) => lemma_collapse_from_first(headers, name, value, first),
        None => lemma_get_push(headers, (name, value), name),
    }
}


proof fn lemma_first_header_index(headers: HeaderSeq, name: Seq<char>, k: int)
    requires
        0 <= k <= headers.len(),
        forall|i: int| 0 <= i < k ==> (#[trigger] headers[i]).0 != name,
    ensures
        k < headers.len() && headers[k].0 == name ==> first_header_index(headers, name) == Some(k),
        k == headers.len() ==> first_header_index(headers, name) is None,
    decreases headers.len(),
{
    if headers.len() > 0 {
        let rest = headers.drop_last();
        if k < headers.len() {
            if k < rest.len() {
                assert forall|i: int| 0 <= i < k implies (#[trigger] rest[i]).0 != name by {
                    assert(rest[i] == headers[i]);
                }
                lemma_first_header_index(rest, name, k);
                assert(rest[k] == headers[k]);
            } else {
                assert forall|i: int| 0 <= i < rest.len() implies (#[trigger] rest[i]).0 != name by {
                    assert(rest[i] == headers[i]);
                }
                lemma_first_header_index(rest, name, rest.len() as int);
                assert(headers.last() == headers[k]);
            }
        } else {
            assert forall|i: int| 0 <= i < rest.len() implies (#[trigger] rest[i]).0 != name by {
                assert(rest[i] == headers[i]);
            }
            lemma_first_header_index(rest, name, rest.len() as int);
            assert(headers.last() == headers[headers.len() - 1]);
        }
    }
}

/// The position of the first header named `name`.
pub fn find_header(headers: &Vec<Header>, name: &str) -> (found: Option<usize>)
    ensures
        match found {
            Some(index) => index < headers@.len() && first_header_index(header_views(headers@), name@) == Some(
                index as int,
            ),
            None => first_header_index(header_views(headers@), name@) is None,
        },
{
    let ghost views = header_views(headers@);
    let mut index: usize = 0;
    while index < headers.len()
        invariant
            index <= headers@.len(),
            views == header_views(headers@),
            forall|i: int| 0 <= i < index ==> (#[trigger] views[i]).0 != name@,
        decreases headers@.len() - index,
    {
        assert(views[index as int] == headers@[index as int]@);
        if str_eq(headers[index].name.as_str(), name) {
            proof {
                lemma_first_header_index(views, name@, index as int);
            }
            return Some(index);
        }
        index += 1;
    }
    proof {
        lemma_first_header_index(views, name@, views.len() as int);
    }
    None
}

/// `HeaderMap::get`: the first value of `name`.
pub fn get_header<'a>(headers: &'a Vec<Header>, name: &str) -> (value: Option<&'a Vec<u8>>)
    ensures
        match value {
            Some(value) => header_get(header_views(headers@), name@) == Some(value@),
            None => header_get(header_views(headers@), name@) is None,
        },
{
    match find_header(headers, name) {
        Some(index) => {
            assert(header_views(headers@)[index as int] == headers@[index as int]@);
            Some(&headers[index].value)
        },
        None => None,
    }
}

fn copy_bytes(bytes: &Vec<u8>) -> (copy: Vec<u8>)
    ensures
        copy@ == bytes@,
{
    let mut copy: Vec<u8> = Vec::new();
    let mut index: usize = 0;
    while index < bytes.len()
        invariant
            index <= bytes@.len(),
            copy@ == bytes@.take(index as int),
        decreases bytes@.len() - index,
    {
        copy.push(bytes[index]);
        assert(copy@ =~= bytes@.take(index + 1));
        index += 1;
    }
    assert(bytes@.take(bytes@.len() as int) =~= bytes@);
    copy
}

/// `HeaderMap::remove`: removes every value of `name`.
pub fn remove_header(headers: &mut Vec<Header>, name: &str)
    ensures
        header_views(final(headers)@) == header_removed(header_views(old(headers)@), name@),
{
    let mut source: Vec<Header> = Vec::new();
    std::mem::swap(&mut source, headers);
    let ghost views = header_views(source@);
    let mut index: usize = 0;
    assert(views.take(0) =~= Seq::<(Seq<char>, Seq<u8>)>::empty());
    assert(header_views(headers@) =~= Seq::<(Seq<char>, Seq<u8>)>::empty());
    while index < source.len()
        invariant
            index <= source@.len(),
            views == header_views(source@),
            header_views(headers@) == header_removed(views.take(index as int), name@),
        decreases source@.len() - index,
    {
        proof {
            assert(views.take(index + 1).drop_last() =~= views.take(index as int));
            assert(views.take(index + 1).last() == source@[index as int]@);
        }
        if !str_eq(source[index].name.as_str(), name) {
            let ghost before = header_views(headers@);
            let copy = Header { name: source[index].name.clone(), value: copy_bytes(&source[index].value) };
            headers.push(copy);
            assert(header_views(headers@) =~= before.push(source@[index as int]@));
        }
        index += 1;
    }
    assert(views.take(source@.len() as int) =~= views);
}

/// `HeaderMap::insert`: `value` replaces every earlier value of `name`,
/// in the place of the first; a new name is appended.
pub fn insert_header(headers: &mut Vec<Header>, name: &str, value: Vec<u8>)
    ensures
        header_views(final(headers)@) == header_inserted(header_views(old(headers)@), name@, value@),
{
    let first = match find_header(headers, name) {
        Some(first) => first,
        None => {
            let ghost before = header_views(headers@);
            headers.push(Header { name: name.to_owned(), value });
            assert(header_views(headers@) =~= before.push((name@, value@)));
            return;
        },
    };
    let mut source: Vec<Header> = Vec::new();
    std::mem::swap(&mut source, headers);
    let ghost views = header_views(source@);
    let mut index: usize = 0;
    let mut replacement = Some(value);
    let ghost value_view = value@;
    assert(views.take(0) =~= Seq::<(Seq<char>, Seq<u8>)>::empty());
    assert(header_views(headers@) =~= Seq::<(Seq<char>, Seq<u8>)>::empty());
    while index < source.len()
        invariant
            index <= source@.len(),
            first < source@.len(),
            views == header_views(source@),
            header_views(headers@) == header_collapsed(views.take(index as int), name@, value_view, first as int),
            index <= first ==> replacement == Some(value) && replacement->0@ == value_view,
            replacement matches Some(v) ==> v@ == value_view,
        decreases source@.len() - index,
    {
        proof {
            assert(views.take(index + 1).drop_last() =~= views.take(index as int));
            assert(views.take(index + 1).last() == source@[index as int]@);
        }
        let ghost before = header_views(headers@);
        if !str_eq(source[index].name.as_str(), name) {
            let copy = Header { name: source[index].name.clone(), value: copy_bytes(&source[index].value) };
            headers.push(copy);
            assert(header_views(headers@) =~= before.push(source@[index as int]@));
        } else if index == first {
            let mut taken = None;
            std::mem::swap(&mut taken, &mut replacement);
            match taken {
                Some(v) => {
                    headers.push(Header { name: name.to_owned(), value: v });
                    assert(header_views(headers@) =~= before.push((name@, value_view)));
                },
                None => {},
            }
        }
        index += 1;
    }
    assert(views.take(source@.len() as int) =~= views);
}

/// Whether a byte may appear in a header value (`HeaderValue::from_str`):
/// a tab or any byte from 32 up except DEL.
pub open spec fn header_value_byte(b: u8) -> bool {
    (b >= 32 && b != 127) || b == 9
}

/// Whether a byte is visible ASCII (`HeaderValue::to_str`): a tab or a
/// byte from 32 to 126.
pub open spec fn visible_ascii_byte(b: u8) -> bool {
    (b >= 32 && b < 127) || b == 9
}

/// Whether `HeaderValue::from_str` accepts a text.
pub open spec fn header_value_text_valid(text: Seq<char>) -> bool {
    forall|i: int|
        0 <= i < vstd::utf8::encode_utf8(text).len() ==> header_value_byte(
            #[trigger] vstd::utf8::encode_utf8(text)[i],
        )
}

/// Builds a header value from a text with
/// `reqwest::header::HeaderValue::from_str`, which accepts exactly the
/// texts whose bytes are tabs or lie from 32 up except DEL, and keeps
/// those bytes.
#[verifier::external_body]
pub(crate) fn header_value_from_text(text: &str) -> (value: Option<Vec<u8>>)
    ensures
        match value {
            Some(bytes) => header_value_text_valid(text@) && bytes@ == vstd::utf8::encode_utf8(text@),
            None => !header_value_text_valid(text@),
        },
{
    reqwest::header::HeaderValue::from_str(text).ok().map(|value| value.as_bytes().to_vec())
}

} // verus!
