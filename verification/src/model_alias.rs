//! A JSON request body sent under the upstream name of the model a client
//! asked for.

use vstd::prelude::*;

use crate::json::{compact_json, compact_json_text, json_view, parse_json, parsed_json, Json, JsonView};
use crate::proxy_error::{plain_error, ProxyError};
use crate::text::str_eq;

verus! {

/// The position of the first member named `key`.
pub open spec fn member_index(members: Seq<(Seq<char>, JsonView)>, key: Seq<char>) -> Option<int>
    decreases members.len(),
{
    if members.len() == 0 {
        None
    } else {
        match member_index(members.drop_last(), key) {
            Some(index) => Some(index),
            None => if members.last().0 == key {
                Some(members.len() - 1)
            } else {
                None
            },
        }
    }
}

/// The members with `key` set to `value`: the first member of that name
/// takes the value, or the member is added at the end.
pub open spec fn set_member(members: Seq<(Seq<char>, JsonView)>, key: Seq<char>, value: JsonView) -> Seq<
    (Seq<char>, JsonView),
> {
    match member_index(members, key) {
        Some(index) => members.update(index, (key, value)),
        None => members.push((key, value)),
    }
}

/// The body a request under a model alias is sent with: unchanged when the
/// client already named the upstream model; otherwise the JSON object with
/// `model` set to the upstream model, written again. A body that is not a
/// JSON object is refused.
pub open spec fn model_alias_spec(body: Seq<u8>, client_model: Seq<char>, upstream_model: Seq<char>) -> Result<
    Seq<u8>,
    (),
> {
    if client_model == upstream_model {
        Ok(body)
    } else {
        match parsed_json(body) {
            Some(parsed) => match json_view(parsed) {
                JsonView::Object(members) => Ok(
                    compact_json_text(JsonView::Object(set_member(members, "model"@, JsonView::Str(upstream_model)))),
                ),
                _ => Err(()),
            },
            None => Err(()),
        }
    }
}

proof fn lemma_member_index_prefix(members: Seq<(Seq<char>, JsonView)>, key: Seq<char>, n: int)
    requires
        0 <= n < members.len(),
    ensures
        member_index(members.take(n + 1), key) == match member_index(members.take(n), key) {
            Some(index) => Some(index),
            None => if members[n].0 == key {
                Some(n)
            } else {
                None
            },
        },
{
    assert(members.take(n + 1).drop_last() =~= members.take(n));
}

proof fn lemma_member_index_bounds(members: Seq<(Seq<char>, JsonView)>, key: Seq<char>)
    ensures
        match member_index(members, key) {
            Some(index) => 0 <= index < members.len() && members[index].0 == key,
            None => true,
        },
    decreases members.len(),
{
    if members.len() > 0 {
        lemma_member_index_bounds(members.drop_last(), key);
    }
}

fn set_model(members: Vec<(String, Json)>, upstream_model: &str) -> (updated: Vec<(String, Json)>)
    ensures
        json_view(Json::Object(updated)) == JsonView::Object(
            set_member(
                match json_view(Json::Object(members)) {
                    JsonView::Object(views) => views,
                    _ => Seq::empty(),
                },
                "model"@,
                JsonView::Str(upstream_model@),
            ),
        ),
{
    let ghost views = match json_view(Json::Object(members)) {
        JsonView::Object(views) => views,
        _ => Seq::empty(),
    };
    assert(views.len() == members@.len());
    assert forall|i: int| 0 <= i < members@.len() implies #[trigger] views[i] == (
        members@[i].0@,
        json_view(members@[i].1),
    ) by {}
    assert(views.take(members@.len() as int) =~= views);
    let mut index: usize = 0;
    let mut found = false;
    while index < members.len()
        invariant_except_break
            index <= members@.len(),
            !found,
            views.len() == members@.len(),
            forall|i: int| 0 <= i < members@.len() ==> #[trigger] views[i] == (members@[i].0@, json_view(members@[i].1)),
            member_index(views.take(index as int), "model"@) is None,
            views.take(members@.len() as int) == views,
        ensures
            index <= members@.len(),
            found ==> index < members@.len() && member_index(views, "model"@) == Some(index as int),
            !found ==> member_index(views, "model"@) is None,
        decreases members@.len() - index,
    {
        proof {
            lemma_member_index_prefix(views, "model"@, index as int);
        }
        if str_eq(members[index].0.as_str(), "model") {
            proof {
                lemma_member_index_monotone(views, "model"@, index + 1);
            }
            found = true;
            break;
        }
        index += 1;
    }
    proof {
        if !found {
            assert(views.take(members@.len() as int) =~= views);
        }
    }
    let mut updated = members;
    let ghost before = updated@;
    let key = "model".to_owned();
    let value = Json::Str(upstream_model.to_owned());
    let ghost entry = (key@, json_view(value));
    assert(entry == ("model"@, JsonView::Str(upstream_model@)));
    proof {
        lemma_member_index_bounds(views, "model"@);
    }
    if found {
        updated.set(index, (key, value));
    } else {
        updated.push((key, value));
    }
    proof {
        reveal_strlit("model");
        let target = set_member(views, "model"@, JsonView::Str(upstream_model@));
        let result = match json_view(Json::Object(updated)) {
            JsonView::Object(result) => result,
            _ => Seq::empty(),
        };
        assert(result.len() == target.len());
        assert forall|i: int| 0 <= i < result.len() implies result[i] == target[i] by {
            if i < before.len() && !(found && i == index) {
                assert(updated@[i] == before[i]);
                assert(result[i] == views[i]);
            } else {
                assert(updated@[i] == (key, value));
                assert(result[i] == entry);
            }
        }
        assert(result =~= target);
    }
    updated
}

proof fn lemma_member_index_monotone(members: Seq<(Seq<char>, JsonView)>, key: Seq<char>, n: int)
    requires
        0 <= n <= members.len(),
        member_index(members.take(n), key) is Some,
    ensures
        member_index(members, key) == member_index(members.take(n), key),
    decreases members.len() - n,
{
    if n < members.len() {
        lemma_member_index_prefix(members, key, n);
        lemma_member_index_monotone(members, key, n + 1);
    } else {
        assert(members.take(n) =~= members);
    }
}

/// The request body under the upstream model.
pub fn rewrite_model_alias(original_body: Vec<u8>, client_model: &str, upstream_model: &str) -> (body: Result<
    Vec<u8>,
    ProxyError,
>)
    ensures
        match body {
            Ok(body) => model_alias_spec(original_body@, client_model@, upstream_model@) == Ok::<Seq<u8>, ()>(body@),
            Err(error) => model_alias_spec(original_body@, client_model@, upstream_model@) is Err && error@
                == plain_error(
                400,
                "Request body must contain a JSON object."@,
                "invalid_request_error"@,
                Some("model"@),
                Some("invalid_request"@),
            ),
        },
{
    if str_eq(client_model, upstream_model) {
        return Ok(original_body);
    }
    let parsed = parse_json(original_body.as_slice());
    match parsed {
        Some(Json::Object(members)) => {
            let updated = set_model(members, upstream_model);
            let value = Json::Object(updated);
            Ok(compact_json(&value))
        },
        _ => Err(ProxyError::invalid_request("Request body must contain a JSON object.", "model")),
    }
}

} // verus!
