//! Entities and envelope decoding: a response body is parsed JSON in an
//! envelope `{"data": ...}`; the entity object inside is split into the
//! two implicit fields, the declared fields, and the side map of
//! undeclared fields, which round-trips through re-encoding.

use vstd::prelude::*;

use crate::json::{parse_json, parsed_json, JsonValue};
use crate::models::{is_implicit_name, own_names, Descriptor};
use crate::text::{contains_name, str_eq};

verus! {

/// The three failure kinds a caller of this library can meet, kept
/// apart so a caller can decide to retry or abort. The decoding layer
/// itself only ever reports `Decode`.
#[derive(Debug, Clone, Copy, PartialEq, Eq, Structural)]
pub enum ApiError {
    Config,
    Transport,
    Decode,
}

/// One decoded entity: the two implicit fields, the declared fields
/// present in the response in response order, and the side map of
/// undeclared fields, kept rather than dropped.
#[derive(Debug, PartialEq, Eq)]
pub struct Entity {
    pub gid: String,
    pub resource_type: String,
    pub fields: Vec<(String, JsonValue)>,
    pub extra: Vec<(String, JsonValue)>,
}

/// The mathematical shape of a decoded entity.
pub struct EntityView {
    pub gid: Seq<char>,
    pub resource_type: Seq<char>,
    pub fields: Seq<(String, JsonValue)>,
    pub extra: Seq<(String, JsonValue)>,
}

impl View for Entity {
    type V = EntityView;

    open spec fn view(&self) -> EntityView {
        EntityView {
            gid: self.gid@,
            resource_type: self.resource_type@,
            fields: self.fields@,
            extra: self.extra@,
        }
    }
}

/// The value of the first entry of `es` whose key holds the characters
/// of `k`, if any.
pub open spec fn find_key(es: Seq<(String, JsonValue)>, k: Seq<char>) -> Option<JsonValue>
    decreases es.len(),
{
    if es.len() == 0 {
        None
    } else {
        match find_key(es.drop_last(), k) {
            Some(v) => Some(v),
            None => {
                if es.last().0@ == k {
                    Some(es.last().1)
                } else {
                    None
                }
            },
        }
    }
}

/// The entries of `es` whose key is declared in `own`, in order; the two
/// implicit names never count as declared.
pub open spec fn declared_entries(es: Seq<(String, JsonValue)>, own: Seq<Seq<char>>) -> Seq<
    (String, JsonValue),
> {
    es.filter(|p: (String, JsonValue)| !is_implicit_name(p.0@) && own.contains(p.0@))
}

/// The entries of `es` whose key is neither implicit nor declared, in
/// order: the side map.
pub open spec fn extra_entries(es: Seq<(String, JsonValue)>, own: Seq<Seq<char>>) -> Seq<
    (String, JsonValue),
> {
    es.filter(|p: (String, JsonValue)| !is_implicit_name(p.0@) && !own.contains(p.0@))
}

/// Decoding one entity object: both implicit fields must be present as
/// strings; every other entry lands among the declared fields or in the
/// side map.
pub open spec fn decode_obj(es: Seq<(String, JsonValue)>, own: Seq<Seq<char>>) -> Option<
    EntityView,
> {
    match (find_key(es, "gid"@), find_key(es, "resource_type"@)) {
        (Some(JsonValue::Str(g)), Some(JsonValue::Str(t))) => Some(
            EntityView {
                gid: g@,
                resource_type: t@,
                fields: declared_entries(es, own),
                extra: extra_entries(es, own),
            },
        ),
        _ => None,
    }
}

/// Looking one entry further extends a key search by that entry.
proof fn lemma_find_key_step(es: Seq<(String, JsonValue)>, k: Seq<char>, i: int)
    requires
        0 <= i < es.len(),
    ensures
        find_key(es.take(i + 1), k) == (match find_key(es.take(i), k) {
            Some(v) => Some(v),
            None => {
                if es[i].0@ == k {
                    Some(es[i].1)
                } else {
                    None
                }
            },
        }),
{
    assert(es.take(i + 1).drop_last() =~= es.take(i));
    assert(es.take(i + 1).last() == es[i]);
}

/// Looking one entry further extends the declared/side-map split by that
/// entry.
proof fn lemma_split_step(es: Seq<(String, JsonValue)>, own: Seq<Seq<char>>, i: int)
    requires
        0 <= i < es.len(),
    ensures
        declared_entries(es.take(i + 1), own) == (if !is_implicit_name(es[i].0@) && own.contains(
            es[i].0@,
        ) {
            declared_entries(es.take(i), own).push(es[i])
        } else {
            declared_entries(es.take(i), own)
        }),
        extra_entries(es.take(i + 1), own) == (if !is_implicit_name(es[i].0@) && !own.contains(
            es[i].0@,
        ) {
            extra_entries(es.take(i), own).push(es[i])
        } else {
            extra_entries(es.take(i), own)
        }),
{
    reveal(Seq::filter);
    assert(es.take(i + 1).drop_last() =~= es.take(i));
    assert(es.take(i + 1).last() == es[i]);
}

/// A found prefix answer is the whole sequence's answer.
proof fn lemma_find_key_prefix_stable(es: Seq<(String, JsonValue)>, k: Seq<char>, i: int)
    requires
        0 <= i <= es.len(),
        find_key(es.take(i), k) is Some,
    ensures
        find_key(es, k) == find_key(es.take(i), k),
    decreases es.len() - i,
{
    if i == es.len() {
        assert(es.take(i) =~= es);
    } else {
        lemma_find_key_step(es, k, i);
        lemma_find_key_prefix_stable(es, k, i + 1);
    }
}

/// Splits one entity object into an entity, draining the entry list: the
/// implicit fields must be present as strings; declared entries and
/// undeclared entries are kept apart, each in response order.
pub fn decode_entity(entries: &mut Vec<(String, JsonValue)>, d: &Descriptor) -> (r: Option<Entity>)
    ensures
        r matches Some(e) ==> decode_obj(old(entries)@, own_names(*d)) == Some(e@),
        (r is Some) == (decode_obj(old(entries)@, own_names(*d)) is Some),
{
    let ghost es0 = entries@;
    let ghost own = own_names(*d);
    let mut gid_slot: Option<String> = None;
    let mut rt_slot: Option<String> = None;
    let mut fields: Vec<(String, JsonValue)> = Vec::new();
    let mut extra: Vec<(String, JsonValue)> = Vec::new();
    let ghost mut i: int = 0;
    while entries.len() > 0
        invariant
            es0 == old(entries)@,
            own == own_names(*d),
            0 <= i <= es0.len(),
            entries@ == es0.skip(i),
            gid_slot matches Some(g) ==> find_key(es0.take(i), "gid"@) == Some(JsonValue::Str(g)),
            gid_slot is None ==> find_key(es0.take(i), "gid"@) is None,
            rt_slot matches Some(t) ==> find_key(es0.take(i), "resource_type"@) == Some(
                JsonValue::Str(t),
            ),
            rt_slot is None ==> find_key(es0.take(i), "resource_type"@) is None,
            fields@ == declared_entries(es0.take(i), own),
            extra@ == extra_entries(es0.take(i), own),
        decreases entries@.len(),
    {
        proof {
            assert(es0.skip(i)[0] == es0[i]);
        }
        let (k, v) = entries.remove(0);
        proof {
            assert(entries@ =~= es0.skip(i + 1));
        }
        if str_eq(k.as_str(), "gid") {
            if gid_slot.is_none() {
                match v {
                    JsonValue::Str(s) => {
                        gid_slot = Some(s);
                    },
                    _ => {
                        proof {
                            lemma_find_key_step(es0, "gid"@, i);
                            lemma_find_key_prefix_stable(es0, "gid"@, i + 1);
                            assert(decode_obj(es0, own) is None);
                        }
                        return None;
                    },
                }
            }
        } else if str_eq(k.as_str(), "resource_type") {
            if rt_slot.is_none() {
                match v {
                    JsonValue::Str(s) => {
                        rt_slot = Some(s);
                    },
                    _ => {
                        proof {
                            lemma_find_key_step(es0, "resource_type"@, i);
                            lemma_find_key_prefix_stable(es0, "resource_type"@, i + 1);
                            assert(decode_obj(es0, own) is None);
                        }
                        return None;
                    },
                }
            }
        } else if contains_name(&d.own_fields, k.as_str()) {
            fields.push((k, v));
        } else {
            extra.push((k, v));
        }
        proof {
            reveal_strlit("gid");
            reveal_strlit("resource_type");
            assert("gid"@.len() == 3);
            assert("resource_type"@.len() == 13);
            lemma_find_key_step(es0, "gid"@, i);
            lemma_find_key_step(es0, "resource_type"@, i);
            lemma_split_step(es0, own, i);
            i = i + 1;
        }
    }
    proof {
        assert(es0.skip(i).len() == 0);
        assert(i == es0.len());
        assert(es0.take(i) =~= es0);
    }
    match (gid_slot, rt_slot) {
        (Some(g), Some(t)) => {
            let e = Entity { gid: g, resource_type: t, fields, extra };
            proof {
                assert(decode_obj(es0, own) == Some(e@));
            }
            Some(e)
        },
        _ => {
            proof {
                assert(decode_obj(es0, own) is None);
            }
            None
        },
    }
}

/// What an encoded entity object holds: the two implicit fields first,
/// then the declared fields, then the side map, each in order.
pub open spec fn encodes_obj(m: EntityView, out: Seq<(String, JsonValue)>) -> bool {
    &&& out.len() == 2 + m.fields.len() + m.extra.len()
    &&& out[0].0@ == "gid"@
    &&& (out[0].1 matches JsonValue::Str(g) && g@ == m.gid)
    &&& out[1].0@ == "resource_type"@
    &&& (out[1].1 matches JsonValue::Str(t) && t@ == m.resource_type)
    &&& out.subrange(2, 2 + m.fields.len() as int) == m.fields
    &&& out.skip(2 + m.fields.len() as int) == m.extra
}

/// Re-encodes an entity as a JSON object, implicit fields first, then
/// the declared fields, then the side map.
pub fn encode_entity(e: Entity) -> (r: JsonValue)
    ensures
        r matches JsonValue::Obj(out) && encodes_obj(e@, out@),
{
    let ghost m = e@;
    let Entity { gid, resource_type, fields, extra } = e;
    let mut out: Vec<(String, JsonValue)> = Vec::new();
    out.push(("gid".to_owned(), JsonValue::Str(gid)));
    out.push(("resource_type".to_owned(), JsonValue::Str(resource_type)));
    let mut fs = fields;
    let ghost fs0 = fs@;
    out.append(&mut fs);
    let mut ex = extra;
    let ghost ex0 = ex@;
    out.append(&mut ex);
    proof {
        assert(out@.len() == 2 + m.fields.len() + m.extra.len());
        assert(out@.subrange(2, 2 + m.fields.len() as int) =~= m.fields);
        assert(out@.skip(2 + m.fields.len() as int) =~= m.extra);
    }
    JsonValue::Obj(out)
}

/// An entry whose key is neither implicit nor declared is kept by the
/// side-map filter.
proof fn lemma_extra_entries_contains(es: Seq<(String, JsonValue)>, own: Seq<Seq<char>>, i: int)
    requires
        0 <= i < es.len(),
        !is_implicit_name(es[i].0@),
        !own.contains(es[i].0@),
    ensures
        extra_entries(es, own).contains(es[i]),
    decreases es.len(),
{
    reveal(Seq::filter);
    if i == es.len() - 1 {
        let sub = extra_entries(es.drop_last(), own);
        assert(extra_entries(es, own) == sub.push(es[i]));
        assert(sub.push(es[i])[sub.len() as int] == es[i]);
        assert(extra_entries(es, own).contains(es[i]));
    } else {
        assert(es.drop_last()[i] == es[i]);
        lemma_extra_entries_contains(es.drop_last(), own, i);
        let sub = extra_entries(es.drop_last(), own);
        let j = choose|j: int| 0 <= j < sub.len() && sub[j] == es[i];
        if is_implicit_name(es.last().0@) || own.contains(es.last().0@) {
            assert(extra_entries(es, own) == sub);
        } else {
            assert(extra_entries(es, own) == sub.push(es.last()));
            assert(sub.push(es.last())[j] == es[i]);
        }
        assert(extra_entries(es, own).contains(es[i]));
    }
}

/// Round trip of an undeclared field: where decoding an entity object
/// succeeds, an entry whose key is neither implicit nor declared is kept
/// in the side map, and every re-encoding of the decoded entity carries
/// that entry — key and value — again.
pub proof fn lemma_round_trip_keeps_unknown(
    es: Seq<(String, JsonValue)>,
    own: Seq<Seq<char>>,
    m: EntityView,
    out: Seq<(String, JsonValue)>,
    i: int,
)
    requires
        decode_obj(es, own) == Some(m),
        encodes_obj(m, out),
        0 <= i < es.len(),
        !is_implicit_name(es[i].0@),
        !own.contains(es[i].0@),
    ensures
        out.contains(es[i]),
{
    lemma_extra_entries_contains(es, own, i);
    assert(m.extra == extra_entries(es, own));
    let sk = out.skip(2 + m.fields.len() as int);
    assert(sk == m.extra);
    let j = choose|j: int| 0 <= j < sk.len() && sk[j] == es[i];
    assert(out[j + 2 + m.fields.len()] == es[i]);
    assert(out.contains(es[i]));
}

/// Takes the value of the first `data` entry out of an envelope object.
fn take_data(entries: &mut Vec<(String, JsonValue)>) -> (r: Option<JsonValue>)
    ensures
        r == find_key(old(entries)@, "data"@),
{
    let ghost es0 = entries@;
    let mut i: usize = 0;
    while i < entries.len()
        invariant
            es0 == old(entries)@,
            entries@ == es0,
            0 <= i <= es0.len(),
            find_key(es0.take(i as int), "data"@) is None,
        decreases es0.len() - i,
    {
        let hit = {
            let p: &(String, JsonValue) = &entries[i];
            str_eq(p.0.as_str(), "data")
        };
        proof {
            lemma_find_key_step(es0, "data"@, i as int);
        }
        if hit {
            proof {
                lemma_find_key_prefix_stable(es0, "data"@, i as int + 1);
            }
            let p = entries.remove(i);
            return Some(p.1);
        }
        i = i + 1;
    }
    proof {
        assert(es0.take(es0.len() as int) =~= es0);
    }
    None
}

/// Decoding a single-entity response body: the body must be valid JSON,
/// an object with a `data` entry holding an object that decodes as the
/// descriptor's entity.
pub open spec fn single_of(p: Option<JsonValue>, own: Seq<Seq<char>>) -> Option<EntityView> {
    match p {
        Some(JsonValue::Obj(entries)) => match find_key(entries@, "data"@) {
            Some(JsonValue::Obj(inner)) => decode_obj(inner@, own),
            _ => None,
        },
        _ => None,
    }
}

/// Decodes a single-entity response body. Exactly the bodies on which
/// [`single_of`] succeeds yield an entity; everything else is a decode
/// failure — in particular a body without a `data` entry.
pub fn decode_single(body: &str, d: &Descriptor) -> (r: Result<Entity, ApiError>)
    ensures
        r matches Ok(e) ==> single_of(parsed_json(body@), own_names(*d)) == Some(e@),
        (r is Ok) == (single_of(parsed_json(body@), own_names(*d)) is Some),
        r matches Err(er) ==> er == ApiError::Decode,
{
    match parse_json(body) {
        None => Err(ApiError::Decode),
        Some(v) => match v {
            JsonValue::Obj(mut entries) => match take_data(&mut entries) {
                Some(data) => match data {
                    JsonValue::Obj(mut inner) => match decode_entity(&mut inner, d) {
                        Some(e) => Ok(e),
                        None => Err(ApiError::Decode),
                    },
                    _ => Err(ApiError::Decode),
                },
                None => Err(ApiError::Decode),
            },
            _ => Err(ApiError::Decode),
        },
    }
}

/// The views of a list of entities, in order.
pub open spec fn entity_views(s: Seq<Entity>) -> Seq<EntityView> {
    s.map_values(|e: Entity| e@)
}

/// Decoding the items of a list response: every item must be an object
/// that decodes as the descriptor's entity; order is kept.
pub open spec fn list_items(items: Seq<JsonValue>, own: Seq<Seq<char>>) -> Option<Seq<EntityView>>
    decreases items.len(),
{
    if items.len() == 0 {
        Some(Seq::empty())
    } else {
        match list_items(items.drop_last(), own) {
            None => None,
            Some(ms) => match items.last() {
                JsonValue::Obj(entries) => match decode_obj(entries@, own) {
                    Some(m) => Some(ms.push(m)),
                    None => None,
                },
                _ => None,
            },
        }
    }
}

/// Decoding a list response body: the body must be valid JSON, an object
/// with a `data` entry holding an array of entity objects.
pub open spec fn list_of(p: Option<JsonValue>, own: Seq<Seq<char>>) -> Option<Seq<EntityView>> {
    match p {
        Some(JsonValue::Obj(entries)) => match find_key(entries@, "data"@) {
            Some(JsonValue::Arr(items)) => list_items(items@, own),
            _ => None,
        },
        _ => None,
    }
}

/// Looking one item further extends a list decode by that item.
proof fn lemma_list_items_step(items: Seq<JsonValue>, own: Seq<Seq<char>>, i: int)
    requires
        0 <= i < items.len(),
    ensures
        list_items(items.take(i + 1), own) == (match list_items(items.take(i), own) {
            None => None,
            Some(ms) => match items[i] {
                JsonValue::Obj(entries) => match decode_obj(entries@, own) {
                    Some(m) => Some(ms.push(m)),
                    None => None,
                },
                _ => None,
            },
        }),
{
    assert(items.take(i + 1).drop_last() =~= items.take(i));
    assert(items.take(i + 1).last() == items[i]);
}

/// A failed prefix keeps the whole item list failed.
proof fn lemma_list_items_none_stable(items: Seq<JsonValue>, own: Seq<Seq<char>>, i: int)
    requires
        0 <= i <= items.len(),
        list_items(items.take(i), own) is None,
    ensures
        list_items(items, own) is None,
    decreases items.len() - i,
{
    if i == items.len() {
        assert(items.take(i) =~= items);
    } else {
        lemma_list_items_step(items, own, i);
        lemma_list_items_none_stable(items, own, i + 1);
    }
}

/// Pushing an entity pushes its view onto the views.
proof fn lemma_entity_views_push(s: Seq<Entity>, e: Entity)
    ensures
        entity_views(s.push(e)) == entity_views(s).push(e@),
{
    assert forall|j: int| 0 <= j < s.push(e).len() implies entity_views(s.push(e))[j]
        == entity_views(s).push(e@)[j] by {
        if j < s.len() {
            assert(s.push(e)[j] == s[j]);
            assert(entity_views(s).push(e@)[j] == entity_views(s)[j]);
        } else {
            assert(s.push(e)[j] == e);
            assert(entity_views(s).push(e@)[j] == e@);
        }
    }
    assert(entity_views(s.push(e)) =~= entity_views(s).push(e@));
}

/// Decodes a list response body. Exactly the bodies on which
/// [`list_of`] succeeds yield the entities, in response order;
/// everything else is a decode failure — in particular a body without a
/// `data` entry.
pub fn decode_list(body: &str, d: &Descriptor) -> (r: Result<Vec<Entity>, ApiError>)
    ensures
        r matches Ok(v) ==> list_of(parsed_json(body@), own_names(*d)) == Some(entity_views(v@)),
        (r is Ok) == (list_of(parsed_json(body@), own_names(*d)) is Some),
        r matches Err(er) ==> er == ApiError::Decode,
{
    match parse_json(body) {
        None => Err(ApiError::Decode),
        Some(v) => match v {
            JsonValue::Obj(mut entries) => match take_data(&mut entries) {
                Some(data) => match data {
                    JsonValue::Arr(mut items) => {
                        let ghost it0 = items@;
                        let ghost own = own_names(*d);
                        let mut out: Vec<Entity> = Vec::new();
                        let ghost mut i: int = 0;
                        while items.len() > 0
                            invariant
                                own == own_names(*d),
                                list_of(parsed_json(body@), own) == list_items(it0, own),
                                0 <= i <= it0.len(),
                                items@ == it0.skip(i),
                                list_items(it0.take(i), own) == Some(entity_views(out@)),
                            decreases items@.len(),
                        {
                            proof {
                                assert(it0.skip(i)[0] == it0[i]);
                            }
                            let itv = items.remove(0);
                            proof {
                                assert(items@ =~= it0.skip(i + 1));
                                lemma_list_items_step(it0, own, i);
                            }
                            match itv {
                                JsonValue::Obj(mut inner) => match decode_entity(&mut inner, d) {
                                    Some(e) => {
                                        let ghost out0 = out@;
                                        out.push(e);
                                        proof {
                                            lemma_entity_views_push(out0, e);
                                            i = i + 1;
                                        }
                                    },
                                    None => {
                                        proof {
                                            lemma_list_items_none_stable(it0, own, i + 1);
                                        }
                                        return Err(ApiError::Decode);
                                    },
                                },
                                _ => {
                                    proof {
                                        lemma_list_items_none_stable(it0, own, i + 1);
                                    }
                                    return Err(ApiError::Decode);
                                },
                            }
                        }
                        proof {
                            assert(it0.skip(i).len() == 0);
                            assert(i == it0.len());
                            assert(it0.take(i) =~= it0);
                        }
                        Ok(out)
                    },
                    _ => Err(ApiError::Decode),
                },
                None => Err(ApiError::Decode),
            },
            _ => Err(ApiError::Decode),
        },
    }
}

} // verus!
