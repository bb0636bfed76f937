//! The tags and name of a place imported from GeoJSON: every scalar in the
//! feature's properties becomes a tag keyed by its path, except a string
//! under a key called "name", which names the place.

use vstd::prelude::*;

use crate::text::{decimal, push_u64};

verus! {

/// A JSON value as read from a feature's properties. A number is kept as
/// its text; an object keeps its entries in the order they were read.
#[derive(Debug)]
pub enum JsonValue {
    Null,
    Bool(bool),
    Number(String),
    Str(String),
    Array(Vec<JsonValue>),
    Object(Vec<(String, JsonValue)>),
}

/// A tag or name found so far: the tags in order and the last name.
pub type Found = (Seq<(Seq<char>, Seq<char>)>, Option<Seq<char>>);

/// The findings of one part followed by those of the next: tags add up,
/// and a later name replaces an earlier one.
pub open spec fn then(a: Found, b: Found) -> Found {
    (a.0 + b.0, if b.1 is Some { b.1 } else { a.1 })
}

/// ASCII lower case of one character.
pub open spec fn lower_ascii(c: char) -> char {
    if 'A' <= c <= 'Z' { ((c as u32) + 32) as char } else { c }
}

/// Whether a key is "name" in any letter case. (A key lowercases to
/// "name" exactly when it is those four letters in some case: no other
/// character lowercases to one of them.)
pub open spec fn is_name_key(k: Seq<char>) -> bool {
    k.len() == 4 && lower_ascii(k[0]) == 'n' && lower_ascii(k[1]) == 'a' && lower_ascii(k[2]) == 'm'
        && lower_ascii(k[3]) == 'e'
}

/// The path of an object's entry.
pub open spec fn key_path(path: Seq<char>, key: Seq<char>) -> Seq<char> {
    if path.len() == 0 { key } else { path + "."@ + key }
}

/// The path of an array's item.
pub open spec fn index_path(path: Seq<char>, i: nat) -> Seq<char> {
    path + "["@ + decimal(i) + "]"@
}

/// The text of a scalar as JSON prints it.
pub open spec fn scalar_text(v: JsonValue) -> Seq<char> {
    match v {
        JsonValue::Null => "null"@,
        JsonValue::Bool(b) => if b { "true"@ } else { "false"@ },
        JsonValue::Number(t) => t@,
        JsonValue::Str(s) => s@,
        _ => Seq::empty(),
    }
}

/// Tags and name found in `v` at `path`.
pub open spec fn walk(v: JsonValue, path: Seq<char>) -> Found
    decreases v, 0int,
{
    match v {
        JsonValue::Object(es) => walk_entries(es@, path, 0),
        JsonValue::Array(items) => walk_items(items@, path, 0),
        _ => (seq![(path, scalar_text(v))], None),
    }
}

/// Tags and name found in the entries of an object from the `i`-th on.
pub open spec fn walk_entries(es: Seq<(String, JsonValue)>, path: Seq<char>, i: nat) -> Found
    decreases es, es.len() - i,
{
    if i >= es.len() {
        (Seq::empty(), None)
    } else {
        let (k, v) = es[i as int];
        let first = if is_name_key(k@) && v is Str {
            (Seq::empty(), Some(scalar_text(v)))
        } else {
            walk(v, key_path(path, k@))
        };
        then(first, walk_entries(es, path, i + 1))
    }
}

/// Tags and name found in the items of an array from the `i`-th on.
pub open spec fn walk_items(items: Seq<JsonValue>, path: Seq<char>, i: nat) -> Found
    decreases items, items.len() - i,
{
    if i >= items.len() {
        (Seq::empty(), None)
    } else {
        then(walk(items[i as int], index_path(path, i)), walk_items(items, path, i + 1))
    }
}

/// The tags as text pairs.
pub open spec fn tags_view(tags: Seq<(String, String)>) -> Seq<(Seq<char>, Seq<char>)> {
    Seq::new(tags.len(), |i: int| (tags[i].0@, tags[i].1@))
}

/// A name as its text.
pub open spec fn name_view(name: Option<String>) -> Option<Seq<char>> {
    match name {
        Some(s) => Some(s@),
        None => None,
    }
}

fn is_name(k: &str) -> (r: bool)
    ensures
        r == is_name_key(k@),
{
    if k.unicode_len() != 4 {
        return false;
    }
    let c0 = k.get_char(0);
    let c1 = k.get_char(1);
    let c2 = k.get_char(2);
    let c3 = k.get_char(3);
    (c0 == 'n' || c0 == 'N') && (c1 == 'a' || c1 == 'A') && (c2 == 'm' || c2 == 'M') && (c3 == 'e' || c3
        == 'E')
}

fn push_tag(tags: &mut Vec<(String, String)>, path: &str, text: &str)
    ensures
        tags_view(final(tags)@) == tags_view(old(tags)@).push((path@, text@)),
{
    tags.push((String::from_str(path), String::from_str(text)));
    assert(tags_view(tags@) =~= tags_view(old(tags)@).push((path@, text@)));
}

/// Collects the tags of `obj` found at `path` onto `tags`, and sets `name`
/// to the last string found under a key called "name" (such a string is
/// no tag). A scalar is a tag of its path; an object's entries extend the
/// path by ".key" (just "key" at the top), an array's items by "[i]".
pub fn traverse_props(obj: &JsonValue, path: &str, tags: &mut Vec<(String, String)>, name: &mut Option<String>)
    ensures
        tags_view(final(tags)@) == tags_view(old(tags)@) + walk(*obj, path@).0,
        name_view(*final(name)) == (if walk(*obj, path@).1 is Some {
            walk(*obj, path@).1
        } else {
            name_view(*old(name))
        }),
    decreases obj,
{
    match obj {
        JsonValue::Object(es) => {
            let mut i: usize = 0;
            proof {
                assert(tags_view(tags@) + walk_entries(es@, path@, 0).0 =~= tags_view(old(tags)@)
                    + walk_entries(es@, path@, 0).0);
            }
            while i < es.len()
                invariant
                    *obj == JsonValue::Object(*es),
                    i <= es.len(),
                    tags_view(tags@) + walk_entries(es@, path@, i as nat).0 == tags_view(old(tags)@)
                        + walk_entries(es@, path@, 0).0,
                    (if walk_entries(es@, path@, 0).1 is Some {
                        walk_entries(es@, path@, 0).1
                    } else {
                        name_view(*old(name))
                    }) == (if walk_entries(es@, path@, i as nat).1 is Some {
                        walk_entries(es@, path@, i as nat).1
                    } else {
                        name_view(*name)
                    }),
                decreases es.len() - i,
            {
                let ghost before_tags = tags_view(tags@);
                let ghost before_name = name_view(*name);
                let (k, v) = &es[i];
                let key_is_name = is_name(k.as_str());
                let mut handled = false;
                if key_is_name {
                    match v {
                        JsonValue::Str(s) => {
                            *name = Some(s.clone());
                            handled = true;
                            proof {
                                assert(tags_view(tags@) + Seq::<(Seq<char>, Seq<char>)>::empty() =~= before_tags);
                            }
                        },
                        _ => {},
                    }
                }
                if !handled {
                    let new_path = if path.unicode_len() == 0 {
                        String::from_str(k.as_str())
                    } else {
                        let mut p = String::from_str(path);
                        p.append(".");
                        p.append(k.as_str());
                        p
                    };
                    proof {
                        assert(new_path@ == key_path(path@, k@));
                        assert((*obj)->Object_0 == *es);
                        assert(decreases_to!(*obj => (*obj)->Object_0));
                        assert(decreases_to!(*es => es@));
                        assert(decreases_to!(es@ => es@[i as int]));
                        assert(decreases_to!(es@[i as int] => es@[i as int].1));
                        assert(decreases_to!(*obj => es@[i as int].1));
                    }
                    traverse_props(v, new_path.as_str(), tags, name);
                }
                proof {
                    let rest = walk_entries(es@, path@, (i + 1) as nat);
                    let first = walk_entries(es@, path@, i as nat);
                    assert(first == then(
                        if is_name_key(k@) && *v is Str {
                            (Seq::<(Seq<char>, Seq<char>)>::empty(), Some(scalar_text(*v)))
                        } else {
                            walk(*v, key_path(path@, k@))
                        },
                        rest,
                    ));
                    assert(tags_view(tags@) + rest.0 =~= before_tags + first.0);
                }
                i = i + 1;
            }
        },
        JsonValue::Array(items) => {
            let mut i: usize = 0;
            proof {
                assert(tags_view(tags@) + walk_items(items@, path@, 0).0 =~= tags_view(old(tags)@)
                    + walk_items(items@, path@, 0).0);
            }
            while i < items.len()
                invariant
                    *obj == JsonValue::Array(*items),
                    i <= items.len(),
                    tags_view(tags@) + walk_items(items@, path@, i as nat).0 == tags_view(old(tags)@)
                        + walk_items(items@, path@, 0).0,
                    (if walk_items(items@, path@, 0).1 is Some {
                        walk_items(items@, path@, 0).1
                    } else {
                        name_view(*old(name))
                    }) == (if walk_items(items@, path@, i as nat).1 is Some {
                        walk_items(items@, path@, i as nat).1
                    } else {
                        name_view(*name)
                    }),
                decreases items.len() - i,
            {
                let ghost before_tags = tags_view(tags@);
                let mut p = String::from_str(path);
                p.append("[");
                push_u64(&mut p, i as u64);
                p.append("]");
                proof {
                    assert(p@ == index_path(path@, i as nat));
                    assert((*obj)->Array_0 == *items);
                    assert(decreases_to!(*obj => (*obj)->Array_0));
                    assert(decreases_to!(*items => items@));
                    assert(decreases_to!(items@ => items@[i as int]));
                    assert(decreases_to!(*obj => items@[i as int]));
                }
                traverse_props(&items[i], p.as_str(), tags, name);
                proof {
                    let rest = walk_items(items@, path@, (i + 1) as nat);
                    let first = walk_items(items@, path@, i as nat);
                    assert(tags_view(tags@) + rest.0 =~= before_tags + first.0);
                }
                i = i + 1;
            }
        },
        JsonValue::Str(s) => {
            push_tag(tags, path, s.as_str());
        },
        JsonValue::Number(t) => {
            push_tag(tags, path, t.as_str());
        },
        JsonValue::Bool(b) => {
            proof {
                reveal_strlit("true");
                reveal_strlit("false");
            }
            push_tag(tags, path, if *b { "true" } else { "false" });
        },
        JsonValue::Null => {
            push_tag(tags, path, "null");
        },
    }
}

/// A scalar becomes one tag at its path whose text is its JSON text: a
/// boolean reads "true" exactly when it is true and "false" exactly when
/// it is false, and null reads "null"; a number or string keeps its text.
pub proof fn scalar_tags_are_json_text(b: bool, path: Seq<char>)
    ensures
        walk(JsonValue::Bool(b), path).0.len() == 1,
        walk(JsonValue::Bool(b), path).0[0].0 == path,
        (walk(JsonValue::Bool(b), path).0[0].1 == "true"@) == b,
        (walk(JsonValue::Bool(b), path).0[0].1 == "false"@) == !b,
        walk(JsonValue::Bool(b), path).1 is None,
        walk(JsonValue::Null, path).0 == seq![(path, "null"@)],
{
    reveal_strlit("true");
    reveal_strlit("false");
    assert("true"@.len() == 4);
    assert("false"@.len() == 5);
}

/// Walking an object in which no key is a name and every value is a
/// boolean gives one tag per entry, keyed by the entry's key, reading
/// "true" or "false" as the value is.
pub proof fn boolean_entries_read_back(es: Seq<(String, JsonValue)>, i: nat)
    requires
        i <= es.len(),
        forall|j: int| 0 <= j < es.len() ==> (#[trigger] es[j]).1 is Bool && !is_name_key(es[j].0@),
    ensures
        walk_entries(es, Seq::empty(), i).0.len() == es.len() - i,
        forall|j: int| 0 <= j < es.len() - i ==> {
            let tag = #[trigger] walk_entries(es, Seq::empty(), i).0[j];
            &&& tag.0 == es[i + j].0@
            &&& (tag.1 == "true"@) == es[i + j].1->Bool_0
            &&& (tag.1 == "false"@) == !es[i + j].1->Bool_0
        },
    decreases es.len() - i,
{
    reveal_strlit("true");
    reveal_strlit("false");
    assert("true"@.len() == 4);
    assert("false"@.len() == 5);
    if i < es.len() {
        boolean_entries_read_back(es, i + 1);
        let rest = walk_entries(es, Seq::empty(), i + 1);
        let (k, v) = es[i as int];
        assert(key_path(Seq::empty(), k@) == k@);
        let first = walk(v, k@);
        assert(walk_entries(es, Seq::empty(), i).0 == first.0 + rest.0);
        assert forall|j: int| 0 <= j < es.len() - i implies {
            let tag = #[trigger] walk_entries(es, Seq::empty(), i).0[j];
            &&& tag.0 == es[i + j].0@
            &&& (tag.1 == "true"@) == es[i + j].1->Bool_0
            &&& (tag.1 == "false"@) == !es[i + j].1->Bool_0
        } by {
            if j > 0 {
                assert(walk_entries(es, Seq::empty(), i).0[j] == rest.0[j - 1]);
            }
        }
    }
}

} // verus!
