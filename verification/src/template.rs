//! The template engine: replacement of placeholders at every depth of a
//! document, and writes to a member at the end of a path.

use crate::document::{
    distinct_keys, fields_view, find_field, lemma_position, lemma_position_is_first,
    lemma_position_same_keys, lookup, path_view, position, Document, Fields, Json,
};
use crate::text::{lemma_replaced_absent, occurs_in, replace_all, replaced};
use vstd::prelude::*;

verus! {

/// The document with every occurrence of `placeholder` in every string value
/// replaced by `replacement`, at any depth. Keys and other values stay.
pub open spec fn substituted(doc: Json, placeholder: Seq<char>, replacement: Seq<char>) -> Json
    decreases doc,
{
    match doc {
        Json::Text(s) => Json::Text(replaced(s, placeholder, replacement)),
        Json::Array(items) => Json::Array(
            Seq::new(
                items.len(),
                |i: int|
                    if 0 <= i < items.len() {
                        substituted(items[i], placeholder, replacement)
                    } else {
                        Json::Null
                    },
            ),
        ),
        Json::Object(fields) => Json::Object(
            Seq::new(
                fields.len(),
                |i: int|
                    if 0 <= i < fields.len() {
                        (fields[i].0, substituted(fields[i].1, placeholder, replacement))
                    } else {
                        (Seq::empty(), Json::Null)
                    },
            ),
        ),
        other => other,
    }
}

/// Some string value of the document holds `token`.
pub open spec fn mentions(doc: Json, token: Seq<char>) -> bool
    decreases doc,
{
    match doc {
        Json::Text(s) => occurs_in(s, token),
        Json::Array(items) => exists|i: int|
            0 <= i < items.len() && mentions(#[trigger] items[i], token),
        Json::Object(fields) => exists|i: int|
            0 <= i < fields.len() && mentions((#[trigger] fields[i]).1, token),
        _ => false,
    }
}

/// Two documents are built alike: they differ at most in what their string
/// values hold. Lists are as long, objects have the same keys in the same
/// order, and every other value is the same.
pub open spec fn same_shape(a: Json, b: Json) -> bool
    decreases a,
{
    match a {
        Json::Text(_) => b is Text,
        Json::Array(items) => b is Array && b->Array_0.len() == items.len() && forall|i: int|
            0 <= i < items.len() ==> same_shape(#[trigger] items[i], b->Array_0[i]),
        Json::Object(fields) => b is Object && b->Object_0.len() == fields.len() && forall|i: int|
            0 <= i < fields.len() ==> (#[trigger] fields[i]).0 == b->Object_0[i].0 && same_shape(
                fields[i].1,
                b->Object_0[i].1,
            ),
        other => b == other,
    }
}

/// The fields with `key` bound to `value`: the first field of that name is
/// overwritten in place, and where there is none a new field is added at the
/// end.
pub open spec fn bound(fields: Fields, key: Seq<char>, value: Json) -> Fields {
    let at = position(fields, key);
    if at < fields.len() {
        fields.update(at, (key, value))
    } else {
        fields.push((key, value))
    }
}

/// The document with the member `key` of the object reached by `path` bound
/// to `value`. There is none where the path leaves the objects: where a step
/// names no member, or the value reached is no object.
pub open spec fn written(doc: Json, path: Seq<Seq<char>>, key: Seq<char>, value: Json) -> Option<
    Json,
>
    decreases path.len(),
{
    match doc {
        Json::Object(fields) => if path.len() == 0 {
            Some(Json::Object(bound(fields, key, value)))
        } else {
            match lookup(fields, path[0]) {
                Some(child) => match written(child, path.skip(1), key, value) {
                    Some(changed) => Some(Json::Object(bound(fields, path[0], changed))),
                    None => None,
                },
                None => None,
            }
        },
        _ => None,
    }
}

/// Replaces every occurrence of `placeholder` by `replacement` in every
/// string value of the document, at any depth, and returns the new document.
/// A well-formed document stays well formed.
pub fn replace_placeholder(value: &Document, placeholder: &str, replacement: &str) -> (out:
    Document)
    ensures
        out@ == substituted(value@, placeholder@, replacement@),
        value@.well_formed() ==> out@.well_formed(),
    decreases value,
{
    let out: Document = match value {
        Document::Null => Document::Null,
        Document::Bool(b) => Document::Bool(*b),
        Document::Number(n) => Document::Number(*n),
        Document::Text(s) => Document::Text(replace_all(s.as_str(), placeholder, replacement)),
        Document::Array(items) => {
            let mut changed: Vec<Document> = Vec::new();
            let mut i: usize = 0;
            while i < items.len()
                invariant
                    *value == Document::Array(*items),
                    i <= items.len(),
                    changed.len() == i,
                    forall|k: int|
                        0 <= k < i ==> changed@[k]@ == substituted(
                            items@[k]@,
                            placeholder@,
                            replacement@,
                        ),
                decreases items.len() - i,
            {
                assert(decreases_to!(*value => value->Array_0));
                assert(decreases_to!(*items => items[i as int]));
                changed.push(replace_placeholder(&items[i], placeholder, replacement));
                i += 1;
            }
            let out = Document::Array(changed);
            assert(out@->Array_0 =~= substituted(value@, placeholder@, replacement@)->Array_0);
            out
        },
        Document::Object(fields) => {
            let mut changed: Vec<(String, Document)> = Vec::new();
            let mut i: usize = 0;
            while i < fields.len()
                invariant
                    *value == Document::Object(*fields),
                    i <= fields.len(),
                    changed.len() == i,
                    forall|k: int|
                        0 <= k < i ==> changed@[k].0@ == fields@[k].0@ && changed@[k].1@
                            == substituted(fields@[k].1@, placeholder@, replacement@),
                decreases fields.len() - i,
            {
                assert(decreases_to!(*value => value->Object_0));
                assert(decreases_to!(*fields => fields[i as int]));
                changed.push(
                    (fields[i].0.clone(), replace_placeholder(&fields[i].1, placeholder, replacement)),
                );
                i += 1;
            }
            let out = Document::Object(changed);
            assert(out@->Object_0 =~= substituted(value@, placeholder@, replacement@)->Object_0);
            out
        },
    };
    proof {
        if value@.well_formed() {
            lemma_substituted_well_formed(value@, placeholder@, replacement@);
        }
    }
    out
}

/// Appends copies of the fields from `from` up to `to` to `out`.
fn copy_fields(
    fields: &Vec<(String, Document)>,
    from: usize,
    to: usize,
    out: &mut Vec<(String, Document)>,
)
    requires
        from <= to <= fields.len(),
    ensures
        fields_view(final(out)@) == fields_view(old(out)@) + fields_view(fields@).subrange(
            from as int,
            to as int,
        ),
{
    let mut i: usize = from;
    assert(fields_view(out@) =~= fields_view(old(out)@) + fields_view(fields@).subrange(
        from as int,
        i as int,
    ));
    while i < to
        invariant
            from <= i <= to <= fields.len(),
            fields_view(out@) == fields_view(old(out)@) + fields_view(fields@).subrange(
                from as int,
                i as int,
            ),
        decreases to - i,
    {
        let ghost before = out@;
        out.push((fields[i].0.clone(), fields[i].1.clone()));
        assert(fields_view(out@) =~= fields_view(before).push((fields@[i as int].0@, fields@[i as int].1@)));
        assert(fields_view(out@) =~= fields_view(old(out)@) + fields_view(fields@).subrange(
            from as int,
            i + 1,
        ));
        i += 1;
    }
}

/// The fields with `key` bound to `value`. Keys that were distinct stay so.
pub fn with_field(fields: &Vec<(String, Document)>, key: &str, value: Document) -> (out: Vec<
    (String, Document),
>)
    ensures
        fields_view(out@) == bound(fields_view(fields@), key@, value@),
        distinct_keys(fields_view(fields@)) ==> distinct_keys(fields_view(out@)),
{
    proof {
        lemma_bound(fields_view(fields@), key@, value@, key@);
    }
    let at: usize = find_field(fields, key);
    let mut out: Vec<(String, Document)> = Vec::new();
    copy_fields(fields, 0, at, &mut out);
    let ghost head = out@;
    out.push((key.to_owned(), value));
    assert(fields_view(out@) =~= fields_view(head).push((key@, value@)));
    if at < fields.len() {
        let ghost mid = out@;
        copy_fields(fields, at + 1, fields.len(), &mut out);
        assert(fields_view(out@) =~= fields_view(fields@).update(at as int, (key@, value@)));
    } else {
        assert(fields_view(out@) =~= fields_view(fields@).push((key@, value@)));
    }
    out
}

/// Writes below the object that the steps of `path` from `from` on lead to.
fn set_from(doc: &Document, path: &[&str], from: usize, key: &str, value: Document) -> (out:
    Option<Document>)
    requires
        from <= path.len(),
    ensures
        match out {
            Some(changed) => written(doc@, path_view(path@).skip(from as int), key@, value@)
                == Some(changed@),
            None => written(doc@, path_view(path@).skip(from as int), key@, value@) is None,
        },
    decreases path.len() - from,
{
    let ghost steps = path_view(path@).skip(from as int);
    match doc {
        Document::Object(fields) => {
            assert(doc@->Object_0 =~= fields_view(fields@));
            if from == path.len() {
                let changed = Document::Object(with_field(fields, key, value));
                assert(changed@->Object_0 =~= bound(fields_view(fields@), key@, value@));
                Some(changed)
            } else {
                let step: &str = path[from];
                assert(steps[0] == step@);
                assert(steps.skip(1) =~= path_view(path@).skip(from + 1));
                let at: usize = find_field(fields, step);
                if at < fields.len() {
                    match set_from(&fields[at].1, path, from + 1, key, value) {
                        Some(child) => {
                            let changed = Document::Object(with_field(fields, step, child));
                            assert(changed@->Object_0 =~= bound(
                                fields_view(fields@),
                                step@,
                                child@,
                            ));
                            Some(changed)
                        },
                        None => None,
                    }
                } else {
                    None
                }
            }
        },
        _ => None,
    }
}

impl Document {
    /// Binds the member `key` of the object reached by `path` to `value`, and
    /// returns the new document. Fails where the path names a member that is
    /// absent, or reaches a value that is no object. A well-formed value
    /// written into a well-formed document gives a well-formed document.
    pub fn set_at(&self, path: &[&str], key: &str, value: Document) -> (out: Option<Document>)
        ensures
            match out {
                Some(changed) => {
                    &&& written(self@, path_view(path@), key@, value@) == Some(changed@)
                    &&& self@.well_formed() && value@.well_formed() ==> changed@.well_formed()
                },
                None => written(self@, path_view(path@), key@, value@) is None,
            },
    {
        assert(path_view(path@).skip(0) =~= path_view(path@));
        let ghost written_value = value@;
        let out: Option<Document> = set_from(self, path, 0, key, value);
        proof {
            if out is Some && self@.well_formed() && written_value.well_formed() {
                lemma_written_well_formed(self@, path_view(path@), key@, written_value);
            }
        }
        out
    }
}

/// Replacing a placeholder that no string value holds gives the document
/// back.
pub proof fn lemma_substituted_absent(doc: Json, placeholder: Seq<char>, replacement: Seq<char>)
    requires
        !mentions(doc, placeholder),
    ensures
        substituted(doc, placeholder, replacement) == doc,
    decreases doc,
{
    match doc {
        Json::Text(s) => {
            lemma_replaced_absent(s, placeholder, replacement);
        },
        Json::Array(items) => {
            let after = substituted(doc, placeholder, replacement)->Array_0;
            assert forall|i: int| 0 <= i < items.len() implies after[i] == items[i] by {
                assert(!mentions(items[i], placeholder));
                lemma_substituted_absent(items[i], placeholder, replacement);
            }
            assert(after =~= items);
        },
        Json::Object(fields) => {
            let after = substituted(doc, placeholder, replacement)->Object_0;
            assert forall|i: int| 0 <= i < fields.len() implies after[i] == fields[i] by {
                assert(!mentions(fields[i].1, placeholder));
                lemma_substituted_absent(fields[i].1, placeholder, replacement);
            }
            assert(after =~= fields);
        },
        _ => {},
    }
}

/// Replacing a placeholder changes nothing but what string values hold: every
/// key, every list length and every other value stays.
pub proof fn lemma_substituted_keeps_shape(
    doc: Json,
    placeholder: Seq<char>,
    replacement: Seq<char>,
)
    ensures
        same_shape(doc, substituted(doc, placeholder, replacement)),
    decreases doc,
{
    match doc {
        Json::Array(items) => {
            let after = substituted(doc, placeholder, replacement)->Array_0;
            assert forall|i: int| 0 <= i < items.len() implies same_shape(
                #[trigger] items[i],
                after[i],
            ) by {
                lemma_substituted_keeps_shape(items[i], placeholder, replacement);
            }
        },
        Json::Object(fields) => {
            let after = substituted(doc, placeholder, replacement)->Object_0;
            assert forall|i: int| 0 <= i < fields.len() implies (#[trigger] fields[i]).0
                == after[i].0 && same_shape(fields[i].1, after[i].1) by {
                lemma_substituted_keeps_shape(fields[i].1, placeholder, replacement);
            }
        },
        _ => {},
    }
}

/// Replacing a placeholder keeps a document well formed.
pub proof fn lemma_substituted_well_formed(
    doc: Json,
    placeholder: Seq<char>,
    replacement: Seq<char>,
)
    requires
        doc.well_formed(),
    ensures
        substituted(doc, placeholder, replacement).well_formed(),
    decreases doc,
{
    match doc {
        Json::Array(items) => {
            let after = substituted(doc, placeholder, replacement)->Array_0;
            assert forall|i: int| 0 <= i < after.len() implies (#[trigger] after[i]).well_formed() by {
                assert(items[i].well_formed());
                lemma_substituted_well_formed(items[i], placeholder, replacement);
            }
        },
        Json::Object(fields) => {
            let after = substituted(doc, placeholder, replacement)->Object_0;
            assert forall|i: int| 0 <= i < after.len() implies (#[trigger] after[i]).1.well_formed() by {
                assert(fields[i].1.well_formed());
                lemma_substituted_well_formed(fields[i].1, placeholder, replacement);
            }
            assert forall|i: int, j: int| 0 <= i < j < after.len() implies (#[trigger] after[i]).0
                != (#[trigger] after[j]).0 by {
                assert(fields[i].0 != fields[j].0);
            }
        },
        _ => {},
    }
}

/// What a path leads to after a replacement is what it led to before, with
/// the replacement made in it.
pub proof fn lemma_substituted_reach(
    doc: Json,
    path: Seq<Seq<char>>,
    placeholder: Seq<char>,
    replacement: Seq<char>,
)
    requires
        doc.reach(path) is Some,
    ensures
        substituted(doc, placeholder, replacement).reach(path) == Some(
            substituted(doc.reach(path)->Some_0, placeholder, replacement),
        ),
    decreases path.len(),
{
    if path.len() > 0 {
        let fields = doc->Object_0;
        let after = substituted(doc, placeholder, replacement)->Object_0;
        lemma_position_same_keys(fields, after, path[0]);
        let at = position(fields, path[0]);
        lemma_position_is_first(fields, path[0]);
        assert(after[at].1 == substituted(fields[at].1, placeholder, replacement));
        lemma_substituted_reach(fields[at].1, path.skip(1), placeholder, replacement);
    }
}

/// A replacement leaves every member alone that does not hold the
/// placeholder: what a path led to before, it leads to after.
pub proof fn lemma_substituted_leaves_others(
    doc: Json,
    path: Seq<Seq<char>>,
    placeholder: Seq<char>,
    replacement: Seq<char>,
)
    requires
        doc.reach(path) is Some,
        !mentions(doc.reach(path)->Some_0, placeholder),
    ensures
        substituted(doc, placeholder, replacement).reach(path) == doc.reach(path),
{
    lemma_substituted_reach(doc, path, placeholder, replacement);
    lemma_substituted_absent(doc.reach(path)->Some_0, placeholder, replacement);
}

/// Binding a key keeps the keys distinct, binds the key to the value, and
/// leaves every other key with what it had.
pub proof fn lemma_bound(fields: Fields, key: Seq<char>, value: Json, other: Seq<char>)
    ensures
        lookup(bound(fields, key, value), key) == Some(value),
        other != key ==> lookup(bound(fields, key, value), other) == lookup(fields, other),
        distinct_keys(fields) ==> distinct_keys(bound(fields, key, value)),
{
    let after = bound(fields, key, value);
    let at = position(fields, key);
    lemma_position_is_first(fields, key);
    lemma_position(after, key, at);
    if other != key {
        let there = position(fields, other);
        lemma_position_is_first(fields, other);
        if there < fields.len() {
            assert(there != at);
            assert(after[there] == fields[there]);
        }
        assert forall|j: int| 0 <= j < there implies (#[trigger] after[j]).0 != other by {
            if j < fields.len() && j != at {
                assert(after[j] == fields[j]);
            }
        }
        if there == fields.len() {
            lemma_position(after, other, after.len() as int);
        } else {
            lemma_position(after, other, there);
        }
    }
    if distinct_keys(fields) {
        assert forall|i: int, j: int| 0 <= i < j < after.len() implies (#[trigger] after[i]).0
            != (#[trigger] after[j]).0 by {
            if at < fields.len() {
                if i == at {
                    assert(fields[i].0 != fields[j].0);
                } else if j == at {
                    assert(fields[i].0 != fields[j].0);
                } else {
                    assert(fields[i].0 != fields[j].0);
                }
            } else {
                if j < fields.len() {
                    assert(fields[i].0 != fields[j].0);
                } else {
                    assert(fields[i].0 != key);
                }
            }
        }
    }
}

/// What was written is read back at the place it was written to.
pub proof fn lemma_written_reads_back(
    doc: Json,
    path: Seq<Seq<char>>,
    key: Seq<char>,
    value: Json,
)
    requires
        written(doc, path, key, value) is Some,
    ensures
        written(doc, path, key, value)->Some_0.reach(path.push(key)) == Some(value),
    decreases path.len(),
{
    let fields = doc->Object_0;
    let after = written(doc, path, key, value)->Some_0;
    let target = path.push(key);
    if path.len() == 0 {
        lemma_bound(fields, key, value, key);
        assert(target[0] == key);
        assert(target.skip(1) =~= Seq::<Seq<char>>::empty());
        assert(value.reach(target.skip(1)) == Some(value));
    } else {
        let child = lookup(fields, path[0])->Some_0;
        let changed = written(child, path.skip(1), key, value)->Some_0;
        lemma_written_reads_back(child, path.skip(1), key, value);
        lemma_bound(fields, path[0], changed, path[0]);
        assert(target[0] == path[0]);
        assert(target.skip(1) =~= path.skip(1).push(key));
    }
}

/// A write leaves every place alone that the way to the written member does
/// not lead through: a path that parts from that way at some step leads to
/// what it led to before.
pub proof fn lemma_written_keeps_other(
    doc: Json,
    path: Seq<Seq<char>>,
    key: Seq<char>,
    value: Json,
    other: Seq<Seq<char>>,
    parting: int,
)
    requires
        written(doc, path, key, value) is Some,
        0 <= parting < other.len(),
        parting <= path.len(),
        other[parting] != path.push(key)[parting],
        forall|j: int| 0 <= j < parting ==> other[j] == path[j],
    ensures
        written(doc, path, key, value)->Some_0.reach(other) == doc.reach(other),
    decreases path.len(),
{
    let fields = doc->Object_0;
    if parting == 0 {
        if path.len() == 0 {
            assert(path.push(key)[0] == key);
            lemma_bound(fields, key, value, other[0]);
        } else {
            let child = lookup(fields, path[0])->Some_0;
            let changed = written(child, path.skip(1), key, value)->Some_0;
            assert(path.push(key)[0] == path[0]);
            lemma_bound(fields, path[0], changed, other[0]);
        }
    } else {
        let child = lookup(fields, path[0])->Some_0;
        let changed = written(child, path.skip(1), key, value)->Some_0;
        lemma_bound(fields, path[0], changed, path[0]);
        assert(other[0] == path[0]);
        assert(path.skip(1).push(key) =~= path.push(key).skip(1));
        assert forall|j: int| 0 <= j < parting - 1 implies other.skip(1)[j] == path.skip(1)[j] by {
            assert(other[j + 1] == path[j + 1]);
        }
        lemma_written_keeps_other(child, path.skip(1), key, value, other.skip(1), parting - 1);
    }
}

/// Writing a well-formed value into a well-formed document gives a
/// well-formed document.
pub proof fn lemma_written_well_formed(
    doc: Json,
    path: Seq<Seq<char>>,
    key: Seq<char>,
    value: Json,
)
    requires
        doc.well_formed(),
        value.well_formed(),
        written(doc, path, key, value) is Some,
    ensures
        written(doc, path, key, value)->Some_0.well_formed(),
    decreases path.len(),
{
    let fields = doc->Object_0;
    if path.len() == 0 {
        lemma_bound(fields, key, value, key);
        lemma_position_is_first(fields, key);
        let after = bound(fields, key, value);
        assert forall|i: int| 0 <= i < after.len() implies (#[trigger] after[i]).1.well_formed() by {
            if i < fields.len() && i != position(fields, key) {
                assert(fields[i].1.well_formed());
            }
        }
    } else {
        let at = position(fields, path[0]);
        lemma_position_is_first(fields, path[0]);
        let child = fields[at].1;
        assert(child.well_formed());
        let changed = written(child, path.skip(1), key, value)->Some_0;
        lemma_written_well_formed(child, path.skip(1), key, value);
        lemma_bound(fields, path[0], changed, path[0]);
        let after = bound(fields, path[0], changed);
        assert forall|i: int| 0 <= i < after.len() implies (#[trigger] after[i]).1.well_formed() by {
            if i != at {
                assert(fields[i].1.well_formed());
            }
        }
    }
}

} // verus!
