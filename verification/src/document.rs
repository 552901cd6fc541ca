//! Nested documents: their values, and how members are found in them.

use vstd::prelude::*;

verus! {

/// A JSON number, kept as the integer that stands for it.
#[derive(Debug, Clone, Copy, PartialEq, Eq, Structural)]
pub enum Number {
    /// A non-negative integer.
    PosInt(u64),
    /// A negative integer.
    NegInt(i64),
    /// A finite binary64 value, held as its IEEE-754 bit pattern.
    Float(u64),
}

/// A nested document: null, a scalar, a list, or an object whose fields keep
/// the order in which they were written. Of two fields with one name the
/// first is the one that is found; a well-formed document has no such fields.
#[derive(Debug, PartialEq, Eq)]
pub enum Document {
    Null,
    Bool(bool),
    Number(Number),
    Text(String),
    Array(Vec<Document>),
    Object(Vec<(String, Document)>),
}

/// The mathematical value of a [`Document`].
pub enum Json {
    Null,
    Bool(bool),
    Number(Number),
    Text(Seq<char>),
    Array(Seq<Json>),
    Object(Seq<(Seq<char>, Json)>),
}

/// The fields of an object, as key and value.
pub type Fields = Seq<(Seq<char>, Json)>;

/// The value that a document holds.
pub open spec fn json_of(doc: Document) -> Json
    decreases doc,
{
    match doc {
        Document::Null => Json::Null,
        Document::Bool(b) => Json::Bool(b),
        Document::Number(n) => Json::Number(n),
        Document::Text(s) => Json::Text(s@),
        Document::Array(items) => Json::Array(
            Seq::new(
                items@.len(),
                |i: int|
                    if 0 <= i < items@.len() {
                        json_of(items@[i])
                    } else {
                        Json::Null
                    },
            ),
        ),
        Document::Object(fields) => Json::Object(
            Seq::new(
                fields@.len(),
                |i: int|
                    if 0 <= i < fields@.len() {
                        (fields@[i].0@, json_of(fields@[i].1))
                    } else {
                        (Seq::empty(), Json::Null)
                    },
            ),
        ),
    }
}

impl View for Document {
    type V = Json;

    open spec fn view(&self) -> Json {
        json_of(*self)
    }
}

/// The values of a list of documents.
pub open spec fn items_view(items: Seq<Document>) -> Seq<Json> {
    Seq::new(items.len(), |i: int| items[i]@)
}

/// The keys and values of a list of fields.
pub open spec fn fields_view(fields: Seq<(String, Document)>) -> Fields {
    Seq::new(fields.len(), |i: int| (fields[i].0@, fields[i].1@))
}

/// The texts of a path.
pub open spec fn path_view(path: Seq<&str>) -> Seq<Seq<char>> {
    Seq::new(path.len(), |i: int| path[i]@)
}

/// The index of the first field named `key`, or the number of fields where
/// there is none.
pub open spec fn position<V>(fields: Seq<(Seq<char>, V)>, key: Seq<char>) -> int
    decreases fields.len(),
{
    if fields.len() == 0 {
        0
    } else if fields[0].0 == key {
        0
    } else {
        1 + position(fields.skip(1), key)
    }
}

/// The value of the first field named `key`.
pub open spec fn lookup(fields: Fields, key: Seq<char>) -> Option<Json> {
    let at = position(fields, key);
    if at < fields.len() {
        Some(fields[at].1)
    } else {
        None
    }
}

/// No key occurs twice.
pub open spec fn distinct_keys(fields: Fields) -> bool {
    forall|i: int, j: int|
        0 <= i < j < fields.len() ==> (#[trigger] fields[i]).0 != (#[trigger] fields[j]).0
}

impl Json {
    /// The member `key` of an object; nothing for any other value.
    pub open spec fn member(self, key: Seq<char>) -> Option<Json> {
        match self {
            Json::Object(fields) => lookup(fields, key),
            _ => None,
        }
    }

    /// The value that the members named by `path` lead to, one after the other.
    pub open spec fn reach(self, path: Seq<Seq<char>>) -> Option<Json>
        decreases path.len(),
    {
        if path.len() == 0 {
            Some(self)
        } else {
            match self.member(path[0]) {
                Some(child) => child.reach(path.skip(1)),
                None => None,
            }
        }
    }

    /// The text of a string value.
    pub open spec fn text(self) -> Option<Seq<char>> {
        match self {
            Json::Text(s) => Some(s),
            _ => None,
        }
    }

    /// Every object in the document names each of its fields once.
    pub open spec fn well_formed(self) -> bool
        decreases self,
    {
        match self {
            Json::Array(items) => forall|i: int|
                0 <= i < items.len() ==> (#[trigger] items[i]).well_formed(),
            Json::Object(fields) => distinct_keys(fields) && forall|i: int|
                0 <= i < fields.len() ==> (#[trigger] fields[i]).1.well_formed(),
            _ => true,
        }
    }
}

impl Number {
    /// The number as a 64-bit signed integer, where it is an integer in that
    /// range.
    pub open spec fn spec_as_i64(self) -> Option<i64> {
        match self {
            Number::PosInt(n) => if n <= i64::MAX as u64 {
                Some(n as i64)
            } else {
                None
            },
            Number::NegInt(n) => Some(n),
            Number::Float(_) => None,
        }
    }

    /// The number as a 64-bit signed integer, where it is an integer in that
    /// range.
    #[verifier::when_used_as_spec(spec_as_i64)]
    pub fn as_i64(self) -> (value: Option<i64>)
        ensures
            value == self.spec_as_i64(),
    {
        match self {
            Number::PosInt(n) => if n <= i64::MAX as u64 {
                Some(n as i64)
            } else {
                None
            },
            Number::NegInt(n) => Some(n),
            Number::Float(_) => None,
        }
    }

    /// The number that stands for a 32-bit signed integer.
    pub open spec fn spec_from_i32(n: i32) -> Number {
        if n >= 0 {
            Number::PosInt(n as u64)
        } else {
            Number::NegInt(n as i64)
        }
    }

    #[verifier::when_used_as_spec(spec_from_i32)]
    pub fn from_i32(n: i32) -> (number: Number)
        ensures
            number == Number::spec_from_i32(n),
    {
        if n >= 0 {
            Number::PosInt(n as u64)
        } else {
            Number::NegInt(n as i64)
        }
    }
}

impl Clone for Document {
    fn clone(&self) -> (copy: Self)
        ensures
            copy@ == self@,
        decreases self,
    {
        match self {
            Document::Null => Document::Null,
            Document::Bool(b) => Document::Bool(*b),
            Document::Number(n) => Document::Number(*n),
            Document::Text(s) => Document::Text(s.clone()),
            Document::Array(items) => {
                let mut copies: Vec<Document> = Vec::new();
                let mut i: usize = 0;
                while i < items.len()
                    invariant
                        *self == Document::Array(*items),
                        i <= items.len(),
                        copies.len() == i,
                        forall|k: int| 0 <= k < i ==> copies@[k]@ == items@[k]@,
                    decreases items.len() - i,
                {
                    assert(decreases_to!(*self => self->Array_0));
                    assert(decreases_to!(*items => items[i as int]));
                    copies.push(items[i].clone());
                    i += 1;
                }
                let copy = Document::Array(copies);
                assert(copy@->Array_0 =~= self@->Array_0);
                copy
            },
            Document::Object(fields) => {
                let mut copies: Vec<(String, Document)> = Vec::new();
                let mut i: usize = 0;
                while i < fields.len()
                    invariant
                        *self == Document::Object(*fields),
                        i <= fields.len(),
                        copies.len() == i,
                        forall|k: int|
                            0 <= k < i ==> copies@[k].0@ == fields@[k].0@ && copies@[k].1@
                                == fields@[k].1@,
                    decreases fields.len() - i,
                {
                    assert(decreases_to!(*self => self->Object_0));
                    assert(decreases_to!(*fields => fields[i as int]));
                    copies.push((fields[i].0.clone(), fields[i].1.clone()));
                    i += 1;
                }
                let copy = Document::Object(copies);
                assert(copy@->Object_0 =~= self@->Object_0);
                copy
            },
        }
    }
}

/// The index of the first field named `key`, or the number of fields.
pub fn find_field(fields: &Vec<(String, Document)>, key: &str) -> (at: usize)
    ensures
        at == position(fields_view(fields@), key@),
        at <= fields.len(),
{
    let wanted: String = key.to_owned();
    let mut i: usize = 0;
    while i < fields.len()
        invariant
            i <= fields.len(),
            wanted@ == key@,
            forall|j: int| 0 <= j < i ==> (#[trigger] fields_view(fields@)[j]).0 != key@,
        decreases fields.len() - i,
    {
        if fields[i].0 == wanted {
            proof {
                lemma_position(fields_view(fields@), key@, i as int);
            }
            return i;
        }
        i += 1;
    }
    proof {
        lemma_position(fields_view(fields@), key@, i as int);
    }
    i
}

impl Document {
    /// The member `key` of an object.
    pub fn get(&self, key: &str) -> (found: Option<&Document>)
        ensures
            match found {
                Some(child) => self@.member(key@) == Some(child@),
                None => self@.member(key@) is None,
            },
    {
        match self {
            Document::Object(fields) => {
                assert(self@->Object_0 =~= fields_view(fields@));
                let at: usize = find_field(fields, key);
                if at < fields.len() {
                    Some(&fields[at].1)
                } else {
                    None
                }
            },
            _ => None,
        }
    }

    /// The value that the members named by `path` lead to.
    pub fn find(&self, path: &[&str]) -> (found: Option<&Document>)
        ensures
            match found {
                Some(target) => self@.reach(path_view(path@)) == Some(target@),
                None => self@.reach(path_view(path@)) is None,
            },
    {
        let mut current: &Document = self;
        let mut i: usize = 0;
        assert(path_view(path@).skip(0) =~= path_view(path@));
        while i < path.len()
            invariant
                i <= path.len(),
                self@.reach(path_view(path@)) == current@.reach(path_view(path@).skip(i as int)),
            decreases path.len() - i,
        {
            let ghost steps = path_view(path@).skip(i as int);
            assert(steps[0] == path@[i as int]@);
            assert(steps.skip(1) =~= path_view(path@).skip(i + 1));
            match current.get(path[i]) {
                Some(child) => {
                    current = child;
                },
                None => {
                    return None;
                },
            }
            i += 1;
        }
        Some(current)
    }

    /// The text of a string value.
    pub fn as_text(&self) -> (found: Option<&str>)
        ensures
            match found {
                Some(s) => self@.text() == Some(s@),
                None => self@.text() is None,
            },
    {
        match self {
            Document::Text(s) => Some(s.as_str()),
            _ => None,
        }
    }
}

/// `position` is the least index that holds the key.
pub proof fn lemma_position<V>(fields: Seq<(Seq<char>, V)>, key: Seq<char>, at: int)
    requires
        0 <= at <= fields.len(),
        forall|j: int| 0 <= j < at ==> (#[trigger] fields[j]).0 != key,
        at < fields.len() ==> fields[at].0 == key,
    ensures
        position(fields, key) == at,
    decreases at,
{
    if at > 0 {
        let rest = fields.skip(1);
        assert(fields[0].0 != key);
        assert forall|j: int| 0 <= j < at - 1 implies (#[trigger] rest[j]).0 != key by {
            assert(rest[j] == fields[j + 1]);
        }
        lemma_position(rest, key, at - 1);
    }
}

/// What `position` returns.
pub proof fn lemma_position_is_first<V>(fields: Seq<(Seq<char>, V)>, key: Seq<char>)
    ensures
        0 <= position(fields, key) <= fields.len(),
        forall|j: int| 0 <= j < position(fields, key) ==> (#[trigger] fields[j]).0 != key,
        position(fields, key) < fields.len() ==> fields[position(fields, key)].0 == key,
    decreases fields.len(),
{
    if fields.len() > 0 && fields[0].0 != key {
        let rest = fields.skip(1);
        lemma_position_is_first(rest, key);
        assert forall|j: int| 0 <= j < position(fields, key) implies (#[trigger] fields[j]).0
            != key by {
            if j > 0 {
                assert(rest[j - 1] == fields[j]);
            }
        }
    }
}

/// Where a key stands depends on the keys alone.
pub proof fn lemma_position_same_keys<V, W>(
    a: Seq<(Seq<char>, V)>,
    b: Seq<(Seq<char>, W)>,
    key: Seq<char>,
)
    requires
        a.len() == b.len(),
        forall|i: int| 0 <= i < a.len() ==> (#[trigger] a[i]).0 == b[i].0,
    ensures
        position(a, key) == position(b, key),
{
    lemma_position_is_first(a, key);
    let at = position(a, key);
    assert forall|j: int| 0 <= j < at implies (#[trigger] b[j]).0 != key by {
        assert(a[j].0 == b[j].0);
    }
    if at < a.len() {
        assert(a[at].0 == b[at].0);
    }
    lemma_position(b, key, at);
}

} // verus!
