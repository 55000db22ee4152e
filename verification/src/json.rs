//! A document tree (the data model shared by JSON and YAML): null,
//! booleans, numbers (kept as their decimal text), strings, arrays and
//! objects with ordered entries; its mathematical model; deep copy,
//! structural equality, field lookup and compact JSON text.

use vstd::prelude::*;
use crate::sort::{models, Keyed};
use crate::text::{append_str, join, push_char, str_eq};

verus! {

/// A document tree node.
#[derive(Debug, PartialEq, Eq)]
pub enum Value {
    Null,
    Bool(bool),
    /// A number, held as its JSON text.
    Number(String),
    Str(String),
    Array(Vec<Value>),
    /// Entries in order; a key may be looked up with [`obj_get`].
    Object(Vec<(String, Value)>),
}

/// The mathematical model of a [`Value`].
pub enum JsonModel {
    Null,
    Bool(bool),
    Number(Seq<char>),
    Str(Seq<char>),
    Array(Seq<JsonModel>),
    Object(Seq<(Seq<char>, JsonModel)>),
}

/// The model of a value.
pub open spec fn model_of(v: Value) -> JsonModel
    decreases v,
{
    match v {
        Value::Null => JsonModel::Null,
        Value::Bool(b) => JsonModel::Bool(b),
        Value::Number(n) => JsonModel::Number(n@),
        Value::Str(s) => JsonModel::Str(s@),
        Value::Array(items) => JsonModel::Array(
            Seq::new(
                items.len() as nat,
                |i: int|
                    if 0 <= i < items.len() {
                        model_of(items@[i])
                    } else {
                        JsonModel::Null
                    },
            ),
        ),
        Value::Object(entries) => JsonModel::Object(
            Seq::new(
                entries.len() as nat,
                |i: int|
                    if 0 <= i < entries.len() {
                        (entries@[i].0@, model_of(entries@[i].1))
                    } else {
                        (Seq::empty(), JsonModel::Null)
                    },
            ),
        ),
    }
}

impl View for Value {
    type V = JsonModel;

    open spec fn view(&self) -> JsonModel {
        model_of(*self)
    }
}

/// The models of a list of values.
pub open spec fn items_model(s: Seq<Value>) -> Seq<JsonModel> {
    Seq::new(s.len(), |i: int| s[i]@)
}

/// The models of a list of object entries.
pub open spec fn entries_model(s: Seq<(String, Value)>) -> Seq<(Seq<char>, JsonModel)> {
    Seq::new(s.len(), |i: int| (s[i].0@, s[i].1@))
}

pub proof fn lemma_array_model(items: Vec<Value>)
    ensures
        model_of(Value::Array(items)) == JsonModel::Array(items_model(items@)),
{
    match model_of(Value::Array(items)) {
        JsonModel::Array(m) => {
            assert(m =~= items_model(items@));
        },
        _ => {},
    }
}

pub proof fn lemma_object_model(entries: Vec<(String, Value)>)
    ensures
        model_of(Value::Object(entries)) == JsonModel::Object(entries_model(entries@)),
{
    match model_of(Value::Object(entries)) {
        JsonModel::Object(m) => {
            assert(m =~= entries_model(entries@));
        },
        _ => {},
    }
}

impl Value {
    /// A deep copy with the same model.
    #[verifier::loop_isolation(false)]
    pub fn duplicate(&self) -> (r: Value)
        ensures
            r@ == self@,
        decreases self,
    {
        match self {
            Value::Null => Value::Null,
            Value::Bool(b) => Value::Bool(*b),
            Value::Number(n) => Value::Number(n.clone()),
            Value::Str(s) => Value::Str(s.clone()),
            Value::Array(items) => {
                let mut out: Vec<Value> = Vec::new();
                let mut i: usize = 0;
                while i < items.len()
                    invariant
                        i <= items.len(),
                        items_model(out@) == items_model(items@).take(i as int),
                    decreases items.len() - i,
                {
                    let c = items[i].duplicate();
                    let ghost before = out@;
                    out.push(c);
                    assert(items_model(out@) =~= items_model(items@).take(i + 1));
                    i = i + 1;
                }
                proof {
                    assert(items_model(items@).take(items.len() as int) == items_model(items@));
                    lemma_array_model(out);
                    lemma_array_model(*items);
                }
                Value::Array(out)
            },
            Value::Object(entries) => {
                let mut out: Vec<(String, Value)> = Vec::new();
                let mut i: usize = 0;
                while i < entries.len()
                    invariant
                        i <= entries.len(),
                        entries_model(out@) == entries_model(entries@).take(i as int),
                    decreases entries.len() - i,
                {
                    let c = entries[i].1.duplicate();
                    out.push((entries[i].0.clone(), c));
                    assert(entries_model(out@) =~= entries_model(entries@).take(i + 1));
                    i = i + 1;
                }
                proof {
                    assert(entries_model(entries@).take(entries.len() as int) == entries_model(
                        entries@,
                    ));
                    lemma_object_model(out);
                    lemma_object_model(*entries);
                }
                Value::Object(out)
            },
        }
    }

    /// Whether two values have the same model.
    #[verifier::loop_isolation(false)]
    pub fn same(&self, other: &Value) -> (r: bool)
        ensures
            r == (self@ == other@),
        decreases self,
    {
        match (self, other) {
            (Value::Null, Value::Null) => true,
            (Value::Bool(a), Value::Bool(b)) => *a == *b,
            (Value::Number(a), Value::Number(b)) => str_eq(a.as_str(), b.as_str()),
            (Value::Str(a), Value::Str(b)) => str_eq(a.as_str(), b.as_str()),
            (Value::Array(a), Value::Array(b)) => {
                proof {
                    lemma_array_model(*a);
                    lemma_array_model(*b);
                }
                if a.len() != b.len() {
                    assert(items_model(a@).len() != items_model(b@).len());
                    return false;
                }
                let mut i: usize = 0;
                while i < a.len()
                    invariant
                        i <= a.len(),
                        a.len() == b.len(),
                        items_model(a@).take(i as int) == items_model(b@).take(i as int),
                    decreases a.len() - i,
                {
                    if !a[i].same(&b[i]) {
                        assert(items_model(a@)[i as int] != items_model(b@)[i as int]);
                        return false;
                    }
                    assert(items_model(a@).take(i + 1) =~= items_model(a@).take(i as int).push(
                        a@[i as int]@,
                    ));
                    assert(items_model(b@).take(i + 1) =~= items_model(b@).take(i as int).push(
                        b@[i as int]@,
                    ));
                    i = i + 1;
                }
                assert(items_model(a@).take(a.len() as int) == items_model(a@));
                assert(items_model(b@).take(b.len() as int) == items_model(b@));
                true
            },
            (Value::Object(a), Value::Object(b)) => {
                proof {
                    lemma_object_model(*a);
                    lemma_object_model(*b);
                }
                if a.len() != b.len() {
                    assert(entries_model(a@).len() != entries_model(b@).len());
                    return false;
                }
                let mut i: usize = 0;
                while i < a.len()
                    invariant
                        i <= a.len(),
                        a.len() == b.len(),
                        entries_model(a@).take(i as int) == entries_model(b@).take(i as int),
                    decreases a.len() - i,
                {
                    if !(str_eq(a[i].0.as_str(), b[i].0.as_str()) && a[i].1.same(&b[i].1)) {
                        assert(entries_model(a@)[i as int] != entries_model(b@)[i as int]);
                        return false;
                    }
                    assert(entries_model(a@).take(i + 1) =~= entries_model(a@).take(
                        i as int,
                    ).push((a@[i as int].0@, a@[i as int].1@)));
                    assert(entries_model(b@).take(i + 1) =~= entries_model(b@).take(
                        i as int,
                    ).push((b@[i as int].0@, b@[i as int].1@)));
                    i = i + 1;
                }
                assert(entries_model(a@).take(a.len() as int) == entries_model(a@));
                assert(entries_model(b@).take(b.len() as int) == entries_model(b@));
                true
            },
            _ => false,
        }
    }
}

impl Clone for Value {
    fn clone(&self) -> (r: Value)
        ensures
            r@ == self@,
    {
        self.duplicate()
    }
}

/// Copies of a list of object entries.
pub fn duplicate_entries(e: &Vec<(String, Value)>) -> (r: Vec<(String, Value)>)
    ensures
        entries_model(r@) == entries_model(e@),
{
    let mut out: Vec<(String, Value)> = Vec::new();
    let mut i: usize = 0;
    while i < e.len()
        invariant
            i <= e.len(),
            out.len() == i,
            entries_model(out@) == entries_model(e@).take(i as int),
        decreases e.len() - i,
    {
        let c = e[i].1.duplicate();
        let k = e[i].0.clone();
        let ghost before = out@;
        out.push((k, c));
        assert(entries_model(out@) =~= entries_model(e@).take(i + 1));
        i = i + 1;
    }
    assert(entries_model(e@).take(e.len() as int) == entries_model(e@));
    out
}

// ---------------------------------------------------------------------------
// Lookup
// ---------------------------------------------------------------------------

/// The index of the first entry with key `k`, or the number of entries.
pub open spec fn key_index(e: Seq<(Seq<char>, JsonModel)>, k: Seq<char>) -> int
    decreases e.len(),
{
    if e.len() == 0 {
        0
    } else if e[0].0 == k {
        0
    } else {
        1 + key_index(e.drop_first(), k)
    }
}

/// The value of the first entry with key `k`.
pub open spec fn entry_get(e: Seq<(Seq<char>, JsonModel)>, k: Seq<char>) -> Option<JsonModel> {
    let i = key_index(e, k);
    if 0 <= i < e.len() {
        Some(e[i].1)
    } else {
        None
    }
}

/// The value of field `k` of an object (`None` for other values).
pub open spec fn field(v: JsonModel, k: Seq<char>) -> Option<JsonModel> {
    match v {
        JsonModel::Object(e) => entry_get(e, k),
        _ => None,
    }
}

/// The text of a string value (`None` for other values).
pub open spec fn as_str(v: Option<JsonModel>) -> Option<Seq<char>> {
    match v {
        Some(JsonModel::Str(s)) => Some(s),
        _ => None,
    }
}

pub proof fn lemma_key_index(e: Seq<(Seq<char>, JsonModel)>, k: Seq<char>)
    ensures
        0 <= key_index(e, k) <= e.len(),
        key_index(e, k) < e.len() ==> e[key_index(e, k)].0 == k,
        forall|j: int| 0 <= j < key_index(e, k) ==> e[j].0 != k,
    decreases e.len(),
{
    if e.len() > 0 && e[0].0 != k {
        lemma_key_index(e.drop_first(), k);
        assert forall|j: int| 0 <= j < key_index(e, k) implies e[j].0 != k by {
            if j > 0 {
                assert(e[j] == e.drop_first()[j - 1]);
            }
        }
    }
}

/// The index of the first entry with key `k`, or the number of entries.
pub fn find_key(e: &Vec<(String, Value)>, k: &str) -> (i: usize)
    ensures
        i == key_index(entries_model(e@), k@),
{
    let ghost m = entries_model(e@);
    proof {
        lemma_key_index(m, k@);
    }
    let mut i: usize = 0;
    while i < e.len()
        invariant
            i <= e.len(),
            m == entries_model(e@),
            forall|j: int| 0 <= j < i ==> m[j].0 != k@,
            0 <= key_index(m, k@) <= m.len(),
            key_index(m, k@) < m.len() ==> m[key_index(m, k@)].0 == k@,
            forall|j: int| 0 <= j < key_index(m, k@) ==> m[j].0 != k@,
        decreases e.len() - i,
    {
        if str_eq(e[i].0.as_str(), k) {
            assert(m[i as int].0 == k@);
            return i;
        }
        i = i + 1;
    }
    i
}

/// The value of the first entry with key `k`.
pub fn obj_get<'a>(e: &'a Vec<(String, Value)>, k: &str) -> (r: Option<&'a Value>)
    ensures
        match r {
            Some(v) => entry_get(entries_model(e@), k@) == Some(v@),
            None => entry_get(entries_model(e@), k@) is None,
        },
{
    let i = find_key(e, k);
    if i < e.len() {
        Some(&e[i].1)
    } else {
        None
    }
}

// ---------------------------------------------------------------------------
// Compact JSON text
// ---------------------------------------------------------------------------

/// A lowercase hexadecimal digit.
pub open spec fn hex_digit(d: u32) -> char {
    if d < 10 {
        ((d + 48) as u8) as char
    } else {
        ((d + 87) as u8) as char
    }
}

/// The JSON escape of one character inside a string literal: `"` and `\`
/// are backslash-escaped, the control characters with a short form use it,
/// the other control characters are written `\u00XX`, and everything else
/// is written as is.
pub open spec fn escape_char(c: char) -> Seq<char> {
    if c == '"' {
        seq!['\\', '"']
    } else if c == '\\' {
        seq!['\\', '\\']
    } else if c == '\n' {
        seq!['\\', 'n']
    } else if c == '\r' {
        seq!['\\', 'r']
    } else if c == '\t' {
        seq!['\\', 't']
    } else if c == '\x08' {
        seq!['\\', 'b']
    } else if c == '\x0c' {
        seq!['\\', 'f']
    } else if (c as u32) < 32 {
        seq!['\\', 'u', '0', '0', hex_digit((c as u32) / 16), hex_digit((c as u32) % 16)]
    } else {
        seq![c]
    }
}

/// The escape of every character of `s`, in order.
pub open spec fn escape(s: Seq<char>) -> Seq<char>
    decreases s.len(),
{
    if s.len() == 0 {
        Seq::empty()
    } else {
        escape(s.drop_last()) + escape_char(s.last())
    }
}

/// `s` as a JSON string literal.
pub open spec fn quote(s: Seq<char>) -> Seq<char> {
    seq!['"'] + escape(s) + seq!['"']
}

/// The compact JSON text of a value: no whitespace, object entries in
/// their order.
pub open spec fn json_text(v: JsonModel) -> Seq<char>
    decreases v,
{
    match v {
        JsonModel::Null => seq!['n', 'u', 'l', 'l'],
        JsonModel::Bool(b) => if b {
            seq!['t', 'r', 'u', 'e']
        } else {
            seq!['f', 'a', 'l', 's', 'e']
        },
        JsonModel::Number(n) => n,
        JsonModel::Str(s) => quote(s),
        JsonModel::Array(items) => seq!['['] + join(item_texts(items), seq![',']) + seq![']'],
        JsonModel::Object(e) => seq!['{'] + join(entry_texts(e), seq![',']) + seq!['}'],
    }
}

/// The texts of the items of an array.
pub open spec fn item_texts(items: Seq<JsonModel>) -> Seq<Seq<char>>
    decreases items,
{
    Seq::new(
        items.len(),
        |i: int|
            if 0 <= i < items.len() {
                json_text(items[i])
            } else {
                Seq::empty()
            },
    )
}

/// The texts of the entries of an object: key literal, colon, value.
pub open spec fn entry_texts(e: Seq<(Seq<char>, JsonModel)>) -> Seq<Seq<char>>
    decreases e,
{
    Seq::new(
        e.len(),
        |i: int|
            if 0 <= i < e.len() {
                quote(e[i].0) + seq![':'] + json_text(e[i].1)
            } else {
                Seq::empty()
            },
    )
}

fn hex_char(d: u32) -> (c: char)
    requires
        d < 16,
    ensures
        c == hex_digit(d),
{
    if d < 10 {
        ((d + 48) as u8) as char
    } else {
        ((d + 87) as u8) as char
    }
}

/// Appends `s` as a JSON string literal.
pub fn write_quoted(out: &mut String, s: &str)
    ensures
        final(out)@ == old(out)@ + quote(s@),
{
    let cs = crate::text::chars_of(s);
    let ghost start = out@;
    push_char(out, '"');
    let mut i: usize = 0;
    while i < cs.len()
        invariant
            i <= cs.len(),
            cs@ == s@,
            out@ == start + seq!['"'] + escape(cs@.take(i as int)),
        decreases cs.len() - i,
    {
        let c = cs[i];
        let ghost before = out@;
        if c == '"' {
            push_char(out, '\\');
            push_char(out, '"');
        } else if c == '\\' {
            push_char(out, '\\');
            push_char(out, '\\');
        } else if c == '\n' {
            push_char(out, '\\');
            push_char(out, 'n');
        } else if c == '\r' {
            push_char(out, '\\');
            push_char(out, 'r');
        } else if c == '\t' {
            push_char(out, '\\');
            push_char(out, 't');
        } else if c == '\x08' {
            push_char(out, '\\');
            push_char(out, 'b');
        } else if c == '\x0c' {
            push_char(out, '\\');
            push_char(out, 'f');
        } else if (c as u32) < 32 {
            push_char(out, '\\');
            push_char(out, 'u');
            push_char(out, '0');
            push_char(out, '0');
            push_char(out, hex_char((c as u32) / 16));
            push_char(out, hex_char((c as u32) % 16));
        } else {
            push_char(out, c);
        }
        assert(out@ =~= before + escape_char(c));
        assert(cs@.take(i + 1).drop_last() == cs@.take(i as int));
        assert(cs@.take(i + 1).last() == c);
        i = i + 1;
    }
    push_char(out, '"');
    assert(cs@.take(cs.len() as int) == cs@);
}

/// Appends the compact JSON text of `v`.
pub fn write_json(out: &mut String, v: &Value)
    ensures
        final(out)@ == old(out)@ + json_text(v@),
    decreases v,
{
    let ghost start = out@;
    match v {
        Value::Null => {
            push_char(out, 'n');
            push_char(out, 'u');
            push_char(out, 'l');
            push_char(out, 'l');
            assert(out@ =~= start + json_text(v@));
        },
        Value::Bool(b) => {
            if *b {
                push_char(out, 't');
                push_char(out, 'r');
                push_char(out, 'u');
                push_char(out, 'e');
            } else {
                push_char(out, 'f');
                push_char(out, 'a');
                push_char(out, 'l');
                push_char(out, 's');
                push_char(out, 'e');
            }
            assert(out@ =~= start + json_text(v@));
        },
        Value::Number(n) => {
            append_str(out, n.as_str());
        },
        Value::Str(s) => {
            write_quoted(out, s.as_str());
        },
        Value::Array(items) => {
            proof {
                lemma_array_model(*items);
            }
            push_char(out, '[');
            write_items(out, items);
            push_char(out, ']');
            assert(out@ =~= start + json_text(v@));
        },
        Value::Object(e) => {
            proof {
                lemma_object_model(*e);
            }
            push_char(out, '{');
            write_entries(out, e);
            push_char(out, '}');
            assert(out@ =~= start + json_text(v@));
        },
    }
}

/// Appends the texts of `items`, comma-separated.
#[verifier::loop_isolation(false)]
fn write_items(out: &mut String, items: &Vec<Value>)
    ensures
        final(out)@ == old(out)@ + join(item_texts(items_model(items@)), seq![',']),
    decreases items,
{
    let ghost start = out@;
    let ghost texts = item_texts(items_model(items@));
    let mut i: usize = 0;
    while i < items.len()
        invariant
            i <= items.len(),
            out@ == start + join(texts.take(i as int), seq![',']),
        decreases items.len() - i,
    {
        if i > 0 {
            push_char(out, ',');
        }
        write_json(out, &items[i]);
        proof {
            let t = texts.take(i + 1);
            assert(t.drop_last() == texts.take(i as int));
            assert(t.last() == json_text(items@[i as int]@));
            if i == 0 {
                assert(join(t, seq![',']) == t[0]);
            }
        }
        assert(out@ =~= start + join(texts.take(i + 1), seq![',']));
        i = i + 1;
    }
    assert(texts.take(items.len() as int) == texts);
}

/// Appends the texts of the entries `e`, comma-separated.
#[verifier::loop_isolation(false)]
fn write_entries(out: &mut String, e: &Vec<(String, Value)>)
    ensures
        final(out)@ == old(out)@ + join(entry_texts(entries_model(e@)), seq![',']),
    decreases e,
{
    let ghost start = out@;
    let ghost texts = entry_texts(entries_model(e@));
    let mut i: usize = 0;
    while i < e.len()
        invariant
            i <= e.len(),
            out@ == start + join(texts.take(i as int), seq![',']),
        decreases e.len() - i,
    {
        if i > 0 {
            push_char(out, ',');
        }
        let ghost mid = out@;
        write_quoted(out, e[i].0.as_str());
        push_char(out, ':');
        write_json(out, &e[i].1);
        proof {
            let t = texts.take(i + 1);
            assert(t.drop_last() == texts.take(i as int));
            assert(t.last() == quote(e@[i as int].0@) + seq![':'] + json_text(e@[i as int].1@));
            assert(out@ =~= mid + t.last());
            if i == 0 {
                assert(join(t, seq![',']) == t[0]);
            }
        }
        assert(out@ =~= start + join(texts.take(i + 1), seq![',']));
        i = i + 1;
    }
    assert(texts.take(e.len() as int) == texts);
}

/// The compact JSON text of `v`.
pub fn to_json(v: &Value) -> (r: String)
    ensures
        r@ == json_text(v@),
{
    let mut out = String::new();
    write_json(&mut out, v);
    assert(out@ =~= json_text(v@));
    out
}

// ---------------------------------------------------------------------------
// Ordering entries by key
// ---------------------------------------------------------------------------

/// An entry (or a value paired with a sort text) is ordered by its text.
impl Keyed for (String, Value) {
    open spec fn mkey(m: (Seq<char>, JsonModel)) -> Seq<Seq<char>> {
        seq![m.0]
    }

    fn sorts_before(&self, other: &Self) -> (b: bool) {
        let r = crate::text::str_lt(self.0.as_str(), other.0.as_str());
        proof {
            let a = Self::mkey(self@);
            let b = Self::mkey(other@);
            assert(a.drop_first().len() == 0);
            assert(b.drop_first().len() == 0);
            crate::text::lemma_key_irrefl(a.drop_first());
            crate::text::lemma_lex_irrefl(self.0@);
            assert(a.drop_first() == b.drop_first());
        }
        r
    }
}

/// The entry models are the element models.
pub proof fn lemma_entries_models(e: Seq<(String, Value)>)
    ensures
        entries_model(e) == models(e),
{
    assert(entries_model(e) =~= models(e));
}

} // verus!
