//! The header of an entry: a table of named values, read and written by
//! paths of names with dots between them, as in `todo.uuid`.

use vstd::prelude::*;
use vstd::string::*;
use crate::error::Error;
use crate::store::{StoreError, StoreErrorKind};
use crate::text::{split, split_text};
use crate::value::{fields_view, lemma_table_view, FieldView, Value, ValueView};

verus! {

/// The fields of a table.
pub type Fields = Seq<FieldView>;

/// Whether `fields` holds a field named `key`.
pub open spec fn has_field(fields: Fields, key: Seq<char>) -> bool {
    exists|i: int| 0 <= i < fields.len() && (#[trigger] fields[i]).name == key
}

/// Whether the field at `i` is the first of `fields` that is named `key`.
pub open spec fn is_first_field(fields: Fields, key: Seq<char>, i: int) -> bool {
    &&& 0 <= i < fields.len()
    &&& fields[i].name == key
    &&& forall|j: int| 0 <= j < i ==> (#[trigger] fields[j]).name != key
}

/// The place of the first of `fields` that is named `key`, where there is
/// one.
pub open spec fn first_field(fields: Fields, key: Seq<char>) -> int {
    choose|i: int| is_first_field(fields, key, i)
}

/// What reading a path gives.
pub ghost enum Lookup {
    /// The value at the path.
    Found(ValueView),
    /// Nothing: a name of the path is missing.
    Missing,
    /// An error: the path runs through a value that is no table.
    NotATable,
}

/// What stands in `v` at `path`: each name of the path picks the first field
/// of that name in the table reached so far.
pub open spec fn read_path(v: ValueView, path: Seq<Seq<char>>) -> Lookup
    decreases path.len(),
{
    if path.len() == 0 {
        Lookup::Found(v)
    } else {
        match v {
            ValueView::Table(fields) => if has_field(fields, path[0]) {
                read_path(fields[first_field(fields, path[0])].value, path.drop_first())
            } else {
                Lookup::Missing
            },
            _ => Lookup::NotATable,
        }
    }
}

/// What writing a value at a path gives.
pub ghost enum Written {
    /// The tree with the value in place, and what stood there before.
    Done { tree: ValueView, previous: Option<ValueView> },
    /// An error: a name of the path before its last is missing.
    Missing,
    /// An error: the path runs through a value that is no table.
    NotATable,
}

/// `v` with `x` written at `path`: the names before the last have to lead
/// through tables that exist; under the last name `x` takes the place of the
/// first field of that name, or becomes the last field of the table.
pub open spec fn write_path(v: ValueView, path: Seq<Seq<char>>, x: ValueView) -> Written
    decreases path.len(),
{
    if path.len() == 0 {
        Written::Missing
    } else {
        match v {
            ValueView::Table(fields) => if path.len() == 1 {
                if has_field(fields, path[0]) {
                    let i = first_field(fields, path[0]);
                    Written::Done {
                        tree: ValueView::Table(fields.update(i, FieldView { name: path[0], value: x })),
                        previous: Some(fields[i].value),
                    }
                } else {
                    Written::Done {
                        tree: ValueView::Table(fields.push(FieldView { name: path[0], value: x })),
                        previous: None,
                    }
                }
            } else if has_field(fields, path[0]) {
                let i = first_field(fields, path[0]);
                match write_path(fields[i].value, path.drop_first(), x) {
                    Written::Done { tree, previous } => Written::Done {
                        tree: ValueView::Table(fields.update(i, FieldView { name: path[0], value: tree })),
                        previous,
                    },
                    Written::Missing => Written::Missing,
                    Written::NotATable => Written::NotATable,
                }
            } else {
                Written::Missing
            },
            _ => Written::NotATable,
        }
    }
}

/// Where a field is named `key`, one of them is the first.
pub proof fn lemma_first_field(fields: Fields, key: Seq<char>)
    requires
        has_field(fields, key),
    ensures
        is_first_field(fields, key, first_field(fields, key)),
{
    let j = choose|j: int| 0 <= j < fields.len() && (#[trigger] fields[j]).name == key;
    lemma_first_before(fields, key, j);
}

/// Where the field at `j` is named `key`, that field or one before it is the
/// first of that name.
proof fn lemma_first_before(fields: Fields, key: Seq<char>, j: int)
    requires
        0 <= j < fields.len(),
        fields[j].name == key,
    ensures
        exists|i: int| is_first_field(fields, key, i),
    decreases j,
{
    if exists|k: int| 0 <= k < j && (#[trigger] fields[k]).name == key {
        let k = choose|k: int| 0 <= k < j && (#[trigger] fields[k]).name == key;
        lemma_first_before(fields, key, k);
    } else {
        assert(is_first_field(fields, key, j));
    }
}

/// A field that was read is there, and so is a field that was written.
pub proof fn lemma_field_is_there(v: ValueView, name: Seq<char>, x: ValueView)
    ensures
        read_path(v, seq![name]) is Found ==> v is Table && has_field(v->Table_0, name),
        write_path(v, seq![name], x) matches Written::Done { tree, .. } ==> tree is Table
            && has_field(tree->Table_0, name),
{
    if v is Table {
        let fields = v->Table_0;
        if has_field(fields, name) {
            lemma_first_field(fields, name);
            let i = first_field(fields, name);
            let after = fields.update(i, FieldView { name, value: x });
            assert(after[i].name == name);
        } else {
            let after = fields.push(FieldView { name, value: x });
            assert(after[fields.len() as int].name == name);
        }
    }
}

/// Under a field that is there, a field can be written unless the field
/// that is there is no table.
pub proof fn lemma_write_under(v: ValueView, name: Seq<char>, under: Seq<char>, x: ValueView)
    requires
        v is Table,
        has_field(v->Table_0, name),
    ensures
        !(write_path(v, seq![name, under], x) is Missing),
{
    reveal_with_fuel(write_path, 3);
    let path = seq![name, under];
    assert(path.drop_first() =~= seq![under]);
}

/// Whether `text` is a path: names with dots between them, none of them
/// empty.
pub open spec fn is_path(text: Seq<char>) -> bool {
    forall|i: int| 0 <= i < split(text, '.').len() ==> (#[trigger] split(text, '.')[i]).len() > 0
}

/// The place of the first of `fields` that is named `key`.
fn find_field(fields: &Vec<(String, Value)>, key: &str) -> (r: Option<usize>)
    ensures
        match r {
            Some(i) => is_first_field(fields_view(fields@), key@, i as int),
            None => !has_field(fields_view(fields@), key@),
        },
{
    let wanted = String::from_str(key);
    let mut i: usize = 0;
    while i < fields.len()
        invariant
            i <= fields@.len(),
            wanted@ == key@,
            forall|j: int| 0 <= j < i ==> (#[trigger] fields_view(fields@)[j]).name != key@,
        decreases fields@.len() - i,
    {
        if fields[i].0 == wanted {
            return Some(i);
        }
        i = i + 1;
    }
    None
}

/// The names of the path `text`, if it is one.
fn path_names<'a>(text: &'a str) -> (r: Option<Vec<&'a str>>)
    ensures
        r.is_some() == is_path(text@),
        r matches Some(names) ==> names@.len() == split(text@, '.').len() && forall|i: int|
            0 <= i < names@.len() ==> (#[trigger] names@[i])@ == split(text@, '.')[i],
{
    let names = split_text(text, '.');
    let mut i: usize = 0;
    while i < names.len()
        invariant
            i <= names@.len(),
            names@.len() == split(text@, '.').len(),
            forall|k: int| 0 <= k < names@.len() ==> (#[trigger] names@[k])@ == split(text@, '.')[k],
            forall|k: int| 0 <= k < i ==> (#[trigger] split(text@, '.')[k]).len() > 0,
        decreases names@.len() - i,
    {
        if names[i].unicode_len() == 0 {
            return None;
        }
        i = i + 1;
    }
    Some(names)
}

/// The names `names` from the place `from` on.
pub open spec fn names_from(names: Seq<&str>, from: int) -> Seq<Seq<char>> {
    Seq::new((names.len() - from) as nat, |i: int| names[from + i]@)
}

/// What stands in `v` at the names of `names` from `from` on.
fn read_in(v: &Value, names: &Vec<&str>, from: usize) -> (r: Result<Option<Value>, StoreError>)
    requires
        from <= names@.len(),
    ensures
        match read_path(v@, names_from(names@, from as int)) {
            Lookup::Found(x) => r matches Ok(Some(found)) && found@ == x,
            Lookup::Missing => r matches Ok(None),
            Lookup::NotATable => r matches Err(e) && e.is_bare(StoreErrorKind::HeaderPathTypeFailure),
        },
    decreases names@.len() - from,
{
    let ghost path = names_from(names@, from as int);
    if from == names.len() {
        return Ok(Some(v.clone()));
    }
    match v {
        Value::Table(fields) => {
            proof {
                lemma_table_view(*fields);
                assert(path.drop_first() =~= names_from(names@, from + 1));
            }
            match find_field(fields, names[from]) {
                Some(i) => {
                    read_in(&fields[i].1, names, from + 1)
                },
                None => Ok(None),
            }
        },
        _ => Err(Error::new(StoreErrorKind::HeaderPathTypeFailure, None)),
    }
}

/// What an optional value holds.
pub open spec fn option_view(o: Option<Value>) -> Option<ValueView> {
    match o {
        Some(v) => Some(v@),
        None => None,
    }
}

/// Writes `x` into `v` at the names of `names` from `from` on, and gives
/// what stood there before.
fn write_in(v: &mut Value, names: &Vec<&str>, from: usize, x: Value) -> (r: Result<
    Option<Value>,
    StoreError,
>)
    requires
        from < names@.len(),
    ensures
        match write_path(old(v)@, names_from(names@, from as int), x@) {
            Written::Done { tree, previous } => final(v)@ == tree && (r matches Ok(p)
                && option_view(p) == previous),
            Written::Missing => final(v)@ == old(v)@ && (r matches Err(e) && e.is_bare(
                StoreErrorKind::HeaderKeyNotFound,
            )),
            Written::NotATable => final(v)@ == old(v)@ && (r matches Err(e) && e.is_bare(
                StoreErrorKind::HeaderPathTypeFailure,
            )),
        },
    decreases names@.len() - from,
{
    let ghost path = names_from(names@, from as int);
    let last = from == names.len() - 1;
    match v {
        Value::Table(fields) => {
            let ghost before = fields@;
            proof {
                lemma_table_view(*fields);
                assert(path.drop_first() =~= names_from(names@, from + 1));
            }
            match find_field(fields, names[from]) {
                Some(i) => {
                    let (name, child) = fields.remove(i);
                    if last {
                        fields.insert(i, (name, x));
                        proof {
                            lemma_table_view(*fields);
                            assert(fields_view(fields@) =~= fields_view(before).update(
                                i as int,
                                FieldView { name: path[0], value: x@ },
                            ));
                        }
                        Ok(Some(child))
                    } else {
                        let mut child = child;
                        let r = write_in(&mut child, names, from + 1, x);
                        fields.insert(i, (name, child));
                        proof {
                            lemma_table_view(*fields);
                            assert(fields_view(fields@) =~= fields_view(before).update(
                                i as int,
                                FieldView { name: path[0], value: child@ },
                            ));
                            if r is Err {
                                assert(fields_view(fields@) =~= fields_view(before));
                            }
                        }
                        r
                    }
                },
                None => {
                    if last {
                        fields.push((String::from_str(names[from]), x));
                        proof {
                            lemma_table_view(*fields);
                            assert(fields_view(fields@) =~= fields_view(before).push(
                                FieldView { name: path[0], value: x@ },
                            ));
                        }
                        Ok(None)
                    } else {
                        Err(Error::new(StoreErrorKind::HeaderKeyNotFound, None))
                    }
                },
            }
        },
        _ => Err(Error::new(StoreErrorKind::HeaderPathTypeFailure, None)),
    }
}

/// The header of an entry: a table of named values.
#[derive(Debug)]
pub struct EntryHeader {
    toml: Value,
}

impl View for EntryHeader {
    type V = ValueView;

    closed spec fn view(&self) -> ValueView {
        self.toml@
    }
}

impl Clone for EntryHeader {
    fn clone(&self) -> (h: EntryHeader)
        ensures
            h@ == self@,
    {
        EntryHeader { toml: self.toml.clone() }
    }
}

impl EntryHeader {
    /// The header without fields.
    pub fn new() -> (h: EntryHeader)
        ensures
            h@ == ValueView::Table(Seq::empty()),
    {
        EntryHeader { toml: Value::empty_table() }
    }

    /// The header that holds `toml`.
    pub fn from_value(toml: Value) -> (h: EntryHeader)
        ensures
            h@ == toml@,
    {
        EntryHeader { toml }
    }

    /// What the header holds.
    pub fn toml(&self) -> (v: &Value)
        ensures
            v@ == self@,
    {
        &self.toml
    }

    /// The value at the path `spec`, a copy of it: `None` where a name of the
    /// path is missing. A text that is no path is refused, and so is a path
    /// that runs through a value that is no table.
    pub fn read(&self, spec: &str) -> (r: Result<Option<Value>, StoreError>)
        ensures
            !is_path(spec@) ==> (r matches Err(e) && e.is_bare(
                StoreErrorKind::HeaderPathSyntaxError,
            )),
            is_path(spec@) ==> match read_path(self@, split(spec@, '.')) {
                Lookup::Found(x) => r matches Ok(Some(found)) && found@ == x,
                Lookup::Missing => r matches Ok(None),
                Lookup::NotATable => r matches Err(e) && e.is_bare(
                    StoreErrorKind::HeaderPathTypeFailure,
                ),
            },
    {
        match path_names(spec) {
            None => Err(Error::new(StoreErrorKind::HeaderPathSyntaxError, None)),
            Some(names) => {
                proof {
                    assert(names_from(names@, 0) =~= split(spec@, '.'));
                }
                read_in(&self.toml, &names, 0)
            },
        }
    }
}

impl EntryHeader {
    /// Writes `v` at the path `spec` and gives what stood there before.
    /// The names before the last have to lead through tables that exist;
    /// the last names the field to write, which is added where the table
    /// has none of that name. Where the write is refused, the header stays
    /// as it is: for a text that is no path, for a name that is missing on
    /// the way, and for a path that runs through a value that is no table.
    pub fn set(&mut self, spec: &str, v: Value) -> (r: Result<Option<Value>, StoreError>)
        ensures
            !is_path(spec@) ==> final(self)@ == old(self)@ && (r matches Err(e) && e.is_bare(
                StoreErrorKind::HeaderPathSyntaxError,
            )),
            is_path(spec@) ==> match write_path(old(self)@, split(spec@, '.'), v@) {
                Written::Done { tree, previous } => final(self)@ == tree && (r matches Ok(p)
                    && option_view(p) == previous),
                Written::Missing => final(self)@ == old(self)@ && (r matches Err(e) && e.is_bare(
                    StoreErrorKind::HeaderKeyNotFound,
                )),
                Written::NotATable => final(self)@ == old(self)@ && (r matches Err(e) && e.is_bare(
                    StoreErrorKind::HeaderPathTypeFailure,
                )),
            },
    {
        match path_names(spec) {
            None => Err(Error::new(StoreErrorKind::HeaderPathSyntaxError, None)),
            Some(names) => {
                proof {
                    crate::text::lemma_split(spec@, '.');
                    assert(names_from(names@, 0) =~= split(spec@, '.'));
                }
                write_in(&mut self.toml, &names, 0, v)
            },
        }
    }
}

} // verus!
