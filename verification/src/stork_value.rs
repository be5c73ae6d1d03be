//! The values that a running program works with.

use crate::hir::GlobalIdx;
use vstd::prelude::*;

verus! {

/// Mathematical model of a value.
pub enum ValueModel {
    Unit,
    Number(u32),
    Bool(bool),
    Entity(u64),
    Function(GlobalIdx),
    Struct(Seq<(Seq<char>, ValueModel)>),
    Opaque(u64),
}

/// A value. Copies are independent: no two values share a part.
#[derive(Debug)]
pub enum StorkValue {
    Unit,
    /// A number, as the bits of its single-precision representation.
    Number(u32),
    Bool(bool),
    /// A reference to an entity of the store.
    Entity(u64),
    /// A function that the host supplies, known by the address of its node.
    Function(GlobalIdx),
    /// A record: its fields in the order in which they were given.
    Struct(Vec<(String, StorkValue)>),
    /// A value that only the host can look into, known by a handle.
    Opaque(u64),
}

/// The model of a value.
pub open spec fn value_model(v: StorkValue) -> ValueModel
    decreases v,
{
    match v {
        StorkValue::Unit => ValueModel::Unit,
        StorkValue::Number(n) => ValueModel::Number(n),
        StorkValue::Bool(b) => ValueModel::Bool(b),
        StorkValue::Entity(e) => ValueModel::Entity(e),
        StorkValue::Function(f) => ValueModel::Function(f),
        StorkValue::Struct(fields) => ValueModel::Struct(
            Seq::new(
                fields@.len(),
                |i: int|
                    if 0 <= i < fields@.len() {
                        (fields@[i].0@, value_model(fields@[i].1))
                    } else {
                        arbitrary()
                    },
            ),
        ),
        StorkValue::Opaque(h) => ValueModel::Opaque(h),
    }
}

impl View for StorkValue {
    type V = ValueModel;

    open spec fn view(&self) -> ValueModel {
        value_model(*self)
    }
}

/// The models of the fields of a record.
pub open spec fn record_model(fields: Seq<(String, StorkValue)>) -> Seq<(Seq<char>, ValueModel)> {
    Seq::new(fields.len(), |i: int| (fields[i].0@, fields[i].1@))
}

/// The models of a sequence of values.
pub open spec fn values_model(vs: Seq<StorkValue>) -> Seq<ValueModel> {
    Seq::new(vs.len(), |i: int| vs[i]@)
}

/// The models of a sequence of names.
pub open spec fn path_model(path: Seq<String>) -> Seq<Seq<char>> {
    Seq::new(path.len(), |i: int| path[i]@)
}

pub proof fn lemma_record_model(fields: Vec<(String, StorkValue)>)
    ensures
        StorkValue::Struct(fields)@ == ValueModel::Struct(record_model(fields@)),
{
    assert(StorkValue::Struct(fields)@->Struct_0 =~= record_model(fields@));
}

/// Index of the first field of the name `name`; the number of fields if
/// there is none.
pub open spec fn field_index(fields: Seq<(Seq<char>, ValueModel)>, name: Seq<char>) -> int
    decreases fields.len(),
{
    if fields.len() == 0 {
        0
    } else if fields[0].0 == name {
        0
    } else {
        1 + field_index(fields.drop_first(), name)
    }
}

pub proof fn lemma_field_index(fields: Seq<(Seq<char>, ValueModel)>, name: Seq<char>)
    ensures
        0 <= field_index(fields, name) <= fields.len(),
        field_index(fields, name) < fields.len() ==> fields[field_index(fields, name)].0 == name,
        forall|k: int| 0 <= k < field_index(fields, name) ==> (#[trigger] fields[k]).0 != name,
    decreases fields.len(),
{
    if fields.len() > 0 && fields[0].0 != name {
        lemma_field_index(fields.drop_first(), name);
        assert forall|k: int| 0 <= k < field_index(fields, name) implies (#[trigger] fields[k]).0
            != name by {
            if k > 0 {
                assert(fields[k] == fields.drop_first()[k - 1]);
            }
        }
    }
}

impl ValueModel {
    /// The field `name` of a record, if the value is a record that has it.
    pub open spec fn field(self, name: Seq<char>) -> Option<ValueModel> {
        match self {
            ValueModel::Struct(fields) => if field_index(fields, name) < fields.len() {
                Some(fields[field_index(fields, name)].1)
            } else {
                None
            },
            _ => None,
        }
    }

    /// The part of the value at the end of `path`: the path names a field,
    /// then a field of that field, and so on. None where a field is
    /// missing on the way.
    pub open spec fn at(self, path: Seq<Seq<char>>) -> Option<ValueModel>
        decreases path.len(),
    {
        if path.len() == 0 {
            Some(self)
        } else {
            match self.field(path[0]) {
                Some(v) => v.at(path.drop_first()),
                None => None,
            }
        }
    }

    /// The value with the part at the end of `path` replaced by `other`.
    /// None where a field is missing on the way.
    pub open spec fn with(self, path: Seq<Seq<char>>, other: ValueModel) -> Option<ValueModel>
        decreases path.len(),
    {
        if path.len() == 0 {
            Some(other)
        } else {
            match self {
                ValueModel::Struct(fields) => {
                    let i = field_index(fields, path[0]);
                    if i < fields.len() {
                        match fields[i].1.with(path.drop_first(), other) {
                            Some(v) => Some(ValueModel::Struct(fields.update(i, (fields[i].0, v)))),
                            None => None,
                        }
                    } else {
                        None
                    }
                },
                _ => None,
            }
        }
    }

    /// What is written at a path is what is read there afterwards.
    pub proof fn lemma_read_after_write(self, path: Seq<Seq<char>>, other: ValueModel)
        requires
            self.with(path, other).is_some(),
        ensures
            self.with(path, other).unwrap().at(path) == Some(other),
        decreases path.len(),
    {
        if path.len() > 0 {
            let fields = self->Struct_0;
            let i = field_index(fields, path[0]);
            let inner = fields[i].1;
            inner.lemma_read_after_write(path.drop_first(), other);
            let v = inner.with(path.drop_first(), other).unwrap();
            let updated = fields.update(i, (fields[i].0, v));
            lemma_field_index(fields, path[0]);
            lemma_field_index(updated, path[0]);
            assert(field_index(updated, path[0]) == i) by {
                if field_index(updated, path[0]) < i {
                    assert(updated[field_index(updated, path[0])] == fields[field_index(
                        updated,
                        path[0],
                    )]);
                }
                if field_index(updated, path[0]) > i {
                    assert(updated[i].0 == path[0]);
                }
            }
        }
    }

    /// A path can be written exactly where it can be read.
    pub proof fn lemma_write_where_read(self, path: Seq<Seq<char>>, other: ValueModel)
        ensures
            self.with(path, other).is_some() == self.at(path).is_some(),
        decreases path.len(),
    {
        if path.len() > 0 {
            match self {
                ValueModel::Struct(fields) => {
                    let i = field_index(fields, path[0]);
                    if i < fields.len() {
                        fields[i].1.lemma_write_where_read(path.drop_first(), other);
                    }
                },
                _ => {},
            }
        }
    }
}

impl StorkValue {
    /// An independent copy of the value.
    pub fn clone(&self) -> (r: StorkValue)
        ensures
            r@ == self@,
        decreases self,
    {
        match self {
            StorkValue::Unit => StorkValue::Unit,
            StorkValue::Number(n) => StorkValue::Number(*n),
            StorkValue::Bool(b) => StorkValue::Bool(*b),
            StorkValue::Entity(e) => StorkValue::Entity(*e),
            StorkValue::Function(f) => StorkValue::Function(*f),
            StorkValue::Opaque(h) => StorkValue::Opaque(*h),
            StorkValue::Struct(fields) => {
                let mut out: Vec<(String, StorkValue)> = Vec::new();
                let mut i: usize = 0;
                while i < fields.len()
                    invariant
                        i <= fields@.len(),
                        out@.len() == i,
                        self == StorkValue::Struct(*fields),
                        forall|k: int|
                            0 <= k < i ==> (#[trigger] out@[k]).0@ == fields@[k].0@ && out@[k].1@
                                == fields@[k].1@,
                    decreases fields@.len() - i,
                {
                    proof {
                        assert(decreases_to!(self => self->Struct_0));
                        assert(decreases_to!(fields => fields@));
                        assert(decreases_to!(fields@ => fields@[i as int]));
                        assert(decreases_to!(fields@[i as int] => fields@[i as int].1));
                    }
                    let name = fields[i].0.clone();
                    let value = fields[i].1.clone();
                    out.push((name, value));
                    i = i + 1;
                }
                proof {
                    lemma_record_model(*fields);
                    lemma_record_model(out);
                    assert(record_model(out@) =~= record_model(fields@));
                }
                StorkValue::Struct(out)
            },
        }
    }

    /// Index of the first field of the name `name`; the number of fields
    /// if there is none.
    fn index_of(fields: &Vec<(String, StorkValue)>, name: &String) -> (r: usize)
        ensures
            r == field_index(record_model(fields@), name@),
            r <= fields@.len(),
    {
        let ghost all = record_model(fields@);
        let mut k: usize = 0;
        assert(all.subrange(0, all.len() as int) =~= all);
        while k < fields.len()
            invariant
                k <= fields@.len(),
                all == record_model(fields@),
                field_index(all, name@) == k + field_index(
                    all.subrange(k as int, all.len() as int),
                    name@,
                ),
            decreases fields@.len() - k,
        {
            proof {
                assert(all.subrange(k as int, all.len() as int).drop_first() =~= all.subrange(
                    k + 1,
                    all.len() as int,
                ));
                assert(all.subrange(k as int, all.len() as int)[0] == all[k as int]);
            }
            if fields[k].0 == *name {
                return k;
            }
            k = k + 1;
        }
        k
    }

    /// A copy of the field `name`, if the value is a record that has it.
    pub fn field(&self, name: &String) -> (r: Option<StorkValue>)
        ensures
            match r {
                Some(v) => self@.field(name@) == Some(v@),
                None => self@.field(name@).is_none(),
            },
    {
        match self {
            StorkValue::Struct(fields) => {
                proof {
                    lemma_record_model(*fields);
                }
                let i = Self::index_of(fields, name);
                if i < fields.len() {
                    Some(fields[i].1.clone())
                } else {
                    None
                }
            },
            _ => None,
        }
    }

    /// A copy of the part of the value at the end of `members`, from the
    /// `from`-th name on.
    fn subscript_from(&self, members: &Vec<String>, from: usize) -> (r: Option<StorkValue>)
        requires
            from <= members@.len(),
        ensures
            match r {
                Some(v) => self@.at(path_model(members@).skip(from as int)) == Some(v@),
                None => self@.at(path_model(members@).skip(from as int)).is_none(),
            },
        decreases members@.len() - from,
    {
        let ghost path = path_model(members@).skip(from as int);
        if from == members.len() {
            return Some(self.clone());
        }
        proof {
            assert(path[0] == members@[from as int]@);
            assert(path.drop_first() =~= path_model(members@).skip(from + 1));
        }
        match self {
            StorkValue::Struct(fields) => {
                proof {
                    lemma_record_model(*fields);
                }
                let i = Self::index_of(fields, &members[from]);
                if i < fields.len() {
                    fields[i].1.subscript_from(members, from + 1)
                } else {
                    None
                }
            },
            _ => None,
        }
    }

    /// A copy of the part of the value at the end of the path `members`;
    /// none where a field is missing on the way.
    pub fn subscript(&self, members: &Vec<String>) -> (r: Option<StorkValue>)
        ensures
            match r {
                Some(v) => self@.at(path_model(members@)) == Some(v@),
                None => self@.at(path_model(members@)).is_none(),
            },
    {
        assert(path_model(members@).skip(0) =~= path_model(members@));
        self.subscript_from(members, 0)
    }

    /// The value with the part at the end of `members`, from the `from`-th
    /// name on, replaced by `other`.
    fn with_from(self, members: &Vec<String>, from: usize, other: StorkValue) -> (r: Result<
        StorkValue,
        StorkValue,
    >)
        requires
            from <= members@.len(),
        ensures
            match r {
                Ok(v) => self@.with(path_model(members@).skip(from as int), other@) == Some(v@),
                Err(v) => self@.with(path_model(members@).skip(from as int), other@).is_none()
                    && v@ == self@,
            },
        decreases members@.len() - from,
    {
        let ghost path = path_model(members@).skip(from as int);
        if from == members.len() {
            return Ok(other);
        }
        proof {
            assert(path[0] == members@[from as int]@);
            assert(path.drop_first() =~= path_model(members@).skip(from + 1));
        }
        match self {
            StorkValue::Struct(fields) => {
                proof {
                    lemma_record_model(fields);
                }
                let ghost before = record_model(fields@);
                let i = Self::index_of(&fields, &members[from]);
                if i >= fields.len() {
                    return Err(StorkValue::Struct(fields));
                }
                let mut fields = fields;
                let (name, inner) = fields.remove(i);
                let (inner, ok) = match inner.with_from(members, from + 1, other) {
                    Ok(v) => (v, true),
                    Err(v) => (v, false),
                };
                fields.insert(i, (name, inner));
                proof {
                    lemma_record_model(fields);
                    if ok {
                        assert(record_model(fields@) =~= before.update(
                            i as int,
                            (before[i as int].0, inner@),
                        ));
                    } else {
                        assert(record_model(fields@) =~= before);
                    }
                }
                if ok {
                    Ok(StorkValue::Struct(fields))
                } else {
                    Err(StorkValue::Struct(fields))
                }
            },
            other_self => Err(other_self),
        }
    }

    /// Replaces the part of the value at the end of the path `members` by
    /// `other`. Returns whether the path exists; where it does not, the
    /// value stays as it is.
    pub fn apply(&mut self, members: &Vec<String>, other: StorkValue) -> (r: bool)
        ensures
            r == old(self)@.with(path_model(members@), other@).is_some(),
            r ==> Some(final(self)@) == old(self)@.with(path_model(members@), other@),
            !r ==> final(self)@ == old(self)@,
    {
        assert(path_model(members@).skip(0) =~= path_model(members@));
        let mut taken = StorkValue::Unit;
        std::mem::swap(&mut taken, self);
        match taken.with_from(members, 0, other) {
            Ok(v) => {
                *self = v;
                true
            },
            Err(v) => {
                *self = v;
                false
            },
        }
    }

    /// The boolean, if the value is one.
    pub fn as_bool(&self) -> (r: Option<bool>)
        ensures
            r == match self@ {
                ValueModel::Bool(b) => Some(b),
                _ => None,
            },
    {
        match self {
            StorkValue::Bool(b) => Some(*b),
            _ => None,
        }
    }

    /// The entity, if the value is a reference to one.
    pub fn as_entity(&self) -> (r: Option<u64>)
        ensures
            r == match self@ {
                ValueModel::Entity(e) => Some(e),
                _ => None,
            },
    {
        match self {
            StorkValue::Entity(e) => Some(*e),
            _ => None,
        }
    }

    /// The address of the function, if the value is one.
    pub fn as_function(&self) -> (r: Option<GlobalIdx>)
        ensures
            r == match self@ {
                ValueModel::Function(f) => Some(f),
                _ => None,
            },
    {
        match self {
            StorkValue::Function(f) => Some(*f),
            _ => None,
        }
    }
}

} // verus!
