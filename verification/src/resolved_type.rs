//! The types of the language.

use vstd::prelude::*;
use vstd::string::StringExecFns;

verus! {

/// Mathematical model of a type.
pub enum TypeModel {
    Struct { fields: Seq<(Seq<char>, TypeModel)> },
    Function { params: Seq<TypeModel>, ret: Box<TypeModel> },
    Entity,
    Unit,
    F32,
    Bool,
    Recursion,
    Poison,
}

/// A type, without regard to where its values live.
#[derive(Debug)]
pub enum InnerResolvedType {
    /// A record: its fields in order, each with its name.
    Struct { fields: Vec<(String, InnerResolvedType)> },
    /// A function: the types of its parameters and of its result.
    Function { params: Vec<InnerResolvedType>, ret: Box<InnerResolvedType> },
    /// A reference to an entity of the store.
    Entity,
    Unit,
    /// The one numeric type.
    F32,
    Bool,
    /// Marks a node whose type is being worked out.
    Recursion,
    /// The type of what has no type: an error was reported.
    Poison,
}

/// A type, and whether it is that of a component or resource of the store.
#[derive(Debug)]
pub struct ResolvedType {
    pub inner: InnerResolvedType,
    pub component_or_resource: bool,
}

/// The model of a type.
pub open spec fn type_model(t: InnerResolvedType) -> TypeModel
    decreases t,
{
    match t {
        InnerResolvedType::Struct { fields } => TypeModel::Struct {
            fields: Seq::new(
                fields@.len(),
                |i: int|
                    if 0 <= i < fields@.len() {
                        (fields@[i].0@, type_model(fields@[i].1))
                    } else {
                        arbitrary()
                    },
            ),
        },
        InnerResolvedType::Function { params, ret } => TypeModel::Function {
            params: Seq::new(
                params@.len(),
                |i: int|
                    if 0 <= i < params@.len() {
                        type_model(params@[i])
                    } else {
                        arbitrary()
                    },
            ),
            ret: Box::new(type_model(*ret)),
        },
        InnerResolvedType::Entity => TypeModel::Entity,
        InnerResolvedType::Unit => TypeModel::Unit,
        InnerResolvedType::F32 => TypeModel::F32,
        InnerResolvedType::Bool => TypeModel::Bool,
        InnerResolvedType::Recursion => TypeModel::Recursion,
        InnerResolvedType::Poison => TypeModel::Poison,
    }
}

impl View for InnerResolvedType {
    type V = TypeModel;

    open spec fn view(&self) -> TypeModel {
        type_model(*self)
    }
}

impl View for ResolvedType {
    type V = (TypeModel, bool);

    open spec fn view(&self) -> (TypeModel, bool) {
        (self.inner@, self.component_or_resource)
    }
}

/// The models of a sequence of types.
pub open spec fn types_model(ts: Seq<InnerResolvedType>) -> Seq<TypeModel> {
    Seq::new(ts.len(), |i: int| ts[i]@)
}

/// The models of a sequence of fields.
pub open spec fn fields_model(fs: Seq<(String, InnerResolvedType)>) -> Seq<(Seq<char>, TypeModel)> {
    Seq::new(fs.len(), |i: int| (fs[i].0@, fs[i].1@))
}

pub proof fn lemma_struct_model(fields: Vec<(String, InnerResolvedType)>)
    ensures
        (InnerResolvedType::Struct { fields })@ == (TypeModel::Struct {
            fields: fields_model(fields@),
        }),
{
    assert((InnerResolvedType::Struct { fields })@->Struct_fields =~= fields_model(fields@));
}

pub proof fn lemma_function_model(params: Vec<InnerResolvedType>, ret: Box<InnerResolvedType>)
    ensures
        (InnerResolvedType::Function { params, ret })@ == (TypeModel::Function {
            params: types_model(params@),
            ret: Box::new((*ret)@),
        }),
{
    assert((InnerResolvedType::Function { params, ret })@->Function_params =~= types_model(
        params@,
    ));
}

impl InnerResolvedType {
    /// A copy of the type.
    pub fn clone(&self) -> (r: InnerResolvedType)
        ensures
            r@ == self@,
        decreases self,
    {
        match self {
            InnerResolvedType::Struct { fields } => {
                let mut out: Vec<(String, InnerResolvedType)> = Vec::new();
                let mut i: usize = 0;
                while i < fields.len()
                    invariant
                        i <= fields@.len(),
                        out@.len() == i,
                        self == (InnerResolvedType::Struct { fields: *fields }),
                        forall|k: int|
                            0 <= k < i ==> (#[trigger] out@[k]).0@ == fields@[k].0@ && out@[k].1@
                                == fields@[k].1@,
                    decreases fields@.len() - i,
                {
                    proof {
                        assert(decreases_to!(self => self->Struct_fields));
                        assert(decreases_to!(fields => fields@));
                        assert(decreases_to!(fields@ => fields@[i as int]));
                        assert(decreases_to!(fields@[i as int] => fields@[i as int].1));
                    }
                    let name = fields[i].0.clone();
                    let ty = fields[i].1.clone();
                    out.push((name, ty));
                    i = i + 1;
                }
                proof {
                    lemma_struct_model(*fields);
                    lemma_struct_model(out);
                    assert(fields_model(out@) =~= fields_model(fields@));
                }
                InnerResolvedType::Struct { fields: out }
            },
            InnerResolvedType::Function { params, ret } => {
                let mut out: Vec<InnerResolvedType> = Vec::new();
                let mut i: usize = 0;
                while i < params.len()
                    invariant
                        i <= params@.len(),
                        out@.len() == i,
                        self == (InnerResolvedType::Function { params: *params, ret: *ret }),
                        forall|k: int| 0 <= k < i ==> (#[trigger] out@[k])@ == params@[k]@,
                    decreases params@.len() - i,
                {
                    proof {
                        assert(decreases_to!(self => self->Function_params));
                        assert(decreases_to!(params => params@));
                        assert(decreases_to!(params@ => params@[i as int]));
                    }
                    let ty = params[i].clone();
                    out.push(ty);
                    i = i + 1;
                }
                let r = Box::new((**ret).clone());
                proof {
                    lemma_function_model(*params, *ret);
                    lemma_function_model(out, r);
                    assert(types_model(out@) =~= types_model(params@));
                }
                InnerResolvedType::Function { params: out, ret: r }
            },
            InnerResolvedType::Entity => InnerResolvedType::Entity,
            InnerResolvedType::Unit => InnerResolvedType::Unit,
            InnerResolvedType::F32 => InnerResolvedType::F32,
            InnerResolvedType::Bool => InnerResolvedType::Bool,
            InnerResolvedType::Recursion => InnerResolvedType::Recursion,
            InnerResolvedType::Poison => InnerResolvedType::Poison,
        }
    }

    /// Whether two types are the same: of the same shape, with the same
    /// field names in the same order.
    pub fn same(&self, other: &InnerResolvedType) -> (r: bool)
        ensures
            r == (self@ == other@),
        decreases self,
    {
        match (self, other) {
            (InnerResolvedType::Struct { fields: a }, InnerResolvedType::Struct { fields: b }) => {
                proof {
                    lemma_struct_model(*a);
                    lemma_struct_model(*b);
                }
                if a.len() != b.len() {
                    assert(fields_model(a@).len() != fields_model(b@).len());
                    return false;
                }
                let mut i: usize = 0;
                while i < a.len()
                    invariant
                        i <= a@.len(),
                        a@.len() == b@.len(),
                        self == (InnerResolvedType::Struct { fields: *a }),
                        self@ == (TypeModel::Struct { fields: fields_model(a@) }),
                        other@ == (TypeModel::Struct { fields: fields_model(b@) }),
                        forall|k: int|
                            0 <= k < i ==> (#[trigger] a@[k]).0@ == b@[k].0@ && a@[k].1@
                                == b@[k].1@,
                    decreases a@.len() - i,
                {
                    proof {
                        assert(decreases_to!(self => a));
                        assert(decreases_to!(a => a@));
                        assert(decreases_to!(a@ => a@[i as int]));
                        assert(decreases_to!(a@[i as int] => a@[i as int].1));
                    }
                    let names = a[i].0 == b[i].0;
                    if !names || !a[i].1.same(&b[i].1) {
                        assert(fields_model(a@)[i as int] != fields_model(b@)[i as int]);
                        return false;
                    }
                    i = i + 1;
                }
                assert(fields_model(a@) =~= fields_model(b@));
                true
            },
            (
                InnerResolvedType::Function { params: a, ret: ra },
                InnerResolvedType::Function { params: b, ret: rb },
            ) => {
                proof {
                    lemma_function_model(*a, *ra);
                    lemma_function_model(*b, *rb);
                }
                if a.len() != b.len() {
                    assert(types_model(a@).len() != types_model(b@).len());
                    return false;
                }
                let mut i: usize = 0;
                while i < a.len()
                    invariant
                        i <= a@.len(),
                        a@.len() == b@.len(),
                        self == (InnerResolvedType::Function { params: *a, ret: *ra }),
                        self@ == (TypeModel::Function {
                            params: types_model(a@),
                            ret: Box::new((*ra)@),
                        }),
                        other@ == (TypeModel::Function {
                            params: types_model(b@),
                            ret: Box::new((*rb)@),
                        }),
                        forall|k: int| 0 <= k < i ==> (#[trigger] a@[k])@ == b@[k]@,
                    decreases a@.len() - i,
                {
                    proof {
                        assert(decreases_to!(self => a));
                        assert(decreases_to!(a => a@));
                        assert(decreases_to!(a@ => a@[i as int]));
                    }
                    if !a[i].same(&b[i]) {
                        assert(types_model(a@)[i as int] != types_model(b@)[i as int]);
                        return false;
                    }
                    i = i + 1;
                }
                assert(types_model(a@) =~= types_model(b@));
                (**ra).same(&**rb)
            },
            (InnerResolvedType::Entity, InnerResolvedType::Entity) => true,
            (InnerResolvedType::Unit, InnerResolvedType::Unit) => true,
            (InnerResolvedType::F32, InnerResolvedType::F32) => true,
            (InnerResolvedType::Bool, InnerResolvedType::Bool) => true,
            (InnerResolvedType::Recursion, InnerResolvedType::Recursion) => true,
            (InnerResolvedType::Poison, InnerResolvedType::Poison) => true,
            _ => false,
        }
    }

    /// Whether the type is the poison type.
    pub fn is_poison(&self) -> (r: bool)
        ensures
            r == (self@ == TypeModel::Poison),
    {
        match self {
            InnerResolvedType::Poison => true,
            _ => false,
        }
    }

    /// Whether the type is the mark of a node that is being worked on.
    pub fn is_recursion(&self) -> (r: bool)
        ensures
            r == (self@ == TypeModel::Recursion),
    {
        match self {
            InnerResolvedType::Recursion => true,
            _ => false,
        }
    }
}

impl ResolvedType {
    /// The poison type.
    pub fn poison() -> (r: Self)
        ensures
            r@ == (TypeModel::Poison, false),
    {
        ResolvedType { inner: InnerResolvedType::Poison, component_or_resource: false }
    }

    /// The same type, marked as that of a component or resource.
    pub fn with_from_ecs(self) -> (r: Self)
        ensures
            r@ == (self@.0, true),
    {
        ResolvedType { inner: self.inner, component_or_resource: true }
    }

    /// The type `inner`, not marked as coming from the store.
    pub fn from_inner(inner: InnerResolvedType) -> (r: Self)
        ensures
            r@ == (inner@, false),
    {
        ResolvedType { inner, component_or_resource: false }
    }

    /// A copy of the type.
    pub fn clone(&self) -> (r: Self)
        ensures
            r@ == self@,
    {
        ResolvedType {
            inner: self.inner.clone(),
            component_or_resource: self.component_or_resource,
        }
    }
}

impl Default for InnerResolvedType {
    fn default() -> (r: Self)
        ensures
            r@ == TypeModel::Poison,
    {
        InnerResolvedType::Poison
    }
}

impl Default for ResolvedType {
    fn default() -> (r: Self)
        ensures
            r@ == (TypeModel::Poison, false),
    {
        ResolvedType { inner: InnerResolvedType::Poison, component_or_resource: false }
    }
}


/// The text of a list of types, each followed by `, ` but the last.
pub open spec fn render_types(ts: Seq<TypeModel>) -> Seq<char>
    decreases ts,
{
    if ts.len() == 0 {
        Seq::empty()
    } else if ts.len() == 1 {
        render_type(ts[0])
    } else {
        render_types(ts.drop_last()) + ", "@ + render_type(ts.last())
    }
}

/// The text of a type, as diagnostics show it.
pub open spec fn render_type(t: TypeModel) -> Seq<char>
    decreases t,
{
    match t {
        TypeModel::Struct { .. } => "'struct'"@,
        TypeModel::Function { params, ret } => "'fn("@ + render_types(params) + ") -> "@
            + render_type(*ret) + "'"@,
        TypeModel::Entity => "'Entity'"@,
        TypeModel::Poison => "'Unknown'"@,
        TypeModel::Unit => "'()'"@,
        TypeModel::F32 => "'f32'"@,
        TypeModel::Bool => "'bool'"@,
        TypeModel::Recursion => "INTERNAL"@,
    }
}

impl InnerResolvedType {
    /// The text of the type, as diagnostics show it.
    pub fn display(&self) -> (r: String)
        ensures
            r@ == render_type(self@),
        decreases self,
    {
        match self {
            InnerResolvedType::Struct { fields } => {
                proof {
                    lemma_struct_model(*fields);
                }
                String::from_str("'struct'")
            },
            InnerResolvedType::Function { params, ret } => {
                proof {
                    lemma_function_model(*params, *ret);
                }
                let ghost ps = types_model(params@);
                let mut list = String::new();
                let mut i: usize = 0;
                assert(ps.subrange(0, 0) =~= Seq::<TypeModel>::empty());
                while i < params.len()
                    invariant
                        i <= params@.len(),
                        ps == types_model(params@),
                        self == (InnerResolvedType::Function { params: *params, ret: *ret }),
                        list@ == render_types(ps.subrange(0, i as int)),
                    decreases params@.len() - i,
                {
                    proof {
                        assert(decreases_to!(self => self->Function_params));
                        assert(decreases_to!(params => params@));
                        assert(decreases_to!(params@ => params@[i as int]));
                        assert(ps.subrange(0, i + 1).drop_last() =~= ps.subrange(0, i as int));
                        assert(ps.subrange(0, i + 1).last() == params@[i as int]@);
                    }
                    let one = params[i].display();
                    if i > 0 {
                        list.append(", ");
                    } else {
                        assert(list@ + one@ =~= one@);
                    }
                    list.append(one.as_str());
                    i = i + 1;
                }
                assert(ps.subrange(0, ps.len() as int) =~= ps);
                let result = (**ret).display();
                String::from_str("'fn(").concat(list.as_str()).concat(") -> ").concat(
                    result.as_str(),
                ).concat("'")
            },
            InnerResolvedType::Entity => String::from_str("'Entity'"),
            InnerResolvedType::Poison => String::from_str("'Unknown'"),
            InnerResolvedType::Unit => String::from_str("'()'"),
            InnerResolvedType::F32 => String::from_str("'f32'"),
            InnerResolvedType::Bool => String::from_str("'bool'"),
            InnerResolvedType::Recursion => String::from_str("INTERNAL"),
        }
    }
}

} // verus!
