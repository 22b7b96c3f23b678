//! The syntax tree of a schema.

use vstd::prelude::*;

verus! {

/// Whether a definition is a constructor or a function.
#[derive(Clone, Copy, Debug, PartialEq, Eq, Hash, Structural)]
pub enum Category {
    /// A constructor: the definitions before `---functions---`.
    Types,
    /// A function: the definitions after `---functions---`.
    Functions,
}

/// A reference to a bit of a flags field, as `flags.0` in `flags.0?true`.
#[derive(Clone, Debug, PartialEq, Eq, Hash)]
pub struct Flag {
    /// The name of the flags field.
    pub name: String,
    /// The number of the bit.
    pub index: u32,
}

/// A type, as `ns.Vector<!X>`.
#[derive(Debug, PartialEq, Eq, Hash)]
pub struct Type {
    /// The namespaces before the name.
    pub namespace: Vec<String>,
    /// The name.
    pub name: String,
    /// Whether the name starts with a lower-case letter.
    pub bare: bool,
    /// Whether the type is a reference to a generic.
    pub generic_ref: bool,
    /// The generic argument, as `long` in `Vector<long>`.
    pub generic_arg: Option<Box<Type>>,
}

/// The type of a parameter.
#[derive(Debug, PartialEq, Eq, Hash)]
pub enum ParameterType {
    /// A flags field, `name:#`.
    Flags,
    /// A typed parameter, which a flag bit may guard.
    Normal { ty: Type, flag: Option<Flag> },
}

/// A parameter `name:type`.
#[derive(Debug, PartialEq, Eq, Hash)]
pub struct Parameter {
    /// The name.
    pub name: String,
    /// The type.
    pub ty: ParameterType,
}

/// A definition: a constructor or a function.
#[derive(Debug, PartialEq)]
pub struct Definition {
    /// The namespaces before the name.
    pub namespace: Vec<String>,
    /// The name.
    pub name: String,
    /// The constructor ID: what `#…` says, or the CRC-32 of the definition.
    pub id: u32,
    /// The parameters, in order.
    pub params: Vec<Parameter>,
    /// The type that the definition belongs to or returns.
    pub ty: Type,
    /// Constructor or function.
    pub category: Category,
}

/// The texts of a list of strings.
pub open spec fn texts(v: Seq<String>) -> Seq<Seq<char>> {
    Seq::new(v.len(), |i: int| v[i]@)
}

/// A flag reference as contracts see it.
pub struct FlagView {
    pub name: Seq<char>,
    pub index: u32,
}

/// A type as contracts see it.
pub struct TypeView {
    pub namespace: Seq<Seq<char>>,
    pub name: Seq<char>,
    pub bare: bool,
    pub generic_ref: bool,
    pub generic_arg: Option<Box<TypeView>>,
}

/// A parameter type as contracts see it.
pub enum ParameterTypeView {
    Flags,
    Normal { ty: TypeView, flag: Option<FlagView> },
}

/// A parameter as contracts see it.
pub struct ParameterView {
    pub name: Seq<char>,
    pub ty: ParameterTypeView,
}

/// A definition as contracts see it.
pub struct DefinitionView {
    pub namespace: Seq<Seq<char>>,
    pub name: Seq<char>,
    pub id: u32,
    pub params: Seq<ParameterView>,
    pub ty: TypeView,
    pub category: Category,
}

impl View for Flag {
    type V = FlagView;

    open spec fn view(&self) -> FlagView {
        FlagView { name: self.name@, index: self.index }
    }
}

impl View for Type {
    type V = TypeView;

    open spec fn view(&self) -> TypeView
        decreases self,
    {
        TypeView {
            namespace: texts(self.namespace@),
            name: self.name@,
            bare: self.bare,
            generic_ref: self.generic_ref,
            generic_arg: match self.generic_arg {
                Some(arg) => Some(Box::new((*arg)@)),
                None => None,
            },
        }
    }
}

impl View for ParameterType {
    type V = ParameterTypeView;

    open spec fn view(&self) -> ParameterTypeView {
        match self {
            ParameterType::Flags => ParameterTypeView::Flags,
            ParameterType::Normal { ty, flag } => ParameterTypeView::Normal {
                ty: ty@,
                flag: match flag {
                    Some(f) => Some(f@),
                    None => None,
                },
            },
        }
    }
}

impl View for Parameter {
    type V = ParameterView;

    open spec fn view(&self) -> ParameterView {
        ParameterView { name: self.name@, ty: self.ty@ }
    }
}

/// The parameters of a list as contracts see them.
pub open spec fn params_view(v: Seq<Parameter>) -> Seq<ParameterView> {
    Seq::new(v.len(), |i: int| v[i]@)
}

impl View for Definition {
    type V = DefinitionView;

    open spec fn view(&self) -> DefinitionView {
        DefinitionView {
            namespace: texts(self.namespace@),
            name: self.name@,
            id: self.id,
            params: params_view(self.params@),
            ty: self.ty@,
            category: self.category,
        }
    }
}

/// The parts `parts` with a dot behind each, one after the other.
pub open spec fn dotted(parts: Seq<Seq<char>>) -> Seq<char>
    decreases parts.len(),
{
    if parts.len() == 0 {
        Seq::empty()
    } else {
        dotted(parts.drop_last()) + parts.last() + seq!['.']
    }
}

impl Definition {
    /// The namespaces and the name, joined with dots.
    pub fn full_name(&self) -> (s: String)
        ensures
            s@ == dotted(texts(self.namespace@)) + self.name@,
    {
        let mut s = String::new();
        let mut i: usize = 0;
        assert(texts(self.namespace@).take(0) =~= Seq::<Seq<char>>::empty());
        while i < self.namespace.len()
            invariant
                i <= self.namespace.len(),
                s@ == dotted(texts(self.namespace@).take(i as int)),
            decreases self.namespace.len() - i,
        {
            proof {
                let all = texts(self.namespace@);
                assert(all.take(i as int + 1).drop_last() =~= all.take(i as int));
                assert(all.take(i as int + 1).last() == self.namespace@[i as int]@);
                reveal_strlit(".");
                assert("."@ =~= seq!['.']);
            }
            s.append(self.namespace[i].as_str());
            s.append(".");
            i += 1;
        }
        assert(texts(self.namespace@).take(self.namespace.len() as int) =~= texts(
            self.namespace@,
        ));
        s.append(self.name.as_str());
        s
    }
}

} // verus!
