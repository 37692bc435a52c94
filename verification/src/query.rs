//! The read-side query interface: resolve a qualified name to its defining
//! declaration, and walk a type tree depth-first.

use vstd::prelude::*;

use crate::schema::{
    ConstDecl, EnumDecl, ProtocolDecl, StructDecl, TableDecl, UnionDecl, XUnionDecl,
    DeclarationKind, Library, LibraryDependency, Type,
};
use crate::json::str_eq;
use crate::validate::{
    const_names, enum_names, protocol_names, struct_names, table_names, union_names, xunion_names,
};

verus! {

/// A reference to a locally declared entity, by kind.
#[derive(Debug)]
pub enum LocalDeclRef<'a> {
    Const(&'a ConstDecl),
    Enum(&'a EnumDecl),
    Protocol(&'a ProtocolDecl),
    Struct(&'a StructDecl),
    Table(&'a TableDecl),
    Union(&'a UnionDecl),
    XUnion(&'a XUnionDecl),
}

/// What a name resolved to. A locally declared name carries its full
/// declaration; a name known only through a dependency carries its kind and
/// nothing more — dependency entries are name-to-kind stubs, so no member or
/// layout data exists to hand out.
#[derive(Debug)]
pub enum Resolved<'a> {
    Local { kind: DeclarationKind, decl: LocalDeclRef<'a> },
    Foreign { kind: DeclarationKind },
}

/// The kind under which the library itself declares `name`, searching the
/// kind lists in declaration-list order.
pub open spec fn local_kind(lib: Library, name: Seq<char>) -> Option<DeclarationKind> {
    if const_names(lib.const_declarations@).contains(name) {
        Some(DeclarationKind::Const)
    } else if enum_names(lib.enum_declarations@).contains(name) {
        Some(DeclarationKind::Enum)
    } else if protocol_names(lib.interface_declarations@).contains(name) {
        Some(DeclarationKind::Protocol)
    } else if struct_names(lib.struct_declarations@).contains(name) {
        Some(DeclarationKind::Struct)
    } else if table_names(lib.table_declarations@).contains(name) {
        Some(DeclarationKind::Table)
    } else if union_names(lib.union_declarations@).contains(name) {
        Some(DeclarationKind::Union)
    } else if xunion_names(lib.xunion_declarations@).contains(name) {
        Some(DeclarationKind::ExtensibleUnion)
    } else {
        None
    }
}

/// Producer assumption, stated for consumers and not checked by `decode`
/// (whose validation list does not include it): the library's re-exposed
/// name-to-kind index agrees with the kind lists — every indexed name is
/// locally declared under the kind the index states. Resolution reads the
/// lists, never the index, so a document that breaks this assumption cannot
/// mislead `resolve`.
pub open spec fn kind_index_agrees(lib: Library) -> bool {
    forall|i: int|
        0 <= i < lib.declarations@.len() ==> local_kind(
            lib,
            (#[trigger] lib.declarations@[i]).0@,
        ) == Some(lib.declarations@[i].1)
}

/// The kind bound to `name` in a name-to-kind map: first binding wins.
pub open spec fn map_kind(m: Seq<(String, DeclarationKind)>, name: Seq<char>) -> Option<
    DeclarationKind,
> 
    decreases m.len(),
{
    if m.len() == 0 {
        None
    } else if m[0].0@ == name {
        Some(m[0].1)
    } else {
        map_kind(m.drop_first(), name)
    }
}

/// The kind under which the first dependency that knows `name` lists it.
pub open spec fn dep_kind(deps: Seq<LibraryDependency>, name: Seq<char>) -> Option<
    DeclarationKind,
> 
    decreases deps.len(),
{
    if deps.len() == 0 {
        None
    } else {
        match map_kind(deps[0].declarations@, name) {
            Some(k) => Some(k),
            None => dep_kind(deps.drop_first(), name),
        }
    }
}

/// The name of the declaration a local reference points at.
pub open spec fn decl_ref_name<'a>(d: LocalDeclRef<'a>) -> Seq<char> {
    match d {
        LocalDeclRef::Const(c) => c.name@,
        LocalDeclRef::Enum(e) => e.name@,
        LocalDeclRef::Protocol(p) => p.name@,
        LocalDeclRef::Struct(s) => s.name@,
        LocalDeclRef::Table(t) => t.name@,
        LocalDeclRef::Union(u) => u.name@,
        LocalDeclRef::XUnion(x) => x.name@,
    }
}

/// The local reference points into the library's own declaration lists, under
/// the matching kind.
pub open spec fn decl_ref_in<'a>(d: LocalDeclRef<'a>, lib: Library, kind: DeclarationKind) -> bool {
    match d {
        LocalDeclRef::Const(c) => kind == DeclarationKind::Const
            && lib.const_declarations@.contains(*c),
        LocalDeclRef::Enum(e) => kind == DeclarationKind::Enum && lib.enum_declarations@.contains(
            *e,
        ),
        LocalDeclRef::Protocol(p) => kind == DeclarationKind::Protocol
            && lib.interface_declarations@.contains(*p),
        LocalDeclRef::Struct(s) => kind == DeclarationKind::Struct
            && lib.struct_declarations@.contains(*s),
        LocalDeclRef::Table(t) => kind == DeclarationKind::Table
            && lib.table_declarations@.contains(*t),
        LocalDeclRef::Union(u) => kind == DeclarationKind::Union
            && lib.union_declarations@.contains(*u),
        LocalDeclRef::XUnion(x) => kind == DeclarationKind::ExtensibleUnion
            && lib.xunion_declarations@.contains(*x),
    }
}

/// Look up `name` in a dependency's name-to-kind map.
#[verifier::loop_isolation(false)]
fn find_map_kind(m: &Vec<(String, DeclarationKind)>, name: &str) -> (r: Option<DeclarationKind>)
    ensures
        r == map_kind(m@, name@),
{
    proof {
        assert(m@.skip(0) =~= m@);
    }
    let mut i: usize = 0;
    while i < m.len()
        invariant
            0 <= i <= m@.len(),
            map_kind(m@, name@) == map_kind(m@.skip(i as int), name@),
        decreases m@.len() - i,
    {
        proof {
            assert(m@.skip(i as int)[0] == m@[i as int]);
            assert(m@.skip(i as int).drop_first() =~= m@.skip(i as int + 1));
        }
        if str_eq(m[i].0.as_str(), name) {
            return Some(m[i].1);
        }
        i = i + 1;
    }
    None
}

/// Resolve a qualified name: the library's own declarations first, then each
/// dependency's name-to-kind stubs in dependency-list order. A name found
/// only through a dependency yields its kind and no declaration; a name found
/// nowhere is a `None`, an expected outcome the caller must handle.
#[verifier::loop_isolation(false)]
pub fn resolve<'a>(lib: &'a Library, name: &str) -> (r: Option<Resolved<'a>>)
    ensures
        match r {
            Some(Resolved::Local { kind, decl }) => local_kind(*lib, name@) == Some(kind)
                && decl_ref_name(decl) == name@ && decl_ref_in(decl, *lib, kind),
            Some(Resolved::Foreign { kind }) => local_kind(*lib, name@) is None && dep_kind(
                lib.library_dependencies@,
                name@,
            ) == Some(kind),
            None => local_kind(*lib, name@) is None && dep_kind(
                lib.library_dependencies@,
                name@,
            ) is None,
        },
{
    let mut i: usize = 0;
    while i < lib.const_declarations.len()
        invariant
            0 <= i <= lib.const_declarations@.len(),
            forall|j: int| 0 <= j < i ==> #[trigger] const_names(lib.const_declarations@)[j]
                != name@,
        decreases lib.const_declarations@.len() - i,
    {
        proof {
            assert(const_names(lib.const_declarations@)[i as int]
                == lib.const_declarations@[i as int].name@);
        }
        if str_eq(lib.const_declarations[i].name.as_str(), name) {
            return Some(
                Resolved::Local {
                    kind: DeclarationKind::Const,
                    decl: LocalDeclRef::Const(&lib.const_declarations[i]),
                },
            );
        }
        i = i + 1;
    }
    proof {
        assert(!const_names(lib.const_declarations@).contains(name@));
    }
    let mut i: usize = 0;
    while i < lib.enum_declarations.len()
        invariant
            0 <= i <= lib.enum_declarations@.len(),
            forall|j: int| 0 <= j < i ==> #[trigger] enum_names(lib.enum_declarations@)[j]
                != name@,
        decreases lib.enum_declarations@.len() - i,
    {
        proof {
            assert(enum_names(lib.enum_declarations@)[i as int]
                == lib.enum_declarations@[i as int].name@);
        }
        if str_eq(lib.enum_declarations[i].name.as_str(), name) {
            return Some(
                Resolved::Local {
                    kind: DeclarationKind::Enum,
                    decl: LocalDeclRef::Enum(&lib.enum_declarations[i]),
                },
            );
        }
        i = i + 1;
    }
    proof {
        assert(!enum_names(lib.enum_declarations@).contains(name@));
    }
    let mut i: usize = 0;
    while i < lib.interface_declarations.len()
        invariant
            0 <= i <= lib.interface_declarations@.len(),
            forall|j: int| 0 <= j < i ==> #[trigger] protocol_names(lib.interface_declarations@)[j]
                != name@,
        decreases lib.interface_declarations@.len() - i,
    {
        proof {
            assert(protocol_names(lib.interface_declarations@)[i as int]
                == lib.interface_declarations@[i as int].name@);
        }
        if str_eq(lib.interface_declarations[i].name.as_str(), name) {
            return Some(
                Resolved::Local {
                    kind: DeclarationKind::Protocol,
                    decl: LocalDeclRef::Protocol(&lib.interface_declarations[i]),
                },
            );
        }
        i = i + 1;
    }
    proof {
        assert(!protocol_names(lib.interface_declarations@).contains(name@));
    }
    let mut i: usize = 0;
    while i < lib.struct_declarations.len()
        invariant
            0 <= i <= lib.struct_declarations@.len(),
            forall|j: int| 0 <= j < i ==> #[trigger] struct_names(lib.struct_declarations@)[j]
                != name@,
        decreases lib.struct_declarations@.len() - i,
    {
        proof {
            assert(struct_names(lib.struct_declarations@)[i as int]
                == lib.struct_declarations@[i as int].name@);
        }
        if str_eq(lib.struct_declarations[i].name.as_str(), name) {
            return Some(
                Resolved::Local {
                    kind: DeclarationKind::Struct,
                    decl: LocalDeclRef::Struct(&lib.struct_declarations[i]),
                },
            );
        }
        i = i + 1;
    }
    proof {
        assert(!struct_names(lib.struct_declarations@).contains(name@));
    }
    let mut i: usize = 0;
    while i < lib.table_declarations.len()
        invariant
            0 <= i <= lib.table_declarations@.len(),
            forall|j: int| 0 <= j < i ==> #[trigger] table_names(lib.table_declarations@)[j]
                != name@,
        decreases lib.table_declarations@.len() - i,
    {
        proof {
            assert(table_names(lib.table_declarations@)[i as int]
                == lib.table_declarations@[i as int].name@);
        }
        if str_eq(lib.table_declarations[i].name.as_str(), name) {
            return Some(
                Resolved::Local {
                    kind: DeclarationKind::Table,
                    decl: LocalDeclRef::Table(&lib.table_declarations[i]),
                },
            );
        }
        i = i + 1;
    }
    proof {
        assert(!table_names(lib.table_declarations@).contains(name@));
    }
    let mut i: usize = 0;
    while i < lib.union_declarations.len()
        invariant
            0 <= i <= lib.union_declarations@.len(),
            forall|j: int| 0 <= j < i ==> #[trigger] union_names(lib.union_declarations@)[j]
                != name@,
        decreases lib.union_declarations@.len() - i,
    {
        proof {
            assert(union_names(lib.union_declarations@)[i as int]
                == lib.union_declarations@[i as int].name@);
        }
        if str_eq(lib.union_declarations[i].name.as_str(), name) {
            return Some(
                Resolved::Local {
                    kind: DeclarationKind::Union,
                    decl: LocalDeclRef::Union(&lib.union_declarations[i]),
                },
            );
        }
        i = i + 1;
    }
    proof {
        assert(!union_names(lib.union_declarations@).contains(name@));
    }
    let mut i: usize = 0;
    while i < lib.xunion_declarations.len()
        invariant
            0 <= i <= lib.xunion_declarations@.len(),
            forall|j: int| 0 <= j < i ==> #[trigger] xunion_names(lib.xunion_declarations@)[j]
                != name@,
        decreases lib.xunion_declarations@.len() - i,
    {
        proof {
            assert(xunion_names(lib.xunion_declarations@)[i as int]
                == lib.xunion_declarations@[i as int].name@);
        }
        if str_eq(lib.xunion_declarations[i].name.as_str(), name) {
            return Some(
                Resolved::Local {
                    kind: DeclarationKind::ExtensibleUnion,
                    decl: LocalDeclRef::XUnion(&lib.xunion_declarations[i]),
                },
            );
        }
        i = i + 1;
    }
    proof {
        assert(!xunion_names(lib.xunion_declarations@).contains(name@));
        assert(lib.library_dependencies@.skip(0) =~= lib.library_dependencies@);
    }
    let mut d: usize = 0;
    while d < lib.library_dependencies.len()
        invariant
            0 <= d <= lib.library_dependencies@.len(),
            local_kind(*lib, name@) is None,
            dep_kind(lib.library_dependencies@, name@) == dep_kind(
                lib.library_dependencies@.skip(d as int),
                name@,
            ),
        decreases lib.library_dependencies@.len() - d,
    {
        proof {
            assert(lib.library_dependencies@.skip(d as int)[0]
                == lib.library_dependencies@[d as int]);
            assert(lib.library_dependencies@.skip(d as int).drop_first()
                =~= lib.library_dependencies@.skip(d as int + 1));
        }
        match find_map_kind(&lib.library_dependencies[d].declarations, name) {
            Some(kind) => {
                return Some(Resolved::Foreign { kind });
            },
            None => {},
        }
        d = d + 1;
    }
    proof {
        assert(lib.library_dependencies@.skip(lib.library_dependencies@.len() as int)
            =~= Seq::<LibraryDependency>::empty());
    }
    None
}

/// The depth-first walk of a type: the node itself paired with its enclosing
/// type, then the walk of its element type, if it has one.
pub open spec fn walk_of(t: Type, parent: Option<Type>) -> Seq<(Type, Option<Type>)>
    decreases t,
{
    seq![(t, parent)] + match t {
        Type::Array { element_type, .. } => walk_of(*element_type, Some(t)),
        Type::Vector { element_type, .. } => walk_of(*element_type, Some(t)),
        _ => Seq::empty(),
    }
}

/// The values a sequence of reference pairs stands for.
pub open spec fn view_pairs<'a>(s: Seq<(&'a Type, Option<&'a Type>)>) -> Seq<(Type, Option<Type>)> {
    s.map_values(
        |p: (&'a Type, Option<&'a Type>)| (*p.0, match p.1 {
            Some(x) => Some(*x),
            None => None,
        }),
    )
}

/// The value an optional reference stands for.
pub open spec fn opt_view<'a>(p: Option<&'a Type>) -> Option<Type> {
    match p {
        Some(x) => Some(*x),
        None => None,
    }
}

/// Append the walk of `t` under `parent` to `out`.
fn walk_into<'a>(t: &'a Type, parent: Option<&'a Type>, out: &mut Vec<(&'a Type, Option<&'a Type>)>)
    ensures
        view_pairs(final(out)@) == view_pairs(old(out)@) + walk_of(*t, opt_view(parent)),
    decreases *t,
{
    let ghost prev = out@;
    out.push((t, parent));
    proof {
        assert(view_pairs(out@) =~= view_pairs(prev).push((*t, opt_view(parent))));
    }
    match t {
        Type::Array { element_type, .. } => {
            walk_into(element_type, Some(t), out);
            proof {
                assert(view_pairs(out@) =~= view_pairs(prev) + walk_of(*t, opt_view(parent)));
            }
        },
        Type::Vector { element_type, .. } => {
            walk_into(element_type, Some(t), out);
            proof {
                assert(view_pairs(out@) =~= view_pairs(prev) + walk_of(*t, opt_view(parent)));
            }
        },
        _ => {
            proof {
                assert(view_pairs(out@) =~= view_pairs(prev) + walk_of(*t, opt_view(parent)));
            }
        },
    }
}

/// Walk a type depth-first: every nested type once, each paired with its
/// enclosing type (`None` for the root). The result is a function of the type
/// value alone, so walking the same value again yields the same sequence.
pub fn walk_type<'a>(t: &'a Type) -> (r: Vec<(&'a Type, Option<&'a Type>)>)
    ensures
        view_pairs(r@) == walk_of(*t, None),
{
    let mut out: Vec<(&'a Type, Option<&'a Type>)> = Vec::new();
    proof {
        assert(view_pairs(out@) =~= Seq::<(Type, Option<Type>)>::empty());
    }
    walk_into(t, None, &mut out);
    out
}

impl Library {
    /// Resolve a qualified name against this library; see the module-level
    /// `resolve`.
    pub fn resolve<'a>(&'a self, name: &str) -> (r: Option<Resolved<'a>>)
        ensures
            match r {
                Some(Resolved::Local { kind, decl }) => local_kind(*self, name@) == Some(kind)
                    && decl_ref_name(decl) == name@ && decl_ref_in(decl, *self, kind),
                Some(Resolved::Foreign { kind }) => local_kind(*self, name@) is None && dep_kind(
                    self.library_dependencies@,
                    name@,
                ) == Some(kind),
                None => local_kind(*self, name@) is None && dep_kind(
                    self.library_dependencies@,
                    name@,
                ) is None,
            },
    {
        resolve(self, name)
    }
}

/// Law: walking a `Vector` of an `Array` of an element with no nested type
/// visits exactly three nodes, outermost first, each child paired with its
/// enclosing type.
pub proof fn lemma_walk_vector_array(v: Type)
    requires
        (v matches Type::Vector { element_type: a, .. }),
        (v->Vector_element_type matches box Type::Array { element_type: p, .. }),
        (!((*v->Vector_element_type)->Array_element_type matches box Type::Array { .. })),
        (!((*v->Vector_element_type)->Array_element_type matches box Type::Vector { .. })),
    ensures
        walk_of(v, None).len() == 3,
        walk_of(v, None)[0] == (v, Option::<Type>::None),
        walk_of(v, None)[1] == (*v->Vector_element_type, Some(v)),
        walk_of(v, None)[2] == (
            *(*v->Vector_element_type)->Array_element_type,
            Some(*v->Vector_element_type),
        ),
{
    let a = *v->Vector_element_type;
    let p = *a->Array_element_type;
    assert(walk_of(p, Some(a)) =~= seq![(p, Some(a))]);
    assert(walk_of(a, Some(v)) =~= seq![(a, Some(v))] + walk_of(p, Some(a)));
    assert(walk_of(v, None) =~= seq![(v, Option::<Type>::None)] + walk_of(a, Some(v)));
}

} // verus!
