//! Whole-library validation: the checks that run over the decoded model after
//! structural decoding — the declaration order is a permutation of the locally
//! declared names, table ordinals fill `1..=N` with no duplicate, and every
//! method carries a request or a response.

use vstd::prelude::*;
use vstd::set_lib::{lemma_subset_equality, lemma_int_range};

use crate::json::str_eq;
use crate::schema::{
    DecodeError, Library, TableDecl, TableMember, Method, ProtocolDecl, ConstDecl, EnumDecl,
    StructDecl, UnionDecl, XUnionDecl,
};

verus! {

/// The character sequences of a list of strings.
pub open spec fn views_of(ss: Seq<String>) -> Seq<Seq<char>> {
    ss.map_values(|s: String| s@)
}

/// The names of a `const` declaration list.
pub open spec fn const_names(ds: Seq<ConstDecl>) -> Seq<Seq<char>> {
    ds.map_values(|d: ConstDecl| d.name@)
}

/// The names of an `enum` declaration list.
pub open spec fn enum_names(ds: Seq<EnumDecl>) -> Seq<Seq<char>> {
    ds.map_values(|d: EnumDecl| d.name@)
}

/// The names of a protocol declaration list.
pub open spec fn protocol_names(ds: Seq<ProtocolDecl>) -> Seq<Seq<char>> {
    ds.map_values(|d: ProtocolDecl| d.name@)
}

/// The names of a `struct` declaration list.
pub open spec fn struct_names(ds: Seq<StructDecl>) -> Seq<Seq<char>> {
    ds.map_values(|d: StructDecl| d.name@)
}

/// The names of a `table` declaration list.
pub open spec fn table_names(ds: Seq<TableDecl>) -> Seq<Seq<char>> {
    ds.map_values(|d: TableDecl| d.name@)
}

/// The names of a `union` declaration list.
pub open spec fn union_names(ds: Seq<UnionDecl>) -> Seq<Seq<char>> {
    ds.map_values(|d: UnionDecl| d.name@)
}

/// The names of an extensible-union declaration list.
pub open spec fn xunion_names(ds: Seq<XUnionDecl>) -> Seq<Seq<char>> {
    ds.map_values(|d: XUnionDecl| d.name@)
}

/// All locally declared names, in kind-list order: the union of the seven
/// declaration lists.
pub open spec fn local_names(lib: Library) -> Seq<Seq<char>> {
    const_names(lib.const_declarations@) + enum_names(lib.enum_declarations@) + protocol_names(
        lib.interface_declarations@,
    ) + struct_names(lib.struct_declarations@) + table_names(lib.table_declarations@)
        + union_names(lib.union_declarations@) + xunion_names(lib.xunion_declarations@)
}

/// How many times `x` occurs in `s`.
pub open spec fn name_count(s: Seq<Seq<char>>, x: Seq<char>) -> nat
    decreases s.len(),
{
    if s.len() == 0 {
        0
    } else {
        (if s[0] == x {
            1nat
        } else {
            0nat
        }) + name_count(s.drop_first(), x)
    }
}

/// An element occurs at least once.
pub proof fn lemma_count_index(s: Seq<Seq<char>>, i: int)
    requires
        0 <= i < s.len(),
    ensures
        name_count(s, s[i]) >= 1,
    decreases s.len(),
{
    if i == 0 {
    } else {
        lemma_count_index(s.drop_first(), i - 1);
        assert(s.drop_first()[i - 1] == s[i]);
    }
}

/// Two positions holding the same value force a count of at least two.
pub proof fn lemma_count_pair(s: Seq<Seq<char>>, i: int, j: int)
    requires
        0 <= i < j < s.len(),
        s[i] == s[j],
    ensures
        name_count(s, s[i]) >= 2,
    decreases s.len(),
{
    if i == 0 {
        lemma_count_index(s.drop_first(), j - 1);
        assert(s.drop_first()[j - 1] == s[j]);
    } else {
        lemma_count_pair(s.drop_first(), i - 1, j - 1);
        assert(s.drop_first()[i - 1] == s[i]);
    }
}

/// A positive count names a position.
pub proof fn lemma_count_pos(s: Seq<Seq<char>>, x: Seq<char>)
    requires
        name_count(s, x) >= 1,
    ensures
        exists|i: int| 0 <= i < s.len() && s[i] == x,
    decreases s.len(),
{
    if s.len() == 0 {
    } else if s[0] == x {
        assert(0 <= 0 < s.len() && s[0] == x);
    } else {
        lemma_count_pos(s.drop_first(), x);
        let i = choose|i: int| 0 <= i < s.drop_first().len() && s.drop_first()[i] == x;
        assert(s[i + 1] == x);
    }
}

/// Count the occurrences of `x` among `names`.
#[verifier::loop_isolation(false)]
pub fn count_in(names: &Vec<String>, x: &str) -> (c: usize)
    ensures
        c as nat == name_count(views_of(names@), x@),
{
    proof {
        assert(views_of(names@).skip(0) =~= views_of(names@));
    }
    let mut c: usize = 0;
    let mut i: usize = 0;
    while i < names.len()
        invariant
            0 <= i <= names@.len(),
            c <= i,
            c as nat + name_count(views_of(names@).skip(i as int), x@) == name_count(
                views_of(names@),
                x@,
            ),
        decreases names@.len() - i,
    {
        proof {
            assert(views_of(names@).skip(i as int)[0] == views_of(names@)[i as int]);
            assert(views_of(names@).skip(i as int).drop_first() =~= views_of(names@).skip(
                i as int + 1,
            ));
        }
        if str_eq(names[i].as_str(), x) {
            c = c + 1;
        }
        i = i + 1;
    }
    proof {
        assert(views_of(names@).skip(names@.len() as int) =~= Seq::<Seq<char>>::empty());
    }
    c
}

/// `order` is a permutation of `names`: every order entry names a declaration,
/// no entry and no declaration repeats, and every declaration is ordered.
pub open spec fn order_ok(names: Seq<Seq<char>>, order: Seq<Seq<char>>) -> bool {
    &&& forall|i: int| 0 <= i < order.len() ==> name_count(names, #[trigger] order[i]) >= 1
    &&& forall|i: int| 0 <= i < order.len() ==> name_count(order, #[trigger] order[i]) == 1
    &&& forall|i: int| 0 <= i < names.len() ==> name_count(names, #[trigger] names[i]) == 1
    &&& forall|i: int| 0 <= i < names.len() ==> name_count(order, #[trigger] names[i]) >= 1
}

/// Check that `order` is a permutation of `names`, reporting the first
/// offending name.
#[verifier::loop_isolation(false)]
pub fn validate_order(names: &Vec<String>, order: &Vec<String>) -> (r: Result<(), DecodeError>)
    ensures
        r is Ok <==> order_ok(views_of(names@), views_of(order@)),
        r matches Err(DecodeError::DanglingOrderEntry { name }) ==> name_count(
            views_of(names@),
            name@,
        ) == 0 && name_count(views_of(order@), name@) >= 1,
        r matches Err(DecodeError::MissingOrderEntry { name }) ==> name_count(
            views_of(names@),
            name@,
        ) >= 1 && name_count(views_of(order@), name@) == 0,
        r matches Err(DecodeError::DuplicateDeclaration { name }) ==> name_count(
            views_of(names@),
            name@,
        ) >= 2 || name_count(views_of(order@), name@) >= 2,
        r matches Err(e) ==> (e is DanglingOrderEntry || e is MissingOrderEntry
            || e is DuplicateDeclaration),
{
    let mut i: usize = 0;
    while i < order.len()
        invariant
            0 <= i <= order@.len(),
            forall|j: int|
                0 <= j < i ==> name_count(views_of(names@), #[trigger] views_of(order@)[j]) >= 1,
            forall|j: int|
                0 <= j < i ==> name_count(views_of(order@), #[trigger] views_of(order@)[j]) == 1,
        decreases order@.len() - i,
    {
        proof {
            assert(views_of(order@)[i as int] == order@[i as int]@);
            lemma_count_index(views_of(order@), i as int);
        }
        let c_names = count_in(names, order[i].as_str());
        if c_names == 0 {
            return Err(DecodeError::DanglingOrderEntry { name: order[i].clone() });
        }
        let c_order = count_in(order, order[i].as_str());
        if c_order >= 2 {
            return Err(DecodeError::DuplicateDeclaration { name: order[i].clone() });
        }
        i = i + 1;
    }
    let mut k: usize = 0;
    while k < names.len()
        invariant
            0 <= k <= names@.len(),
            forall|j: int|
                0 <= j < k ==> name_count(views_of(names@), #[trigger] views_of(names@)[j]) == 1,
            forall|j: int|
                0 <= j < k ==> name_count(views_of(order@), #[trigger] views_of(names@)[j]) >= 1,
            forall|j: int|
                0 <= j < order@.len() ==> name_count(views_of(names@), #[trigger] views_of(order@)[j])
                    >= 1,
            forall|j: int|
                0 <= j < order@.len() ==> name_count(views_of(order@), #[trigger] views_of(order@)[j])
                    == 1,
        decreases names@.len() - k,
    {
        proof {
            assert(views_of(names@)[k as int] == names@[k as int]@);
            lemma_count_index(views_of(names@), k as int);
        }
        let c_names = count_in(names, names[k].as_str());
        if c_names >= 2 {
            return Err(DecodeError::DuplicateDeclaration { name: names[k].clone() });
        }
        let c_order = count_in(order, names[k].as_str());
        if c_order == 0 {
            return Err(DecodeError::MissingOrderEntry { name: names[k].clone() });
        }
        k = k + 1;
    }
    Ok(())
}

/// The ordinal of every member of a table, in member order.
pub open spec fn member_ordinals(t: TableDecl) -> Seq<u64> {
    t.members@.map_values(|m: TableMember| m.ordinal)
}

/// Ordinals fill `1..=N` with no repeats: each lies in range, and no two
/// positions agree. Reserved members consume a slot like any other.
pub open spec fn ordinals_ok(os: Seq<u64>) -> bool {
    &&& forall|i: int| 0 <= i < os.len() ==> 1 <= #[trigger] os[i] <= os.len()
    &&& forall|i: int, j: int|
        0 <= i < j < os.len() ==> #[trigger] os[i] != #[trigger] os[j]
}

/// Every table's member ordinals are valid.
pub open spec fn tables_ok(lib: Library) -> bool {
    forall|k: int|
        0 <= k < lib.table_declarations@.len() ==> ordinals_ok(
            member_ordinals(#[trigger] lib.table_declarations@[k]),
        )
}

/// Check one table's ordinals.
#[verifier::loop_isolation(false)]
pub fn validate_table(t: &TableDecl) -> (r: Result<(), DecodeError>)
    ensures
        r is Ok <==> ordinals_ok(member_ordinals(*t)),
        r matches Err(e) ==> (e matches DecodeError::MalformedDocument { context } && context
            == t.name),
{
    let n = t.members.len();
    let mut i: usize = 0;
    while i < t.members.len()
        invariant
            0 <= i <= t.members@.len(),
            n == t.members@.len(),
            forall|j: int|
                0 <= j < i ==> 1 <= #[trigger] member_ordinals(*t)[j] <= t.members@.len(),
            forall|j1: int, j2: int|
                0 <= j1 < j2 < i ==> #[trigger] member_ordinals(*t)[j1] != #[trigger] member_ordinals(
                    *t,
                )[j2],
        decreases t.members@.len() - i,
    {
        proof {
            assert(member_ordinals(*t)[i as int] == t.members@[i as int].ordinal);
        }
        let ord = t.members[i].ordinal;
        if ord == 0 || ord > n as u64 {
            return Err(DecodeError::MalformedDocument { context: t.name.clone() });
        }
        let mut j: usize = 0;
        while j < i
            invariant
                0 <= j <= i < t.members@.len(),
                ord == member_ordinals(*t)[i as int],
                forall|j1: int|
                    0 <= j1 < j ==> #[trigger] member_ordinals(*t)[j1] != member_ordinals(*t)[
                        i as int
                    ],
            decreases i - j,
        {
            proof {
                assert(member_ordinals(*t)[j as int] == t.members@[j as int].ordinal);
            }
            if t.members[j].ordinal == ord {
                return Err(DecodeError::MalformedDocument { context: t.name.clone() });
            }
            j = j + 1;
        }
        i = i + 1;
    }
    Ok(())
}

/// Check every table's ordinals.
#[verifier::loop_isolation(false)]
pub fn validate_tables(lib: &Library) -> (r: Result<(), DecodeError>)
    ensures
        r is Ok <==> tables_ok(*lib),
        r matches Err(e) ==> (e matches DecodeError::MalformedDocument { context } && exists|
            k: int,
        | #[trigger] names_bad_table(*lib, context, k)),
{
    let mut k: usize = 0;
    while k < lib.table_declarations.len()
        invariant
            0 <= k <= lib.table_declarations@.len(),
            forall|j: int|
                0 <= j < k ==> ordinals_ok(member_ordinals(#[trigger] lib.table_declarations@[j])),
        decreases lib.table_declarations@.len() - k,
    {
        match validate_table(&lib.table_declarations[k]) {
            Ok(()) => {},
            Err(e) => {
                proof {
                    assert(names_bad_table(*lib, e->MalformedDocument_context, k as int));
                }
                return Err(e);
            },
        }
        k = k + 1;
    }
    Ok(())
}

/// `context` names table `k` of the library, whose member ordinals are
/// invalid.
pub open spec fn names_bad_table(lib: Library, context: String, k: int) -> bool {
    &&& 0 <= k < lib.table_declarations@.len()
    &&& context == lib.table_declarations@[k].name
    &&& !ordinals_ok(member_ordinals(lib.table_declarations@[k]))
}

/// `protocol` and `method` name method `j` of protocol `k` of the library,
/// which has neither request nor response.
pub open spec fn names_empty_method(
    lib: Library,
    protocol: String,
    method: String,
    k: int,
    j: int,
) -> bool {
    &&& 0 <= k < lib.interface_declarations@.len()
    &&& 0 <= j < lib.interface_declarations@[k].methods@.len()
    &&& protocol == lib.interface_declarations@[k].name
    &&& method == lib.interface_declarations@[k].methods@[j].name
    &&& !lib.interface_declarations@[k].methods@[j].has_request
    &&& !lib.interface_declarations@[k].methods@[j].has_response
}

/// The names of a protocol's methods, in order.
pub open spec fn method_names(p: ProtocolDecl) -> Seq<Seq<char>> {
    p.methods@.map_values(|m: Method| m.name@)
}

/// The request/response presence flags of a protocol's methods, in order.
pub open spec fn method_flags(p: ProtocolDecl) -> Seq<(bool, bool)> {
    p.methods@.map_values(|m: Method| (m.has_request, m.has_response))
}

/// Every method carries a request, a response, or both.
pub open spec fn flags_ok(fl: Seq<(bool, bool)>) -> bool {
    forall|j: int| 0 <= j < fl.len() ==> (#[trigger] fl[j]).0 || fl[j].1
}

/// Every protocol's methods are non-empty.
pub open spec fn protocols_ok(lib: Library) -> bool {
    forall|k: int|
        0 <= k < lib.interface_declarations@.len() ==> flags_ok(
            method_flags(#[trigger] lib.interface_declarations@[k]),
        )
}

/// Check one protocol's methods.
#[verifier::loop_isolation(false)]
pub fn validate_protocol(p: &ProtocolDecl) -> (r: Result<(), DecodeError>)
    ensures
        r is Ok <==> flags_ok(method_flags(*p)),
        r matches Err(e) ==> (e matches DecodeError::EmptyMethod { protocol, method } && protocol
            == p.name && exists|j: int|
            0 <= j < p.methods@.len() && method == (#[trigger] p.methods@[j]).name
                && !p.methods@[j].has_request && !p.methods@[j].has_response),
{
    let mut j: usize = 0;
    while j < p.methods.len()
        invariant
            0 <= j <= p.methods@.len(),
            forall|i: int|
                0 <= i < j ==> ((#[trigger] method_flags(*p)[i]).0 || method_flags(*p)[i].1),
        decreases p.methods@.len() - j,
    {
        proof {
            assert(method_flags(*p)[j as int] == (
                p.methods@[j as int].has_request,
                p.methods@[j as int].has_response,
            ));
        }
        if !p.methods[j].has_request && !p.methods[j].has_response {
            return Err(
                DecodeError::EmptyMethod { protocol: p.name.clone(), method: p.methods[
                    j
                ].name.clone() },
            );
        }
        j = j + 1;
    }
    Ok(())
}

/// Check every protocol's methods.
#[verifier::loop_isolation(false)]
pub fn validate_protocols(lib: &Library) -> (r: Result<(), DecodeError>)
    ensures
        r is Ok <==> protocols_ok(*lib),
        r matches Err(e) ==> (e matches DecodeError::EmptyMethod { protocol, method } && exists|
            k: int,
            j: int,
        | #[trigger] names_empty_method(*lib, protocol, method, k, j)),
{
    let mut k: usize = 0;
    while k < lib.interface_declarations.len()
        invariant
            0 <= k <= lib.interface_declarations@.len(),
            forall|j: int|
                0 <= j < k ==> flags_ok(method_flags(#[trigger] lib.interface_declarations@[j])),
        decreases lib.interface_declarations@.len() - k,
    {
        match validate_protocol(&lib.interface_declarations[k]) {
            Ok(()) => {},
            Err(e) => {
                proof {
                    let p = lib.interface_declarations@[k as int];
                    let j = choose|j: int|
                        0 <= j < p.methods@.len() && e->EmptyMethod_method == (
                        #[trigger] p.methods@[j]).name && !p.methods@[j].has_request
                            && !p.methods@[j].has_response;
                    assert(names_empty_method(
                        *lib,
                        e->EmptyMethod_protocol,
                        e->EmptyMethod_method,
                        k as int,
                        j,
                    ));
                }
                return Err(e);
            },
        }
        k = k + 1;
    }
    Ok(())
}

/// The decoded-model invariant that `decode` establishes: the declaration
/// order is a permutation of the local names, table ordinals are valid, and
/// no method is empty.
pub open spec fn lib_valid(lib: Library) -> bool {
    &&& order_ok(local_names(lib), views_of(lib.declaration_order@))
    &&& tables_ok(lib)
    &&& protocols_ok(lib)
}

/// Append the names of a `const` declaration list.
#[verifier::loop_isolation(false)]
fn push_const_names(names: &mut Vec<String>, ds: &Vec<ConstDecl>)
    ensures
        views_of(final(names)@) == views_of(old(names)@) + const_names(ds@),
{
    let mut i: usize = 0;
    while i < ds.len()
        invariant
            0 <= i <= ds@.len(),
            views_of(names@) =~= views_of(old(names)@) + const_names(ds@.subrange(0, i as int)),
        decreases ds@.len() - i,
    {
        let ghost prev = names@;
        names.push(ds[i].name.clone());
        proof {
            assert(names@ == prev.push(ds@[i as int].name));
            assert(views_of(names@) =~= views_of(prev).push(ds@[i as int].name@));
            assert(ds@.subrange(0, i as int + 1) =~= ds@.subrange(0, i as int).push(
                ds@[i as int],
            ));
            assert(views_of(names@) =~= views_of(old(names)@) + const_names(
                ds@.subrange(0, i as int + 1),
            ));
        }
        i = i + 1;
    }
    proof {
        assert(ds@.subrange(0, ds@.len() as int) =~= ds@);
    }
}

/// Append the names of a `enum` declaration list.
#[verifier::loop_isolation(false)]
fn push_enum_names(names: &mut Vec<String>, ds: &Vec<EnumDecl>)
    ensures
        views_of(final(names)@) == views_of(old(names)@) + enum_names(ds@),
{
    let mut i: usize = 0;
    while i < ds.len()
        invariant
            0 <= i <= ds@.len(),
            views_of(names@) =~= views_of(old(names)@) + enum_names(ds@.subrange(0, i as int)),
        decreases ds@.len() - i,
    {
        let ghost prev = names@;
        names.push(ds[i].name.clone());
        proof {
            assert(names@ == prev.push(ds@[i as int].name));
            assert(views_of(names@) =~= views_of(prev).push(ds@[i as int].name@));
            assert(ds@.subrange(0, i as int + 1) =~= ds@.subrange(0, i as int).push(
                ds@[i as int],
            ));
            assert(views_of(names@) =~= views_of(old(names)@) + enum_names(
                ds@.subrange(0, i as int + 1),
            ));
        }
        i = i + 1;
    }
    proof {
        assert(ds@.subrange(0, ds@.len() as int) =~= ds@);
    }
}

/// Append the names of a `protocol` declaration list.
#[verifier::loop_isolation(false)]
fn push_protocol_names(names: &mut Vec<String>, ds: &Vec<ProtocolDecl>)
    ensures
        views_of(final(names)@) == views_of(old(names)@) + protocol_names(ds@),
{
    let mut i: usize = 0;
    while i < ds.len()
        invariant
            0 <= i <= ds@.len(),
            views_of(names@) =~= views_of(old(names)@) + protocol_names(ds@.subrange(0, i as int)),
        decreases ds@.len() - i,
    {
        let ghost prev = names@;
        names.push(ds[i].name.clone());
        proof {
            assert(names@ == prev.push(ds@[i as int].name));
            assert(views_of(names@) =~= views_of(prev).push(ds@[i as int].name@));
            assert(ds@.subrange(0, i as int + 1) =~= ds@.subrange(0, i as int).push(
                ds@[i as int],
            ));
            assert(views_of(names@) =~= views_of(old(names)@) + protocol_names(
                ds@.subrange(0, i as int + 1),
            ));
        }
        i = i + 1;
    }
    proof {
        assert(ds@.subrange(0, ds@.len() as int) =~= ds@);
    }
}

/// Append the names of a `struct` declaration list.
#[verifier::loop_isolation(false)]
fn push_struct_names(names: &mut Vec<String>, ds: &Vec<StructDecl>)
    ensures
        views_of(final(names)@) == views_of(old(names)@) + struct_names(ds@),
{
    let mut i: usize = 0;
    while i < ds.len()
        invariant
            0 <= i <= ds@.len(),
            views_of(names@) =~= views_of(old(names)@) + struct_names(ds@.subrange(0, i as int)),
        decreases ds@.len() - i,
    {
        let ghost prev = names@;
        names.push(ds[i].name.clone());
        proof {
            assert(names@ == prev.push(ds@[i as int].name));
            assert(views_of(names@) =~= views_of(prev).push(ds@[i as int].name@));
            assert(ds@.subrange(0, i as int + 1) =~= ds@.subrange(0, i as int).push(
                ds@[i as int],
            ));
            assert(views_of(names@) =~= views_of(old(names)@) + struct_names(
                ds@.subrange(0, i as int + 1),
            ));
        }
        i = i + 1;
    }
    proof {
        assert(ds@.subrange(0, ds@.len() as int) =~= ds@);
    }
}

/// Append the names of a `table` declaration list.
#[verifier::loop_isolation(false)]
fn push_table_names(names: &mut Vec<String>, ds: &Vec<TableDecl>)
    ensures
        views_of(final(names)@) == views_of(old(names)@) + table_names(ds@),
{
    let mut i: usize = 0;
    while i < ds.len()
        invariant
            0 <= i <= ds@.len(),
            views_of(names@) =~= views_of(old(names)@) + table_names(ds@.subrange(0, i as int)),
        decreases ds@.len() - i,
    {
        let ghost prev = names@;
        names.push(ds[i].name.clone());
        proof {
            assert(names@ == prev.push(ds@[i as int].name));
            assert(views_of(names@) =~= views_of(prev).push(ds@[i as int].name@));
            assert(ds@.subrange(0, i as int + 1) =~= ds@.subrange(0, i as int).push(
                ds@[i as int],
            ));
            assert(views_of(names@) =~= views_of(old(names)@) + table_names(
                ds@.subrange(0, i as int + 1),
            ));
        }
        i = i + 1;
    }
    proof {
        assert(ds@.subrange(0, ds@.len() as int) =~= ds@);
    }
}

/// Append the names of a `union` declaration list.
#[verifier::loop_isolation(false)]
fn push_union_names(names: &mut Vec<String>, ds: &Vec<UnionDecl>)
    ensures
        views_of(final(names)@) == views_of(old(names)@) + union_names(ds@),
{
    let mut i: usize = 0;
    while i < ds.len()
        invariant
            0 <= i <= ds@.len(),
            views_of(names@) =~= views_of(old(names)@) + union_names(ds@.subrange(0, i as int)),
        decreases ds@.len() - i,
    {
        let ghost prev = names@;
        names.push(ds[i].name.clone());
        proof {
            assert(names@ == prev.push(ds@[i as int].name));
            assert(views_of(names@) =~= views_of(prev).push(ds@[i as int].name@));
            assert(ds@.subrange(0, i as int + 1) =~= ds@.subrange(0, i as int).push(
                ds@[i as int],
            ));
            assert(views_of(names@) =~= views_of(old(names)@) + union_names(
                ds@.subrange(0, i as int + 1),
            ));
        }
        i = i + 1;
    }
    proof {
        assert(ds@.subrange(0, ds@.len() as int) =~= ds@);
    }
}

/// Append the names of a `xunion` declaration list.
#[verifier::loop_isolation(false)]
fn push_xunion_names(names: &mut Vec<String>, ds: &Vec<XUnionDecl>)
    ensures
        views_of(final(names)@) == views_of(old(names)@) + xunion_names(ds@),
{
    let mut i: usize = 0;
    while i < ds.len()
        invariant
            0 <= i <= ds@.len(),
            views_of(names@) =~= views_of(old(names)@) + xunion_names(ds@.subrange(0, i as int)),
        decreases ds@.len() - i,
    {
        let ghost prev = names@;
        names.push(ds[i].name.clone());
        proof {
            assert(names@ == prev.push(ds@[i as int].name));
            assert(views_of(names@) =~= views_of(prev).push(ds@[i as int].name@));
            assert(ds@.subrange(0, i as int + 1) =~= ds@.subrange(0, i as int).push(
                ds@[i as int],
            ));
            assert(views_of(names@) =~= views_of(old(names)@) + xunion_names(
                ds@.subrange(0, i as int + 1),
            ));
        }
        i = i + 1;
    }
    proof {
        assert(ds@.subrange(0, ds@.len() as int) =~= ds@);
    }
}

/// Collect every locally declared name, in kind-list order.
pub fn collect_local_names(lib: &Library) -> (names: Vec<String>)
    ensures
        views_of(names@) == local_names(*lib),
{
    let mut names: Vec<String> = Vec::new();
    proof {
        assert(views_of(names@) =~= Seq::<Seq<char>>::empty());
    }
    push_const_names(&mut names, &lib.const_declarations);
    push_enum_names(&mut names, &lib.enum_declarations);
    push_protocol_names(&mut names, &lib.interface_declarations);
    push_struct_names(&mut names, &lib.struct_declarations);
    push_table_names(&mut names, &lib.table_declarations);
    push_union_names(&mut names, &lib.union_declarations);
    push_xunion_names(&mut names, &lib.xunion_declarations);
    proof {
        assert(views_of(names@) =~= local_names(*lib));
    }
    names
}

/// An error reported by the whole-library validation pass, as opposed to a
/// shape error.
pub open spec fn validation_error(e: DecodeError) -> bool {
    ||| e is DuplicateDeclaration
    ||| e is DanglingOrderEntry
    ||| e is MissingOrderEntry
    ||| e is EmptyMethod
    ||| e is MalformedDocument
}

/// Run every whole-library check on a decoded model.
pub fn validate_library(lib: &Library) -> (r: Result<(), DecodeError>)
    ensures
        r is Ok <==> lib_valid(*lib),
        r matches Err(e) ==> validation_error(e),
        r matches Err(DecodeError::DanglingOrderEntry { name }) ==> name_count(
            local_names(*lib),
            name@,
        ) == 0 && name_count(views_of(lib.declaration_order@), name@) >= 1,
        r matches Err(DecodeError::MissingOrderEntry { name }) ==> name_count(
            local_names(*lib),
            name@,
        ) >= 1 && name_count(views_of(lib.declaration_order@), name@) == 0,
        r matches Err(DecodeError::DuplicateDeclaration { name }) ==> name_count(
            local_names(*lib),
            name@,
        ) >= 2 || name_count(views_of(lib.declaration_order@), name@) >= 2,
        r matches Err(DecodeError::EmptyMethod { protocol, method }) ==> exists|k: int, j: int|
            #[trigger] names_empty_method(*lib, protocol, method, k, j),
        r matches Err(DecodeError::MalformedDocument { context }) ==> exists|k: int|
            #[trigger] names_bad_table(*lib, context, k),
{
    let names = collect_local_names(lib);
    match validate_order(&names, &lib.declaration_order) {
        Ok(()) => {},
        Err(e) => {
            return Err(e);
        },
    }
    match validate_tables(lib) {
        Ok(()) => {},
        Err(e) => {
            return Err(e);
        },
    }
    match validate_protocols(lib) {
        Ok(()) => {},
        Err(e) => {
            return Err(e);
        },
    }
    Ok(())
}

/// Law: on a valid library the declaration order has exactly as many entries
/// as there are locally declared names — the order is a permutation, so no
/// name is gained or lost.
pub proof fn lemma_order_is_permutation(names: Seq<Seq<char>>, order: Seq<Seq<char>>)
    requires
        order_ok(names, order),
    ensures
        order.len() == names.len(),
        order.to_set() == names.to_set(),
        order.no_duplicates(),
        names.no_duplicates(),
{
    assert(order.no_duplicates()) by {
        assert forall|i: int, j: int| 0 <= i < order.len() && 0 <= j < order.len() && i != j
            implies order[i] != order[j] by {
            if order[i] == order[j] {
                if i < j {
                    lemma_count_pair(order, i, j);
                } else {
                    lemma_count_pair(order, j, i);
                }
            }
        }
    }
    assert(names.no_duplicates()) by {
        assert forall|i: int, j: int| 0 <= i < names.len() && 0 <= j < names.len() && i != j
            implies names[i] != names[j] by {
            if names[i] == names[j] {
                if i < j {
                    lemma_count_pair(names, i, j);
                } else {
                    lemma_count_pair(names, j, i);
                }
            }
        }
    }
    assert(order.to_set() =~= names.to_set()) by {
        assert forall|x: Seq<char>| order.to_set().contains(x) implies names.to_set().contains(
            x,
        ) by {
            let i = choose|i: int| 0 <= i < order.len() && order[i] == x;
            lemma_count_pos(names, x);
            let j = choose|j: int| 0 <= j < names.len() && names[j] == x;
            assert(names.to_set().contains(names[j]));
        }
        assert forall|x: Seq<char>| names.to_set().contains(x) implies order.to_set().contains(
            x,
        ) by {
            let i = choose|i: int| 0 <= i < names.len() && names[i] == x;
            lemma_count_pos(order, x);
            let j = choose|j: int| 0 <= j < order.len() && order[j] == x;
            assert(order.to_set().contains(order[j]));
        }
    }
    order.unique_seq_to_set();
    names.unique_seq_to_set();
}

/// The ordinals as mathematical integers.
pub open spec fn ints_of(os: Seq<u64>) -> Seq<int> {
    os.map_values(|o: u64| o as int)
}

/// Law: valid table ordinals are exactly the integers `1..=N`, reserved slots
/// included.
pub proof fn lemma_ordinals_cover_range(os: Seq<u64>)
    requires
        ordinals_ok(os),
    ensures
        ints_of(os).to_set() == vstd::set_lib::set_int_range(1, os.len() as int + 1),
{
    let ints = ints_of(os);
    let range = vstd::set_lib::set_int_range(1, os.len() as int + 1);
    assert(ints.no_duplicates()) by {
        assert forall|i: int, j: int| 0 <= i < ints.len() && 0 <= j < ints.len() && i != j
            implies ints[i] != ints[j] by {
            assert(ints[i] == os[i] as int && ints[j] == os[j] as int);
        }
    }
    assert(ints.to_set().subset_of(range)) by {
        assert forall|x: int| ints.to_set().contains(x) implies range.contains(x) by {
            let i = choose|i: int| 0 <= i < ints.len() && ints[i] == x;
            assert(1 <= os[i] <= os.len());
        }
    }
    ints.unique_seq_to_set();
    lemma_int_range(1, os.len() as int + 1);
    lemma_subset_equality(ints.to_set(), range);
}

/// Law: on a valid library the declaration order has exactly one entry per
/// locally declared name.
pub proof fn lemma_valid_order_length(lib: Library)
    requires
        lib_valid(lib),
    ensures
        lib.declaration_order@.len() == local_names(lib).len(),
{
    lemma_order_is_permutation(local_names(lib), views_of(lib.declaration_order@));
}

/// Law: on a valid library every table's member ordinals are exactly
/// `1..=N`, where `N` counts the members, reserved slots included.
pub proof fn lemma_valid_table_ordinals(lib: Library, k: int)
    requires
        lib_valid(lib),
        0 <= k < lib.table_declarations@.len(),
    ensures
        ints_of(member_ordinals(lib.table_declarations@[k])).to_set()
            == vstd::set_lib::set_int_range(
            1,
            lib.table_declarations@[k].members@.len() as int + 1,
        ),
{
    lemma_ordinals_cover_range(member_ordinals(lib.table_declarations@[k]));
}

/// Law: on a valid library every method has a request, a response, or both.
pub proof fn lemma_valid_methods_nonempty(lib: Library, k: int, j: int)
    requires
        lib_valid(lib),
        0 <= k < lib.interface_declarations@.len(),
        0 <= j < lib.interface_declarations@[k].methods@.len(),
    ensures
        lib.interface_declarations@[k].methods@[j].has_request
            || lib.interface_declarations@[k].methods@[j].has_response,
{
    assert(flags_ok(method_flags(lib.interface_declarations@[k])));
    assert(method_flags(lib.interface_declarations@[k])[j] == (
        lib.interface_declarations@[k].methods@[j].has_request,
        lib.interface_declarations@[k].methods@[j].has_response,
    ));
}

} // verus!
