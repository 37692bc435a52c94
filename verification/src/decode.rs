//! The library decoder: structural validation of a parsed document and
//! construction of the schema model.
//!
//! Every decoding step is specified twice over: a `*_of` spec function (or an
//! `is_*_of` relation where the entity holds a list) says exactly which
//! document shapes are accepted and what value they decode to, and the
//! executable decoder is proved to return `Ok` on exactly those shapes, with
//! exactly that value.

use vstd::prelude::*;

use crate::json::{
    JsonValue, lookup_field, str_field, bool_field, u64_field, u32_field, arr_field, obj_field,
    opt_u32_field, opt_bool_field, str_eq, get_field, get_str, get_bool, get_u64, get_u32,
    get_opt_u32, get_opt_bool, get_arr, get_obj,
};
use crate::validate::{
    order_ok, ordinals_ok, flags_ok, local_names, views_of, name_count, const_names, enum_names,
    protocol_names, struct_names, table_names, union_names, xunion_names, member_ordinals,
    method_flags, method_names, tables_ok, protocols_ok, lib_valid, validate_library,
    validation_error, names_bad_table, names_empty_method,
};
use crate::schema::{
    HandleSubtype, DeclarationKind, Type, Literal, Constant, Attribute, DecodeError, EnumMember,
    FieldMember, TableMember, ConstDecl, EnumDecl, StructDecl, TableDecl, UnionDecl, XUnionDecl,
    Method, ProtocolDecl, LibraryDependency, Library,
};

verus! {

/// Errors that report a document of the wrong shape, as opposed to the
/// whole-library validation errors.
pub open spec fn shape_error(e: DecodeError) -> bool {
    ||| e is MalformedDocument
    ||| e is UnknownVariant
    ||| e is MissingField
}

/// A shape error whose context names `ctx`.
pub open spec fn shape_error_in(e: DecodeError, ctx: Seq<char>) -> bool {
    match e {
        DecodeError::MalformedDocument { context } => context@ == ctx,
        DecodeError::UnknownVariant { context, .. } => context@ == ctx,
        DecodeError::MissingField { context, .. } => context@ == ctx,
        _ => false,
    }
}

/// A successful `lookup_field` returns one of the listed values.
pub proof fn lemma_lookup_is_element(fields: Seq<(String, JsonValue)>, key: Seq<char>)
    requires
        lookup_field(fields, key) is Some,
    ensures
        exists|i: int|
            0 <= i < fields.len() && fields[i].1 == lookup_field(fields, key)->0,
    decreases fields.len(),
{
    if fields.len() == 0 {
    } else if fields[0].0@ == key {
        assert(fields[0].1 == lookup_field(fields, key)->0);
    } else {
        lemma_lookup_is_element(fields.drop_first(), key);
        let j = choose|j: int|
            0 <= j < fields.drop_first().len() && fields.drop_first()[j].1 == lookup_field(
                fields.drop_first(),
                key,
            )->0;
        assert(fields[j + 1].1 == lookup_field(fields, key)->0);
    }
}

/// The handle subtype a tag token names, if any.
pub open spec fn handle_subtype_of(tag: Seq<char>) -> Option<HandleSubtype> {
    if tag == "handle"@ {
        Some(HandleSubtype::Handle)
    } else if tag == "process"@ {
        Some(HandleSubtype::Process)
    } else if tag == "thread"@ {
        Some(HandleSubtype::Thread)
    } else if tag == "vmo"@ {
        Some(HandleSubtype::Vmo)
    } else if tag == "channel"@ {
        Some(HandleSubtype::Channel)
    } else if tag == "event"@ {
        Some(HandleSubtype::Event)
    } else if tag == "port"@ {
        Some(HandleSubtype::Port)
    } else if tag == "interrupt"@ {
        Some(HandleSubtype::Interrupt)
    } else if tag == "debuglog"@ {
        Some(HandleSubtype::DebugLog)
    } else if tag == "socket"@ {
        Some(HandleSubtype::Socket)
    } else if tag == "resource"@ {
        Some(HandleSubtype::Resource)
    } else if tag == "eventpair"@ {
        Some(HandleSubtype::EventPair)
    } else if tag == "job"@ {
        Some(HandleSubtype::Job)
    } else if tag == "vmar"@ {
        Some(HandleSubtype::Vmar)
    } else if tag == "fifo"@ {
        Some(HandleSubtype::Fifo)
    } else if tag == "guest"@ {
        Some(HandleSubtype::Guest)
    } else if tag == "timer"@ {
        Some(HandleSubtype::Timer)
    } else if tag == "bti"@ {
        Some(HandleSubtype::Bti)
    } else if tag == "profile"@ {
        Some(HandleSubtype::Profile)
    } else {
        None
    }
}

/// Decode a handle-subtype tag.
pub fn decode_handle_subtype(tag: &str) -> (r: Option<HandleSubtype>)
    ensures
        r == handle_subtype_of(tag@),
{
    if str_eq(tag, "handle") {
        Some(HandleSubtype::Handle)
    } else if str_eq(tag, "process") {
        Some(HandleSubtype::Process)
    } else if str_eq(tag, "thread") {
        Some(HandleSubtype::Thread)
    } else if str_eq(tag, "vmo") {
        Some(HandleSubtype::Vmo)
    } else if str_eq(tag, "channel") {
        Some(HandleSubtype::Channel)
    } else if str_eq(tag, "event") {
        Some(HandleSubtype::Event)
    } else if str_eq(tag, "port") {
        Some(HandleSubtype::Port)
    } else if str_eq(tag, "interrupt") {
        Some(HandleSubtype::Interrupt)
    } else if str_eq(tag, "debuglog") {
        Some(HandleSubtype::DebugLog)
    } else if str_eq(tag, "socket") {
        Some(HandleSubtype::Socket)
    } else if str_eq(tag, "resource") {
        Some(HandleSubtype::Resource)
    } else if str_eq(tag, "eventpair") {
        Some(HandleSubtype::EventPair)
    } else if str_eq(tag, "job") {
        Some(HandleSubtype::Job)
    } else if str_eq(tag, "vmar") {
        Some(HandleSubtype::Vmar)
    } else if str_eq(tag, "fifo") {
        Some(HandleSubtype::Fifo)
    } else if str_eq(tag, "guest") {
        Some(HandleSubtype::Guest)
    } else if str_eq(tag, "timer") {
        Some(HandleSubtype::Timer)
    } else if str_eq(tag, "bti") {
        Some(HandleSubtype::Bti)
    } else if str_eq(tag, "profile") {
        Some(HandleSubtype::Profile)
    } else {
        None
    }
}

/// The declaration kind a tag token names, if any. Protocols are tagged
/// `interface` on the wire; extensible unions are tagged `xunion`.
pub open spec fn decl_kind_of(tag: Seq<char>) -> Option<DeclarationKind> {
    if tag == "const"@ {
        Some(DeclarationKind::Const)
    } else if tag == "bits"@ {
        Some(DeclarationKind::Bits)
    } else if tag == "enum"@ {
        Some(DeclarationKind::Enum)
    } else if tag == "interface"@ {
        Some(DeclarationKind::Protocol)
    } else if tag == "struct"@ {
        Some(DeclarationKind::Struct)
    } else if tag == "table"@ {
        Some(DeclarationKind::Table)
    } else if tag == "union"@ {
        Some(DeclarationKind::Union)
    } else if tag == "xunion"@ {
        Some(DeclarationKind::ExtensibleUnion)
    } else {
        None
    }
}

/// Decode a declaration-kind tag.
pub fn decode_decl_kind(tag: &str) -> (r: Option<DeclarationKind>)
    ensures
        r == decl_kind_of(tag@),
{
    if str_eq(tag, "const") {
        Some(DeclarationKind::Const)
    } else if str_eq(tag, "bits") {
        Some(DeclarationKind::Bits)
    } else if str_eq(tag, "enum") {
        Some(DeclarationKind::Enum)
    } else if str_eq(tag, "interface") {
        Some(DeclarationKind::Protocol)
    } else if str_eq(tag, "struct") {
        Some(DeclarationKind::Struct)
    } else if str_eq(tag, "table") {
        Some(DeclarationKind::Table)
    } else if str_eq(tag, "union") {
        Some(DeclarationKind::Union)
    } else if str_eq(tag, "xunion") {
        Some(DeclarationKind::ExtensibleUnion)
    } else {
        None
    }
}

/// The literal a document node encodes, if any.
pub open spec fn literal_of(v: JsonValue) -> Option<Literal> {
    match v {
        JsonValue::Obj(fields) => match str_field(fields@, "kind"@) {
            Some(tag) => if tag == "string"@ {
                match lookup_field(fields@, "value"@) {
                    Some(JsonValue::Str(s)) => Some(Literal::Str { value: s }),
                    _ => None,
                }
            } else if tag == "numeric"@ {
                match lookup_field(fields@, "value"@) {
                    Some(JsonValue::Str(s)) => Some(Literal::Numeric { value: s }),
                    _ => None,
                }
            } else if tag == "true"@ {
                Some(Literal::True)
            } else if tag == "false"@ {
                Some(Literal::False)
            } else if tag == "default"@ {
                Some(Literal::DefaultVal)
            } else {
                None
            },
            None => None,
        },
        _ => None,
    }
}

/// Decode a literal node. `ctx` names the enclosing declaration for errors.
pub fn decode_literal(v: &JsonValue, ctx: &str) -> (r: Result<Literal, DecodeError>)
    ensures
        r is Ok <==> literal_of(*v) is Some,
        r matches Ok(l) ==> literal_of(*v) == Some(l),
        r matches Err(e) ==> shape_error_in(e, ctx@),
        r matches Err(DecodeError::MalformedDocument { .. }) ==> !(*v is Obj),
        r matches Err(DecodeError::UnknownVariant { tag, .. }) ==> str_field(
            v->Obj_0@,
            "kind"@,
        ) == Some(tag@),
        r matches Err(DecodeError::MissingField { field, .. }) ==> *v is Obj && ((field@ == "kind"@
            && str_field(v->Obj_0@, "kind"@) is None) || (field@ == "value"@ && str_field(
            v->Obj_0@,
            "value"@,
        ) is None)),
{
    let fields = match v {
        JsonValue::Obj(fields) => fields,
        _ => {
            return Err(DecodeError::MalformedDocument { context: ctx.to_owned() });
        },
    };
    let tag = match get_str(fields, "kind") {
        Some(tag) => tag,
        None => {
            return Err(
                DecodeError::MissingField { context: ctx.to_owned(), field: "kind".to_owned() },
            );
        },
    };
    if str_eq(tag.as_str(), "string") {
        match get_str(fields, "value") {
            Some(s) => Ok(Literal::Str { value: s.clone() }),
            None => Err(
                DecodeError::MissingField { context: ctx.to_owned(), field: "value".to_owned() },
            ),
        }
    } else if str_eq(tag.as_str(), "numeric") {
        match get_str(fields, "value") {
            Some(s) => Ok(Literal::Numeric { value: s.clone() }),
            None => Err(
                DecodeError::MissingField { context: ctx.to_owned(), field: "value".to_owned() },
            ),
        }
    } else if str_eq(tag.as_str(), "true") {
        Ok(Literal::True)
    } else if str_eq(tag.as_str(), "false") {
        Ok(Literal::False)
    } else if str_eq(tag.as_str(), "default") {
        Ok(Literal::DefaultVal)
    } else {
        Err(DecodeError::UnknownVariant { context: ctx.to_owned(), tag: tag.clone() })
    }
}

/// The constant a document node encodes, if any.
pub open spec fn constant_of(v: JsonValue) -> Option<Constant> {
    match v {
        JsonValue::Obj(fields) => match str_field(fields@, "kind"@) {
            Some(tag) => if tag == "identifier"@ {
                match lookup_field(fields@, "identifier"@) {
                    Some(JsonValue::Str(s)) => Some(Constant::Identifier { identifier: s }),
                    _ => None,
                }
            } else if tag == "literal"@ {
                match lookup_field(fields@, "literal"@) {
                    Some(l) => match literal_of(l) {
                        Some(lit) => Some(Constant::Literal { literal: lit }),
                        None => None,
                    },
                    None => None,
                }
            } else {
                None
            },
            None => None,
        },
        _ => None,
    }
}

/// Decode a constant node.
pub fn decode_constant(v: &JsonValue, ctx: &str) -> (r: Result<Constant, DecodeError>)
    ensures
        r is Ok <==> constant_of(*v) is Some,
        r matches Ok(c) ==> constant_of(*v) == Some(c),
        r matches Err(e) ==> shape_error_in(e, ctx@),
        r matches Err(DecodeError::MalformedDocument { .. }) ==> !(*v is Obj) || (lookup_field(
            v->Obj_0@,
            "literal"@,
        ) matches Some(l) && !(l is Obj)),
        r matches Err(DecodeError::UnknownVariant { tag, .. }) ==> str_field(
            v->Obj_0@,
            "kind"@,
        ) == Some(tag@) || (lookup_field(v->Obj_0@, "literal"@) matches Some(l) && str_field(
            l->Obj_0@,
            "kind"@,
        ) == Some(tag@)),
        r matches Err(DecodeError::MissingField { field, .. }) ==> *v is Obj && {
            ||| (field@ == "kind"@ && str_field(v->Obj_0@, "kind"@) is None)
            ||| (field@ == "identifier"@ && str_field(v->Obj_0@, "identifier"@) is None)
            ||| (field@ == "literal"@ && lookup_field(v->Obj_0@, "literal"@) is None)
            ||| (lookup_field(v->Obj_0@, "literal"@) matches Some(l) && l is Obj && ((field@
                == "kind"@ && str_field(l->Obj_0@, "kind"@) is None) || (field@ == "value"@
                && str_field(l->Obj_0@, "value"@) is None)))
        },
{
    let fields = match v {
        JsonValue::Obj(fields) => fields,
        _ => {
            return Err(DecodeError::MalformedDocument { context: ctx.to_owned() });
        },
    };
    let tag = match get_str(fields, "kind") {
        Some(tag) => tag,
        None => {
            return Err(
                DecodeError::MissingField { context: ctx.to_owned(), field: "kind".to_owned() },
            );
        },
    };
    if str_eq(tag.as_str(), "identifier") {
        match get_str(fields, "identifier") {
            Some(s) => Ok(Constant::Identifier { identifier: s.clone() }),
            None => Err(
                DecodeError::MissingField {
                    context: ctx.to_owned(),
                    field: "identifier".to_owned(),
                },
            ),
        }
    } else if str_eq(tag.as_str(), "literal") {
        match get_field(fields, "literal") {
            Some(l) => {
                let lit = decode_literal(l, ctx)?;
                Ok(Constant::Literal { literal: lit })
            },
            None => Err(
                DecodeError::MissingField { context: ctx.to_owned(), field: "literal".to_owned() },
            ),
        }
    } else {
        Err(DecodeError::UnknownVariant { context: ctx.to_owned(), tag: tag.clone() })
    }
}

/// The attribute a document node encodes, if any.
pub open spec fn attribute_of(v: JsonValue) -> Option<Attribute> {
    match v {
        JsonValue::Obj(fields) => match (
            lookup_field(fields@, "name"@),
            lookup_field(fields@, "value"@),
        ) {
            (Some(JsonValue::Str(n)), Some(JsonValue::Str(val))) => Some(
                Attribute { name: n, value: val },
            ),
            _ => None,
        },
        _ => None,
    }
}

/// Decode one attribute node.
pub fn decode_attribute(v: &JsonValue, ctx: &str) -> (r: Result<Attribute, DecodeError>)
    ensures
        r is Ok <==> attribute_of(*v) is Some,
        r matches Ok(a) ==> attribute_of(*v) == Some(a),
        r matches Err(e) ==> shape_error_in(e, ctx@),
        r matches Err(DecodeError::MalformedDocument { .. }) ==> !(*v is Obj),
        r matches Err(DecodeError::MissingField { field, .. }) ==> *v is Obj && ((field@ == "name"@
            && str_field(v->Obj_0@, "name"@) is None) || (field@ == "value"@ && str_field(
            v->Obj_0@,
            "value"@,
        ) is None)),
{
    let fields = match v {
        JsonValue::Obj(fields) => fields,
        _ => {
            return Err(DecodeError::MalformedDocument { context: ctx.to_owned() });
        },
    };
    let name = match get_str(fields, "name") {
        Some(n) => n,
        None => {
            return Err(
                DecodeError::MissingField { context: ctx.to_owned(), field: "name".to_owned() },
            );
        },
    };
    let value = match get_str(fields, "value") {
        Some(val) => val,
        None => {
            return Err(
                DecodeError::MissingField { context: ctx.to_owned(), field: "value".to_owned() },
            );
        },
    };
    Ok(Attribute { name: name.clone(), value: value.clone() })
}

/// The value under a node's `element_type` field sits below the node itself.
proof fn lemma_element_decreases(v: JsonValue)
    requires
        v is Obj,
        lookup_field(v->Obj_0@, "element_type"@) is Some,
    ensures
        decreases_to!(v => lookup_field(v->Obj_0@, "element_type"@)->0),
{
    let fields = v->Obj_0;
    lemma_lookup_is_element(fields@, "element_type"@);
    let et = lookup_field(fields@, "element_type"@)->0;
    let i = choose|i: int| 0 <= i < fields@.len() && fields@[i].1 == et;
    assert(decreases_to!(v => v->Obj_0));
    assert(decreases_to!(fields => fields@));
    assert(decreases_to!(fields@ => fields@[i]));
    assert(decreases_to!(fields@[i] => fields@[i].1));
    assert(decreases_to!(v => et));
}

/// The type a document node encodes, if any. `Array` and `Vector` nodes nest
/// the element type under `element_type`.
pub open spec fn type_of(v: JsonValue) -> Option<Type>
    decreases v,
    via type_of_decreases
{
    match v {
        JsonValue::Obj(fields) => match str_field(fields@, "kind"@) {
            Some(tag) => if tag == "array"@ {
                match (lookup_field(fields@, "element_type"@), u32_field(fields@, "element_count"@)) {
                    (Some(et), Some(n)) => match type_of(et) {
                        Some(t) => Some(Type::Array { element_type: Box::new(t), element_count: n }),
                        None => None,
                    },
                    _ => None,
                }
            } else if tag == "vector"@ {
                match (
                    lookup_field(fields@, "element_type"@),
                    bool_field(fields@, "nullable"@),
                    opt_u32_field(fields@, "maybe_element_count"@),
                ) {
                    (Some(et), Some(nl), Some(mec)) => match type_of(et) {
                        Some(t) => Some(
                            Type::Vector {
                                element_type: Box::new(t),
                                nullable: nl,
                                maybe_element_count: mec,
                            },
                        ),
                        None => None,
                    },
                    _ => None,
                }
            } else if tag == "string"@ {
                match (
                    bool_field(fields@, "nullable"@),
                    opt_u32_field(fields@, "maybe_element_count"@),
                ) {
                    (Some(nl), Some(mec)) => Some(
                        Type::Str { nullable: nl, maybe_element_count: mec },
                    ),
                    _ => None,
                }
            } else if tag == "handle"@ {
                match (str_field(fields@, "subtype"@), bool_field(fields@, "nullable"@)) {
                    (Some(st), Some(nl)) => match handle_subtype_of(st) {
                        Some(h) => Some(Type::Handle { subtype: h, nullable: nl }),
                        None => None,
                    },
                    _ => None,
                }
            } else if tag == "request"@ {
                match (lookup_field(fields@, "subtype"@), bool_field(fields@, "nullable"@)) {
                    (Some(JsonValue::Str(s)), Some(nl)) => Some(
                        Type::Request { subtype: s, nullable: nl },
                    ),
                    _ => None,
                }
            } else if tag == "primitive"@ {
                match lookup_field(fields@, "subtype"@) {
                    Some(JsonValue::Str(s)) => Some(Type::Primitive { subtype: s }),
                    _ => None,
                }
            } else if tag == "identifier"@ {
                match (lookup_field(fields@, "identifier"@), bool_field(fields@, "nullable"@)) {
                    (Some(JsonValue::Str(s)), Some(nl)) => Some(
                        Type::Identifier { identifier: s, nullable: nl },
                    ),
                    _ => None,
                }
            } else {
                None
            },
            None => None,
        },
        _ => None,
    }
}

#[via_fn]
proof fn type_of_decreases(v: JsonValue) {
    if v is Obj && lookup_field(v->Obj_0@, "element_type"@) is Some {
        lemma_element_decreases(v);
    }
}

/// Some node of a type tree (following `element_type` links) carries `tag` as
/// its `kind` or `subtype` token.
pub open spec fn type_tree_has_tag(v: JsonValue, tag: Seq<char>) -> bool
    decreases v,
    via type_tree_has_tag_decreases
{
    v matches JsonValue::Obj(fields) && {
        ||| str_field(fields@, "kind"@) == Some(tag)
        ||| str_field(fields@, "subtype"@) == Some(tag)
        ||| (lookup_field(fields@, "element_type"@) matches Some(et) && type_tree_has_tag(et, tag))
    }
}

#[via_fn]
proof fn type_tree_has_tag_decreases(v: JsonValue, tag: Seq<char>) {
    if v is Obj && lookup_field(v->Obj_0@, "element_type"@) is Some {
        lemma_element_decreases(v);
    }
}

/// Some node of a type tree is not an object, or carries an ill-shaped
/// optional element count.
pub open spec fn type_tree_malformed(v: JsonValue) -> bool
    decreases v,
    via type_tree_malformed_decreases
{
    ||| !(v is Obj)
    ||| (v matches JsonValue::Obj(fields) && {
        ||| opt_u32_field(fields@, "maybe_element_count"@) is None
        ||| (lookup_field(fields@, "element_type"@) matches Some(et) && type_tree_malformed(et))
    })
}

#[via_fn]
proof fn type_tree_malformed_decreases(v: JsonValue) {
    if v is Obj && lookup_field(v->Obj_0@, "element_type"@) is Some {
        lemma_element_decreases(v);
    }
}

/// Some node of a type tree lacks the required field `field`: absent, or not
/// of the shape its tag requires.
pub open spec fn type_tree_lacks(v: JsonValue, field: Seq<char>) -> bool
    decreases v,
    via type_tree_lacks_decreases
{
    v matches JsonValue::Obj(fields) && {
        ||| (field == "kind"@ && str_field(fields@, "kind"@) is None)
        ||| (field == "element_type"@ && lookup_field(fields@, "element_type"@) is None)
        ||| (field == "element_count"@ && u32_field(fields@, "element_count"@) is None)
        ||| (field == "nullable"@ && bool_field(fields@, "nullable"@) is None)
        ||| (field == "subtype"@ && str_field(fields@, "subtype"@) is None)
        ||| (field == "identifier"@ && str_field(fields@, "identifier"@) is None)
        ||| (lookup_field(fields@, "element_type"@) matches Some(et) && type_tree_lacks(et, field))
    }
}

#[via_fn]
proof fn type_tree_lacks_decreases(v: JsonValue, field: Seq<char>) {
    if v is Obj && lookup_field(v->Obj_0@, "element_type"@) is Some {
        lemma_element_decreases(v);
    }
}

/// Decode a type node, recursively.
pub fn decode_type(v: &JsonValue, ctx: &str) -> (r: Result<Type, DecodeError>)
    ensures
        r is Ok <==> type_of(*v) is Some,
        r matches Ok(t) ==> type_of(*v) == Some(t),
        r matches Err(e) ==> shape_error_in(e, ctx@),
        r matches Err(DecodeError::MalformedDocument { .. }) ==> type_tree_malformed(*v),
        r matches Err(DecodeError::UnknownVariant { tag, .. }) ==> type_tree_has_tag(*v, tag@),
        r matches Err(DecodeError::MissingField { field, .. }) ==> type_tree_lacks(*v, field@),
    decreases *v,
{
    let fields = match v {
        JsonValue::Obj(fields) => fields,
        _ => {
            return Err(DecodeError::MalformedDocument { context: ctx.to_owned() });
        },
    };
    let tag = match get_str(fields, "kind") {
        Some(tag) => tag,
        None => {
            return Err(
                DecodeError::MissingField { context: ctx.to_owned(), field: "kind".to_owned() },
            );
        },
    };
    if str_eq(tag.as_str(), "array") {
        let et = match get_field(fields, "element_type") {
            Some(et) => et,
            None => {
                return Err(
                    DecodeError::MissingField {
                        context: ctx.to_owned(),
                        field: "element_type".to_owned(),
                    },
                );
            },
        };
        let n = match get_u32(fields, "element_count") {
            Some(n) => n,
            None => {
                return Err(
                    DecodeError::MissingField {
                        context: ctx.to_owned(),
                        field: "element_count".to_owned(),
                    },
                );
            },
        };
        proof {
            lemma_lookup_is_element(fields@, "element_type"@);
            let i = choose|i: int| 0 <= i < fields@.len() && fields@[i].1 == *et;
            assert(decreases_to!(*v => v->Obj_0));
            assert(decreases_to!(*fields => fields@));
            assert(decreases_to!(fields@ => fields@[i]));
            assert(decreases_to!(fields@[i] => fields@[i].1));
            assert(decreases_to!(*v => *et));
        }
        let t = decode_type(et, ctx)?;
        Ok(Type::Array { element_type: Box::new(t), element_count: n })
    } else if str_eq(tag.as_str(), "vector") {
        let et = match get_field(fields, "element_type") {
            Some(et) => et,
            None => {
                return Err(
                    DecodeError::MissingField {
                        context: ctx.to_owned(),
                        field: "element_type".to_owned(),
                    },
                );
            },
        };
        let nl = match get_bool(fields, "nullable") {
            Some(nl) => nl,
            None => {
                return Err(
                    DecodeError::MissingField {
                        context: ctx.to_owned(),
                        field: "nullable".to_owned(),
                    },
                );
            },
        };
        let mec = match get_opt_u32(fields, "maybe_element_count") {
            Some(mec) => mec,
            None => {
                return Err(DecodeError::MalformedDocument { context: ctx.to_owned() });
            },
        };
        proof {
            lemma_lookup_is_element(fields@, "element_type"@);
            let i = choose|i: int| 0 <= i < fields@.len() && fields@[i].1 == *et;
            assert(decreases_to!(*v => v->Obj_0));
            assert(decreases_to!(*fields => fields@));
            assert(decreases_to!(fields@ => fields@[i]));
            assert(decreases_to!(fields@[i] => fields@[i].1));
            assert(decreases_to!(*v => *et));
        }
        let t = decode_type(et, ctx)?;
        Ok(Type::Vector { element_type: Box::new(t), nullable: nl, maybe_element_count: mec })
    } else if str_eq(tag.as_str(), "string") {
        let nl = match get_bool(fields, "nullable") {
            Some(nl) => nl,
            None => {
                return Err(
                    DecodeError::MissingField {
                        context: ctx.to_owned(),
                        field: "nullable".to_owned(),
                    },
                );
            },
        };
        let mec = match get_opt_u32(fields, "maybe_element_count") {
            Some(mec) => mec,
            None => {
                return Err(DecodeError::MalformedDocument { context: ctx.to_owned() });
            },
        };
        Ok(Type::Str { nullable: nl, maybe_element_count: mec })
    } else if str_eq(tag.as_str(), "handle") {
        let st = match get_str(fields, "subtype") {
            Some(st) => st,
            None => {
                return Err(
                    DecodeError::MissingField {
                        context: ctx.to_owned(),
                        field: "subtype".to_owned(),
                    },
                );
            },
        };
        let nl = match get_bool(fields, "nullable") {
            Some(nl) => nl,
            None => {
                return Err(
                    DecodeError::MissingField {
                        context: ctx.to_owned(),
                        field: "nullable".to_owned(),
                    },
                );
            },
        };
        match decode_handle_subtype(st.as_str()) {
            Some(h) => Ok(Type::Handle { subtype: h, nullable: nl }),
            None => Err(
                DecodeError::UnknownVariant { context: ctx.to_owned(), tag: st.clone() },
            ),
        }
    } else if str_eq(tag.as_str(), "request") {
        let s = match get_str(fields, "subtype") {
            Some(s) => s,
            None => {
                return Err(
                    DecodeError::MissingField {
                        context: ctx.to_owned(),
                        field: "subtype".to_owned(),
                    },
                );
            },
        };
        let nl = match get_bool(fields, "nullable") {
            Some(nl) => nl,
            None => {
                return Err(
                    DecodeError::MissingField {
                        context: ctx.to_owned(),
                        field: "nullable".to_owned(),
                    },
                );
            },
        };
        Ok(Type::Request { subtype: s.clone(), nullable: nl })
    } else if str_eq(tag.as_str(), "primitive") {
        let s = match get_str(fields, "subtype") {
            Some(s) => s,
            None => {
                return Err(
                    DecodeError::MissingField {
                        context: ctx.to_owned(),
                        field: "subtype".to_owned(),
                    },
                );
            },
        };
        Ok(Type::Primitive { subtype: s.clone() })
    } else if str_eq(tag.as_str(), "identifier") {
        let s = match get_str(fields, "identifier") {
            Some(s) => s,
            None => {
                return Err(
                    DecodeError::MissingField {
                        context: ctx.to_owned(),
                        field: "identifier".to_owned(),
                    },
                );
            },
        };
        let nl = match get_bool(fields, "nullable") {
            Some(nl) => nl,
            None => {
                return Err(
                    DecodeError::MissingField {
                        context: ctx.to_owned(),
                        field: "nullable".to_owned(),
                    },
                );
            },
        };
        Ok(Type::Identifier { identifier: s.clone(), nullable: nl })
    } else {
        Err(DecodeError::UnknownVariant { context: ctx.to_owned(), tag: tag.clone() })
    }
}

/// Whether the optional attribute list of an entity is well-shaped: absent or
/// null counts as empty, and every listed element must be an attribute.
pub open spec fn attrs_ok(fields: Seq<(String, JsonValue)>) -> bool {
    match lookup_field(fields, "maybe_attributes"@) {
        None => true,
        Some(JsonValue::Null) => true,
        Some(JsonValue::Arr(a)) => forall|i: int|
            0 <= i < a@.len() ==> attribute_of(#[trigger] a@[i]) is Some,
        Some(_) => false,
    }
}

/// The attribute list `attrs` is what the entity's `maybe_attributes` encodes.
pub open spec fn is_attrs_of(fields: Seq<(String, JsonValue)>, attrs: Seq<Attribute>) -> bool {
    match lookup_field(fields, "maybe_attributes"@) {
        None => attrs.len() == 0,
        Some(JsonValue::Null) => attrs.len() == 0,
        Some(JsonValue::Arr(a)) => attrs.len() == a@.len() && forall|i: int|
            0 <= i < a@.len() ==> attribute_of(#[trigger] a@[i]) == Some(attrs[i]),
        Some(_) => false,
    }
}

/// Decode an entity's optional attribute list.
pub fn decode_attributes(fields: &Vec<(String, JsonValue)>, ctx: &str) -> (r: Result<
    Vec<Attribute>,
    DecodeError,
>)
    ensures
        r is Ok <==> attrs_ok(fields@),
        r matches Ok(attrs) ==> is_attrs_of(fields@, attrs@),
        r matches Err(e) ==> shape_error_in(e, ctx@),
{
    let arr = match get_field(fields, "maybe_attributes") {
        None => {
            return Ok(Vec::new());
        },
        Some(JsonValue::Null) => {
            return Ok(Vec::new());
        },
        Some(JsonValue::Arr(a)) => a,
        Some(_) => {
            return Err(DecodeError::MalformedDocument { context: ctx.to_owned() });
        },
    };
    let mut attrs: Vec<Attribute> = Vec::new();
    let mut i: usize = 0;
    while i < arr.len()
        invariant
            0 <= i <= arr@.len(),
            lookup_field(fields@, "maybe_attributes"@) matches Some(av) && av == JsonValue::Arr(
                *arr,
            ),
            attrs@.len() == i,
            forall|j: int| 0 <= j < i ==> attribute_of(#[trigger] arr@[j]) == Some(attrs@[j]),
        decreases arr@.len() - i,
    {
        let a = decode_attribute(&arr[i], ctx)?;
        attrs.push(a);
        i = i + 1;
    }
    Ok(attrs)
}

/// Whether an optional string field is well-shaped.
pub open spec fn opt_str_ok(fields: Seq<(String, JsonValue)>, key: Seq<char>) -> bool {
    match lookup_field(fields, key) {
        None => true,
        Some(JsonValue::Null) => true,
        Some(JsonValue::Str(_)) => true,
        Some(_) => false,
    }
}

/// `os` is the value of the optional string field `key`.
pub open spec fn is_opt_str_of(
    fields: Seq<(String, JsonValue)>,
    key: Seq<char>,
    os: Option<String>,
) -> bool {
    match lookup_field(fields, key) {
        None => os is None,
        Some(JsonValue::Null) => os is None,
        Some(JsonValue::Str(s)) => os == Some(s),
        Some(_) => false,
    }
}

/// Decode an optional string field.
fn decode_opt_str(fields: &Vec<(String, JsonValue)>, key: &str, ctx: &str) -> (r: Result<
    Option<String>,
    DecodeError,
>)
    ensures
        r is Ok <==> opt_str_ok(fields@, key@),
        r matches Ok(os) ==> is_opt_str_of(fields@, key@, os),
        r matches Err(e) ==> shape_error_in(e, ctx@),
{
    match get_field(fields, key) {
        None => Ok(None),
        Some(JsonValue::Null) => Ok(None),
        Some(JsonValue::Str(s)) => Ok(Some(s.clone())),
        Some(_) => Err(DecodeError::MalformedDocument { context: ctx.to_owned() }),
    }
}

/// Whether an optional type field is well-shaped.
pub open spec fn opt_type_ok(fields: Seq<(String, JsonValue)>, key: Seq<char>) -> bool {
    match lookup_field(fields, key) {
        None => true,
        Some(JsonValue::Null) => true,
        Some(t) => type_of(t) is Some,
    }
}

/// `ot` is the value of the optional type field `key`.
pub open spec fn is_opt_type_of(
    fields: Seq<(String, JsonValue)>,
    key: Seq<char>,
    ot: Option<Type>,
) -> bool {
    match lookup_field(fields, key) {
        None => ot is None,
        Some(JsonValue::Null) => ot is None,
        Some(t) => ot matches Some(tt) && type_of(t) == Some(tt),
    }
}

/// Decode an optional type field.
fn decode_opt_type(fields: &Vec<(String, JsonValue)>, key: &str, ctx: &str) -> (r: Result<
    Option<Type>,
    DecodeError,
>)
    ensures
        r is Ok <==> opt_type_ok(fields@, key@),
        r matches Ok(ot) ==> is_opt_type_of(fields@, key@, ot),
        r matches Err(e) ==> shape_error_in(e, ctx@),
{
    match get_field(fields, key) {
        None => Ok(None),
        Some(JsonValue::Null) => Ok(None),
        Some(t) => {
            let tt = decode_type(t, ctx)?;
            Ok(Some(tt))
        },
    }
}

/// Whether an optional constant field is well-shaped.
pub open spec fn opt_constant_ok(fields: Seq<(String, JsonValue)>, key: Seq<char>) -> bool {
    match lookup_field(fields, key) {
        None => true,
        Some(JsonValue::Null) => true,
        Some(c) => constant_of(c) is Some,
    }
}

/// `oc` is the value of the optional constant field `key`.
pub open spec fn is_opt_constant_of(
    fields: Seq<(String, JsonValue)>,
    key: Seq<char>,
    oc: Option<Constant>,
) -> bool {
    match lookup_field(fields, key) {
        None => oc is None,
        Some(JsonValue::Null) => oc is None,
        Some(c) => oc matches Some(cc) && constant_of(c) == Some(cc),
    }
}

/// Decode an optional constant field.
fn decode_opt_constant(fields: &Vec<(String, JsonValue)>, key: &str, ctx: &str) -> (r: Result<
    Option<Constant>,
    DecodeError,
>)
    ensures
        r is Ok <==> opt_constant_ok(fields@, key@),
        r matches Ok(oc) ==> is_opt_constant_of(fields@, key@, oc),
        r matches Err(e) ==> shape_error_in(e, ctx@),
{
    match get_field(fields, key) {
        None => Ok(None),
        Some(JsonValue::Null) => Ok(None),
        Some(c) => {
            let cc = decode_constant(c, ctx)?;
            Ok(Some(cc))
        },
    }
}

/// Whether a document node is a well-shaped enum member.
pub open spec fn enum_member_ok(v: JsonValue) -> bool {
    &&& v is Obj
    &&& {
        let fs = v->Obj_0@;
        &&& str_field(fs, "name"@) is Some
        &&& (lookup_field(fs, "value"@) matches Some(c) && constant_of(c) is Some)
        &&& attrs_ok(fs)
    }
}

/// `m` is the enum member the node encodes.
pub open spec fn is_enum_member_of(v: JsonValue, m: EnumMember) -> bool {
    &&& enum_member_ok(v)
    &&& {
        let fs = v->Obj_0@;
        &&& lookup_field(fs, "name"@) == Some(JsonValue::Str(m.name))
        &&& (lookup_field(fs, "value"@) matches Some(c) && constant_of(c) == Some(m.value))
        &&& is_attrs_of(fs, m.attributes@)
    }
}

/// Decode one enum member; `ctx` names the enclosing enum.
pub fn decode_enum_member(v: &JsonValue, ctx: &str) -> (r: Result<EnumMember, DecodeError>)
    ensures
        r is Ok <==> enum_member_ok(*v),
        r matches Ok(m) ==> is_enum_member_of(*v, m),
        r matches Err(e) ==> shape_error(e),
        r matches Err(e) ==> shape_error_in(e, ctx@) || (str_field(v->Obj_0@, "name"@)
            matches Some(nm) && shape_error_in(e, nm)),
{
    let fields = match v {
        JsonValue::Obj(fields) => fields,
        _ => {
            return Err(DecodeError::MalformedDocument { context: ctx.to_owned() });
        },
    };
    let name = match get_str(fields, "name") {
        Some(n) => n,
        None => {
            return Err(
                DecodeError::MissingField { context: ctx.to_owned(), field: "name".to_owned() },
            );
        },
    };
    let value = match get_field(fields, "value") {
        Some(c) => decode_constant(c, name.as_str())?,
        None => {
            return Err(
                DecodeError::MissingField { context: ctx.to_owned(), field: "value".to_owned() },
            );
        },
    };
    let attributes = decode_attributes(fields, name.as_str())?;
    Ok(EnumMember { name: name.clone(), value, attributes })
}

/// Whether a document node is a well-shaped field-bearing member.
pub open spec fn field_member_ok(v: JsonValue) -> bool {
    &&& v is Obj
    &&& {
        let fs = v->Obj_0@;
        &&& str_field(fs, "name"@) is Some
        &&& (lookup_field(fs, "type"@) matches Some(t) && type_of(t) is Some)
        &&& u32_field(fs, "size"@) is Some
        &&& u32_field(fs, "alignment"@) is Some
        &&& u32_field(fs, "offset"@) is Some
        &&& u32_field(fs, "max_out_of_line"@) is Some
        &&& opt_constant_ok(fs, "maybe_default_value"@)
        &&& attrs_ok(fs)
    }
}

/// `m` is the field-bearing member the node encodes.
pub open spec fn is_field_member_of(v: JsonValue, m: FieldMember) -> bool {
    &&& field_member_ok(v)
    &&& {
        let fs = v->Obj_0@;
        &&& lookup_field(fs, "name"@) == Some(JsonValue::Str(m.name))
        &&& (lookup_field(fs, "type"@) matches Some(t) && type_of(t) == Some(m.ty))
        &&& u32_field(fs, "size"@) == Some(m.size)
        &&& u32_field(fs, "alignment"@) == Some(m.alignment)
        &&& u32_field(fs, "offset"@) == Some(m.offset)
        &&& u32_field(fs, "max_out_of_line"@) == Some(m.max_out_of_line)
        &&& is_opt_constant_of(fs, "maybe_default_value"@, m.maybe_default_value)
        &&& is_attrs_of(fs, m.attributes@)
    }
}

/// Decode one field-bearing member; `ctx` names the enclosing declaration.
pub fn decode_field_member(v: &JsonValue, ctx: &str) -> (r: Result<FieldMember, DecodeError>)
    ensures
        r is Ok <==> field_member_ok(*v),
        r matches Ok(m) ==> is_field_member_of(*v, m),
        r matches Err(e) ==> shape_error(e),
        r matches Err(e) ==> shape_error_in(e, ctx@) || (str_field(v->Obj_0@, "name"@)
            matches Some(nm) && shape_error_in(e, nm)),
{
    let fields = match v {
        JsonValue::Obj(fields) => fields,
        _ => {
            return Err(DecodeError::MalformedDocument { context: ctx.to_owned() });
        },
    };
    let name = match get_str(fields, "name") {
        Some(n) => n,
        None => {
            return Err(
                DecodeError::MissingField { context: ctx.to_owned(), field: "name".to_owned() },
            );
        },
    };
    let ty = match get_field(fields, "type") {
        Some(t) => decode_type(t, name.as_str())?,
        None => {
            return Err(
                DecodeError::MissingField { context: ctx.to_owned(), field: "type".to_owned() },
            );
        },
    };
    let size = match get_u32(fields, "size") {
        Some(n) => n,
        None => {
            return Err(
                DecodeError::MissingField { context: ctx.to_owned(), field: "size".to_owned() },
            );
        },
    };
    let alignment = match get_u32(fields, "alignment") {
        Some(n) => n,
        None => {
            return Err(
                DecodeError::MissingField {
                    context: ctx.to_owned(),
                    field: "alignment".to_owned(),
                },
            );
        },
    };
    let offset = match get_u32(fields, "offset") {
        Some(n) => n,
        None => {
            return Err(
                DecodeError::MissingField { context: ctx.to_owned(), field: "offset".to_owned() },
            );
        },
    };
    let max_out_of_line = match get_u32(fields, "max_out_of_line") {
        Some(n) => n,
        None => {
            return Err(
                DecodeError::MissingField {
                    context: ctx.to_owned(),
                    field: "max_out_of_line".to_owned(),
                },
            );
        },
    };
    let maybe_default_value = decode_opt_constant(fields, "maybe_default_value", name.as_str())?;
    let attributes = decode_attributes(fields, name.as_str())?;
    Ok(
        FieldMember {
            name: name.clone(),
            ty,
            size,
            alignment,
            offset,
            max_out_of_line,
            maybe_default_value,
            attributes,
        },
    )
}

/// Whether a document node is a well-shaped table member.
pub open spec fn table_member_ok(v: JsonValue) -> bool {
    &&& v is Obj
    &&& {
        let fs = v->Obj_0@;
        &&& bool_field(fs, "reserved"@) is Some
        &&& u64_field(fs, "ordinal"@) is Some
        &&& opt_str_ok(fs, "name"@)
        &&& opt_type_ok(fs, "type"@)
        &&& opt_u32_field(fs, "size"@) is Some
        &&& opt_u32_field(fs, "alignment"@) is Some
        &&& opt_u32_field(fs, "offset"@) is Some
        &&& opt_u32_field(fs, "max_out_of_line"@) is Some
        &&& opt_constant_ok(fs, "maybe_default_value"@)
    }
}

/// `m` is the table member the node encodes.
pub open spec fn is_table_member_of(v: JsonValue, m: TableMember) -> bool {
    &&& table_member_ok(v)
    &&& {
        let fs = v->Obj_0@;
        &&& bool_field(fs, "reserved"@) == Some(m.reserved)
        &&& u64_field(fs, "ordinal"@) == Some(m.ordinal)
        &&& is_opt_str_of(fs, "name"@, m.name)
        &&& is_opt_type_of(fs, "type"@, m.ty)
        &&& opt_u32_field(fs, "size"@) == Some(m.size)
        &&& opt_u32_field(fs, "alignment"@) == Some(m.alignment)
        &&& opt_u32_field(fs, "offset"@) == Some(m.offset)
        &&& opt_u32_field(fs, "max_out_of_line"@) == Some(m.max_out_of_line)
        &&& is_opt_constant_of(fs, "maybe_default_value"@, m.maybe_default_value)
    }
}

/// Decode one table member; `ctx` names the enclosing table. A reserved member
/// carries only its ordinal.
pub fn decode_table_member(v: &JsonValue, ctx: &str) -> (r: Result<TableMember, DecodeError>)
    ensures
        r is Ok <==> table_member_ok(*v),
        r matches Ok(m) ==> is_table_member_of(*v, m),
        r matches Err(e) ==> shape_error_in(e, ctx@),
{
    let fields = match v {
        JsonValue::Obj(fields) => fields,
        _ => {
            return Err(DecodeError::MalformedDocument { context: ctx.to_owned() });
        },
    };
    let reserved = match get_bool(fields, "reserved") {
        Some(b) => b,
        None => {
            return Err(
                DecodeError::MissingField { context: ctx.to_owned(), field: "reserved".to_owned() },
            );
        },
    };
    let ordinal = match get_u64(fields, "ordinal") {
        Some(n) => n,
        None => {
            return Err(
                DecodeError::MissingField { context: ctx.to_owned(), field: "ordinal".to_owned() },
            );
        },
    };
    let name = decode_opt_str(fields, "name", ctx)?;
    let ty = decode_opt_type(fields, "type", ctx)?;
    let size = match get_opt_u32(fields, "size") {
        Some(o) => o,
        None => {
            return Err(DecodeError::MalformedDocument { context: ctx.to_owned() });
        },
    };
    let alignment = match get_opt_u32(fields, "alignment") {
        Some(o) => o,
        None => {
            return Err(DecodeError::MalformedDocument { context: ctx.to_owned() });
        },
    };
    let offset = match get_opt_u32(fields, "offset") {
        Some(o) => o,
        None => {
            return Err(DecodeError::MalformedDocument { context: ctx.to_owned() });
        },
    };
    let max_out_of_line = match get_opt_u32(fields, "max_out_of_line") {
        Some(o) => o,
        None => {
            return Err(DecodeError::MalformedDocument { context: ctx.to_owned() });
        },
    };
    let maybe_default_value = decode_opt_constant(fields, "maybe_default_value", ctx)?;
    Ok(
        TableMember {
            reserved,
            ordinal,
            name,
            ty,
            size,
            alignment,
            offset,
            max_out_of_line,
            maybe_default_value,
        },
    )
}

/// Every element of `a` is a well-shaped enum member.
pub open spec fn all_enum_members_ok(a: Seq<JsonValue>) -> bool {
    forall|i: int| 0 <= i < a.len() ==> enum_member_ok(#[trigger] a[i])
}

/// Every element of `a` is a well-shaped field-bearing member.
pub open spec fn all_field_members_ok(a: Seq<JsonValue>) -> bool {
    forall|i: int| 0 <= i < a.len() ==> field_member_ok(#[trigger] a[i])
}

/// Every element of `a` is a well-shaped table member.
pub open spec fn all_table_members_ok(a: Seq<JsonValue>) -> bool {
    forall|i: int| 0 <= i < a.len() ==> table_member_ok(#[trigger] a[i])
}

/// Whether a document node is a well-shaped `const` declaration.
pub open spec fn const_decl_ok(v: JsonValue) -> bool {
    &&& v is Obj
    &&& {
        let fs = v->Obj_0@;
        &&& str_field(fs, "name"@) is Some
        &&& (lookup_field(fs, "type"@) matches Some(t) && type_of(t) is Some)
        &&& (lookup_field(fs, "value"@) matches Some(c) && constant_of(c) is Some)
        &&& attrs_ok(fs)
    }
}

/// `d` is the `const` declaration the node encodes.
pub open spec fn is_const_decl_of(v: JsonValue, d: ConstDecl) -> bool {
    &&& const_decl_ok(v)
    &&& {
        let fs = v->Obj_0@;
        &&& lookup_field(fs, "name"@) == Some(JsonValue::Str(d.name))
        &&& (lookup_field(fs, "type"@) matches Some(t) && type_of(t) == Some(d.ty))
        &&& (lookup_field(fs, "value"@) matches Some(c) && constant_of(c) == Some(d.value))
        &&& is_attrs_of(fs, d.attributes@)
    }
}

/// Decode one `const` declaration; `ctx` names the enclosing list.
pub fn decode_const_decl(v: &JsonValue, ctx: &str) -> (r: Result<ConstDecl, DecodeError>)
    ensures
        r is Ok <==> const_decl_ok(*v),
        r matches Ok(d) ==> is_const_decl_of(*v, d),
        r matches Err(e) ==> shape_error(e),
        r matches Err(e) ==> shape_error_in(e, ctx@) || (str_field(v->Obj_0@, "name"@)
            matches Some(nm) && shape_error_in(e, nm)),
{
    let fields = match v {
        JsonValue::Obj(fields) => fields,
        _ => {
            return Err(DecodeError::MalformedDocument { context: ctx.to_owned() });
        },
    };
    let name = match get_str(fields, "name") {
        Some(n) => n,
        None => {
            return Err(
                DecodeError::MissingField { context: ctx.to_owned(), field: "name".to_owned() },
            );
        },
    };
    let ty = match get_field(fields, "type") {
        Some(t) => decode_type(t, name.as_str())?,
        None => {
            return Err(
                DecodeError::MissingField { context: ctx.to_owned(), field: "type".to_owned() },
            );
        },
    };
    let value = match get_field(fields, "value") {
        Some(c) => decode_constant(c, name.as_str())?,
        None => {
            return Err(
                DecodeError::MissingField { context: ctx.to_owned(), field: "value".to_owned() },
            );
        },
    };
    let attributes = decode_attributes(fields, name.as_str())?;
    Ok(ConstDecl { name: name.clone(), ty, value, attributes })
}

/// Whether a document node is a well-shaped `enum` declaration.
pub open spec fn enum_decl_ok(v: JsonValue) -> bool {
    &&& v is Obj
    &&& {
        let fs = v->Obj_0@;
        &&& str_field(fs, "name"@) is Some
        &&& str_field(fs, "type"@) is Some
        &&& (arr_field(fs, "members"@) matches Some(a) && all_enum_members_ok(a))
        &&& attrs_ok(fs)
    }
}

/// `d` is the `enum` declaration the node encodes.
pub open spec fn is_enum_decl_of(v: JsonValue, d: EnumDecl) -> bool {
    &&& enum_decl_ok(v)
    &&& {
        let fs = v->Obj_0@;
        &&& lookup_field(fs, "name"@) == Some(JsonValue::Str(d.name))
        &&& lookup_field(fs, "type"@) == Some(JsonValue::Str(d.ty))
        &&& (arr_field(fs, "members"@) matches Some(a) && d.members@.len() == a.len() && forall|
            i: int,
        |
            0 <= i < a.len() ==> is_enum_member_of(#[trigger] a[i], d.members@[i]))
        &&& is_attrs_of(fs, d.attributes@)
    }
}

/// Decode one `enum` declaration.
#[verifier::loop_isolation(false)]
pub fn decode_enum_decl(v: &JsonValue, ctx: &str) -> (r: Result<EnumDecl, DecodeError>)
    ensures
        r is Ok <==> enum_decl_ok(*v),
        r matches Ok(d) ==> is_enum_decl_of(*v, d),
        r matches Err(e) ==> shape_error(e),
{
    let fields = match v {
        JsonValue::Obj(fields) => fields,
        _ => {
            return Err(DecodeError::MalformedDocument { context: ctx.to_owned() });
        },
    };
    let name = match get_str(fields, "name") {
        Some(n) => n,
        None => {
            return Err(
                DecodeError::MissingField { context: ctx.to_owned(), field: "name".to_owned() },
            );
        },
    };
    let ty = match get_str(fields, "type") {
        Some(t) => t,
        None => {
            return Err(
                DecodeError::MissingField { context: ctx.to_owned(), field: "type".to_owned() },
            );
        },
    };
    let arr = match get_arr(fields, "members") {
        Some(a) => a,
        None => {
            return Err(
                DecodeError::MissingField { context: ctx.to_owned(), field: "members".to_owned() },
            );
        },
    };
    let mut members: Vec<EnumMember> = Vec::new();
    let mut i: usize = 0;
    while i < arr.len()
        invariant
            0 <= i <= arr@.len(),
            arr_field(fields@, "members"@) == Some(arr@),
            members@.len() == i,
            forall|j: int| 0 <= j < i ==> is_enum_member_of(#[trigger] arr@[j], members@[j]),
        decreases arr@.len() - i,
    {
        let m = match decode_enum_member(&arr[i], name.as_str()) {
            Ok(m) => m,
            Err(e) => {
                proof {
                    assert(!all_enum_members_ok(arr@)) by {
                        assert(0 <= i < arr@.len());
                        assert(!enum_member_ok(arr@[i as int]));
                    }
                }
                return Err(e);
            },
        };
        members.push(m);
        i = i + 1;
    }
    let attributes = decode_attributes(fields, name.as_str())?;
    Ok(EnumDecl { name: name.clone(), ty: ty.clone(), members, attributes })
}

/// Whether a document node is a well-shaped `struct` declaration.
pub open spec fn struct_decl_ok(v: JsonValue) -> bool {
    &&& v is Obj
    &&& {
        let fs = v->Obj_0@;
        &&& str_field(fs, "name"@) is Some
        &&& (arr_field(fs, "members"@) matches Some(a) && all_field_members_ok(a))
        &&& u32_field(fs, "size"@) is Some
        &&& u32_field(fs, "max_out_of_line"@) is Some
        &&& opt_u32_field(fs, "max_handles"@) is Some
        &&& opt_bool_field(fs, "anonymous"@) is Some
        &&& attrs_ok(fs)
    }
}

/// `d` is the `struct` declaration the node encodes.
pub open spec fn is_struct_decl_of(v: JsonValue, d: StructDecl) -> bool {
    &&& struct_decl_ok(v)
    &&& {
        let fs = v->Obj_0@;
        &&& lookup_field(fs, "name"@) == Some(JsonValue::Str(d.name))
        &&& (arr_field(fs, "members"@) matches Some(a) && d.members@.len() == a.len() && forall|
            i: int,
        |
            0 <= i < a.len() ==> is_field_member_of(#[trigger] a[i], d.members@[i]))
        &&& u32_field(fs, "size"@) == Some(d.size)
        &&& u32_field(fs, "max_out_of_line"@) == Some(d.max_out_of_line)
        &&& opt_u32_field(fs, "max_handles"@) == Some(d.max_handles)
        &&& opt_bool_field(fs, "anonymous"@) == Some(d.anonymous)
        &&& is_attrs_of(fs, d.attributes@)
    }
}

/// Decode one `struct` declaration.
#[verifier::loop_isolation(false)]
pub fn decode_struct_decl(v: &JsonValue, ctx: &str) -> (r: Result<StructDecl, DecodeError>)
    ensures
        r is Ok <==> struct_decl_ok(*v),
        r matches Ok(d) ==> is_struct_decl_of(*v, d),
        r matches Err(e) ==> shape_error(e),
{
    let fields = match v {
        JsonValue::Obj(fields) => fields,
        _ => {
            return Err(DecodeError::MalformedDocument { context: ctx.to_owned() });
        },
    };
    let name = match get_str(fields, "name") {
        Some(n) => n,
        None => {
            return Err(
                DecodeError::MissingField { context: ctx.to_owned(), field: "name".to_owned() },
            );
        },
    };
    let arr = match get_arr(fields, "members") {
        Some(a) => a,
        None => {
            return Err(
                DecodeError::MissingField { context: ctx.to_owned(), field: "members".to_owned() },
            );
        },
    };
    let mut members: Vec<FieldMember> = Vec::new();
    let mut i: usize = 0;
    while i < arr.len()
        invariant
            0 <= i <= arr@.len(),
            arr_field(fields@, "members"@) == Some(arr@),
            members@.len() == i,
            forall|j: int| 0 <= j < i ==> is_field_member_of(#[trigger] arr@[j], members@[j]),
        decreases arr@.len() - i,
    {
        let m = match decode_field_member(&arr[i], name.as_str()) {
            Ok(m) => m,
            Err(e) => {
                proof {
                    assert(!all_field_members_ok(arr@)) by {
                        assert(0 <= i < arr@.len());
                        assert(!field_member_ok(arr@[i as int]));
                    }
                }
                return Err(e);
            },
        };
        members.push(m);
        i = i + 1;
    }
    let size = match get_u32(fields, "size") {
        Some(n) => n,
        None => {
            return Err(
                DecodeError::MissingField { context: ctx.to_owned(), field: "size".to_owned() },
            );
        },
    };
    let max_out_of_line = match get_u32(fields, "max_out_of_line") {
        Some(n) => n,
        None => {
            return Err(
                DecodeError::MissingField {
                    context: ctx.to_owned(),
                    field: "max_out_of_line".to_owned(),
                },
            );
        },
    };
    let max_handles = match get_opt_u32(fields, "max_handles") {
        Some(o) => o,
        None => {
            return Err(DecodeError::MalformedDocument { context: ctx.to_owned() });
        },
    };
    let anonymous = match get_opt_bool(fields, "anonymous") {
        Some(o) => o,
        None => {
            return Err(DecodeError::MalformedDocument { context: ctx.to_owned() });
        },
    };
    let attributes = decode_attributes(fields, name.as_str())?;
    Ok(
        StructDecl {
            name: name.clone(),
            members,
            size,
            max_out_of_line,
            max_handles,
            anonymous,
            attributes,
        },
    )
}

/// Whether a document node is a well-shaped `table` declaration.
pub open spec fn table_decl_ok(v: JsonValue) -> bool {
    &&& v is Obj
    &&& {
        let fs = v->Obj_0@;
        &&& str_field(fs, "name"@) is Some
        &&& (arr_field(fs, "members"@) matches Some(a) && all_table_members_ok(a))
        &&& u32_field(fs, "size"@) is Some
        &&& u32_field(fs, "max_out_of_line"@) is Some
        &&& attrs_ok(fs)
    }
}

/// `d` is the `table` declaration the node encodes.
pub open spec fn is_table_decl_of(v: JsonValue, d: TableDecl) -> bool {
    &&& table_decl_ok(v)
    &&& {
        let fs = v->Obj_0@;
        &&& lookup_field(fs, "name"@) == Some(JsonValue::Str(d.name))
        &&& (arr_field(fs, "members"@) matches Some(a) && d.members@.len() == a.len() && forall|
            i: int,
        |
            0 <= i < a.len() ==> is_table_member_of(#[trigger] a[i], d.members@[i]))
        &&& u32_field(fs, "size"@) == Some(d.size)
        &&& u32_field(fs, "max_out_of_line"@) == Some(d.max_out_of_line)
        &&& is_attrs_of(fs, d.attributes@)
    }
}

/// Decode one `table` declaration.
#[verifier::loop_isolation(false)]
pub fn decode_table_decl(v: &JsonValue, ctx: &str) -> (r: Result<TableDecl, DecodeError>)
    ensures
        r is Ok <==> table_decl_ok(*v),
        r matches Ok(d) ==> is_table_decl_of(*v, d),
        r matches Err(e) ==> shape_error(e),
{
    let fields = match v {
        JsonValue::Obj(fields) => fields,
        _ => {
            return Err(DecodeError::MalformedDocument { context: ctx.to_owned() });
        },
    };
    let name = match get_str(fields, "name") {
        Some(n) => n,
        None => {
            return Err(
                DecodeError::MissingField { context: ctx.to_owned(), field: "name".to_owned() },
            );
        },
    };
    let arr = match get_arr(fields, "members") {
        Some(a) => a,
        None => {
            return Err(
                DecodeError::MissingField { context: ctx.to_owned(), field: "members".to_owned() },
            );
        },
    };
    let mut members: Vec<TableMember> = Vec::new();
    let mut i: usize = 0;
    while i < arr.len()
        invariant
            0 <= i <= arr@.len(),
            arr_field(fields@, "members"@) == Some(arr@),
            members@.len() == i,
            forall|j: int| 0 <= j < i ==> is_table_member_of(#[trigger] arr@[j], members@[j]),
        decreases arr@.len() - i,
    {
        let m = match decode_table_member(&arr[i], name.as_str()) {
            Ok(m) => m,
            Err(e) => {
                proof {
                    assert(!all_table_members_ok(arr@)) by {
                        assert(0 <= i < arr@.len());
                        assert(!table_member_ok(arr@[i as int]));
                    }
                }
                return Err(e);
            },
        };
        members.push(m);
        i = i + 1;
    }
    let size = match get_u32(fields, "size") {
        Some(n) => n,
        None => {
            return Err(
                DecodeError::MissingField { context: ctx.to_owned(), field: "size".to_owned() },
            );
        },
    };
    let max_out_of_line = match get_u32(fields, "max_out_of_line") {
        Some(n) => n,
        None => {
            return Err(
                DecodeError::MissingField {
                    context: ctx.to_owned(),
                    field: "max_out_of_line".to_owned(),
                },
            );
        },
    };
    let attributes = decode_attributes(fields, name.as_str())?;
    Ok(TableDecl { name: name.clone(), members, size, max_out_of_line, attributes })
}

/// Whether a document node is a well-shaped `union` declaration.
pub open spec fn union_decl_ok(v: JsonValue) -> bool {
    &&& v is Obj
    &&& {
        let fs = v->Obj_0@;
        &&& str_field(fs, "name"@) is Some
        &&& (arr_field(fs, "members"@) matches Some(a) && all_field_members_ok(a))
        &&& u32_field(fs, "size"@) is Some
        &&& u32_field(fs, "alignment"@) is Some
        &&& u32_field(fs, "max_out_of_line"@) is Some
        &&& opt_u32_field(fs, "max_handles"@) is Some
        &&& attrs_ok(fs)
    }
}

/// `d` is the `union` declaration the node encodes.
pub open spec fn is_union_decl_of(v: JsonValue, d: UnionDecl) -> bool {
    &&& union_decl_ok(v)
    &&& {
        let fs = v->Obj_0@;
        &&& lookup_field(fs, "name"@) == Some(JsonValue::Str(d.name))
        &&& (arr_field(fs, "members"@) matches Some(a) && d.members@.len() == a.len() && forall|
            i: int,
        |
            0 <= i < a.len() ==> is_field_member_of(#[trigger] a[i], d.members@[i]))
        &&& u32_field(fs, "size"@) == Some(d.size)
        &&& u32_field(fs, "alignment"@) == Some(d.alignment)
        &&& u32_field(fs, "max_out_of_line"@) == Some(d.max_out_of_line)
        &&& opt_u32_field(fs, "max_handles"@) == Some(d.max_handles)
        &&& is_attrs_of(fs, d.attributes@)
    }
}

/// Decode one `union` declaration.
#[verifier::loop_isolation(false)]
pub fn decode_union_decl(v: &JsonValue, ctx: &str) -> (r: Result<UnionDecl, DecodeError>)
    ensures
        r is Ok <==> union_decl_ok(*v),
        r matches Ok(d) ==> is_union_decl_of(*v, d),
        r matches Err(e) ==> shape_error(e),
{
    let fields = match v {
        JsonValue::Obj(fields) => fields,
        _ => {
            return Err(DecodeError::MalformedDocument { context: ctx.to_owned() });
        },
    };
    let name = match get_str(fields, "name") {
        Some(n) => n,
        None => {
            return Err(
                DecodeError::MissingField { context: ctx.to_owned(), field: "name".to_owned() },
            );
        },
    };
    let arr = match get_arr(fields, "members") {
        Some(a) => a,
        None => {
            return Err(
                DecodeError::MissingField { context: ctx.to_owned(), field: "members".to_owned() },
            );
        },
    };
    let mut members: Vec<FieldMember> = Vec::new();
    let mut i: usize = 0;
    while i < arr.len()
        invariant
            0 <= i <= arr@.len(),
            arr_field(fields@, "members"@) == Some(arr@),
            members@.len() == i,
            forall|j: int| 0 <= j < i ==> is_field_member_of(#[trigger] arr@[j], members@[j]),
        decreases arr@.len() - i,
    {
        let m = match decode_field_member(&arr[i], name.as_str()) {
            Ok(m) => m,
            Err(e) => {
                proof {
                    assert(!all_field_members_ok(arr@)) by {
                        assert(0 <= i < arr@.len());
                        assert(!field_member_ok(arr@[i as int]));
                    }
                }
                return Err(e);
            },
        };
        members.push(m);
        i = i + 1;
    }
    let size = match get_u32(fields, "size") {
        Some(n) => n,
        None => {
            return Err(
                DecodeError::MissingField { context: ctx.to_owned(), field: "size".to_owned() },
            );
        },
    };
    let alignment = match get_u32(fields, "alignment") {
        Some(n) => n,
        None => {
            return Err(
                DecodeError::MissingField {
                    context: ctx.to_owned(),
                    field: "alignment".to_owned(),
                },
            );
        },
    };
    let max_out_of_line = match get_u32(fields, "max_out_of_line") {
        Some(n) => n,
        None => {
            return Err(
                DecodeError::MissingField {
                    context: ctx.to_owned(),
                    field: "max_out_of_line".to_owned(),
                },
            );
        },
    };
    let max_handles = match get_opt_u32(fields, "max_handles") {
        Some(o) => o,
        None => {
            return Err(DecodeError::MalformedDocument { context: ctx.to_owned() });
        },
    };
    let attributes = decode_attributes(fields, name.as_str())?;
    Ok(
        UnionDecl {
            name: name.clone(),
            members,
            size,
            alignment,
            max_out_of_line,
            max_handles,
            attributes,
        },
    )
}

/// Whether a document node is a well-shaped extensible-union declaration.
pub open spec fn xunion_decl_ok(v: JsonValue) -> bool {
    &&& v is Obj
    &&& {
        let fs = v->Obj_0@;
        &&& str_field(fs, "name"@) is Some
        &&& attrs_ok(fs)
    }
}

/// `d` is the extensible-union declaration the node encodes.
pub open spec fn is_xunion_decl_of(v: JsonValue, d: XUnionDecl) -> bool {
    &&& xunion_decl_ok(v)
    &&& {
        let fs = v->Obj_0@;
        &&& lookup_field(fs, "name"@) == Some(JsonValue::Str(d.name))
        &&& is_attrs_of(fs, d.attributes@)
    }
}

/// Decode one extensible-union declaration.
pub fn decode_xunion_decl(v: &JsonValue, ctx: &str) -> (r: Result<XUnionDecl, DecodeError>)
    ensures
        r is Ok <==> xunion_decl_ok(*v),
        r matches Ok(d) ==> is_xunion_decl_of(*v, d),
        r matches Err(e) ==> shape_error(e),
        r matches Err(e) ==> shape_error_in(e, ctx@) || (str_field(v->Obj_0@, "name"@)
            matches Some(nm) && shape_error_in(e, nm)),
{
    let fields = match v {
        JsonValue::Obj(fields) => fields,
        _ => {
            return Err(DecodeError::MalformedDocument { context: ctx.to_owned() });
        },
    };
    let name = match get_str(fields, "name") {
        Some(n) => n,
        None => {
            return Err(
                DecodeError::MissingField { context: ctx.to_owned(), field: "name".to_owned() },
            );
        },
    };
    let attributes = decode_attributes(fields, name.as_str())?;
    Ok(XUnionDecl { name: name.clone(), attributes })
}

/// `ms` is what `a` encodes, element by element.
pub open spec fn are_field_members_of(a: Seq<JsonValue>, ms: Seq<FieldMember>) -> bool {
    ms.len() == a.len() && forall|i: int|
        0 <= i < a.len() ==> is_field_member_of(#[trigger] a[i], ms[i])
}

/// Whether an optional member-list field is well-shaped.
pub open spec fn opt_members_ok(fields: Seq<(String, JsonValue)>, key: Seq<char>) -> bool {
    match lookup_field(fields, key) {
        None => true,
        Some(JsonValue::Null) => true,
        Some(JsonValue::Arr(a)) => all_field_members_ok(a@),
        Some(_) => false,
    }
}

/// `om` is the value of the optional member-list field `key`.
pub open spec fn is_opt_members_of(
    fields: Seq<(String, JsonValue)>,
    key: Seq<char>,
    om: Option<Vec<FieldMember>>,
) -> bool {
    match lookup_field(fields, key) {
        None => om is None,
        Some(JsonValue::Null) => om is None,
        Some(JsonValue::Arr(a)) => om matches Some(ms) && are_field_members_of(a@, ms@),
        Some(_) => false,
    }
}

/// Decode an optional member-list field (a method's request or response).
#[verifier::loop_isolation(false)]
fn decode_opt_members(fields: &Vec<(String, JsonValue)>, key: &str, ctx: &str) -> (r: Result<
    Option<Vec<FieldMember>>,
    DecodeError,
>)
    ensures
        r is Ok <==> opt_members_ok(fields@, key@),
        r matches Ok(om) ==> is_opt_members_of(fields@, key@, om),
        r matches Err(e) ==> shape_error(e),
{
    let arr = match get_field(fields, key) {
        None => {
            return Ok(None);
        },
        Some(JsonValue::Null) => {
            return Ok(None);
        },
        Some(JsonValue::Arr(a)) => a,
        Some(_) => {
            return Err(DecodeError::MalformedDocument { context: ctx.to_owned() });
        },
    };
    let mut members: Vec<FieldMember> = Vec::new();
    let mut i: usize = 0;
    while i < arr.len()
        invariant
            0 <= i <= arr@.len(),
            lookup_field(fields@, key@) == Some(JsonValue::Arr(*arr)),
            members@.len() == i,
            forall|j: int| 0 <= j < i ==> is_field_member_of(#[trigger] arr@[j], members@[j]),
        decreases arr@.len() - i,
    {
        let m = match decode_field_member(&arr[i], ctx) {
            Ok(m) => m,
            Err(e) => {
                proof {
                    assert(!all_field_members_ok(arr@)) by {
                        assert(0 <= i < arr@.len());
                        assert(!field_member_ok(arr@[i as int]));
                    }
                }
                return Err(e);
            },
        };
        members.push(m);
        i = i + 1;
    }
    Ok(Some(members))
}

/// Whether a document node is a well-shaped protocol method.
pub open spec fn method_ok(v: JsonValue) -> bool {
    &&& v is Obj
    &&& {
        let fs = v->Obj_0@;
        &&& str_field(fs, "name"@) is Some
        &&& u64_field(fs, "ordinal"@) is Some
        &&& u64_field(fs, "generated_ordinal"@) is Some
        &&& bool_field(fs, "has_request"@) is Some
        &&& opt_members_ok(fs, "maybe_request"@)
        &&& opt_u32_field(fs, "maybe_request_size"@) is Some
        &&& opt_u32_field(fs, "maybe_request_alignment"@) is Some
        &&& bool_field(fs, "has_response"@) is Some
        &&& opt_members_ok(fs, "maybe_response"@)
        &&& opt_u32_field(fs, "maybe_response_size"@) is Some
        &&& opt_u32_field(fs, "maybe_response_alignment"@) is Some
        &&& attrs_ok(fs)
    }
}

/// `m` is the protocol method the node encodes.
pub open spec fn is_method_of(v: JsonValue, m: Method) -> bool {
    &&& method_ok(v)
    &&& {
        let fs = v->Obj_0@;
        &&& lookup_field(fs, "name"@) == Some(JsonValue::Str(m.name))
        &&& u64_field(fs, "ordinal"@) == Some(m.ordinal)
        &&& u64_field(fs, "generated_ordinal"@) == Some(m.generated_ordinal)
        &&& bool_field(fs, "has_request"@) == Some(m.has_request)
        &&& is_opt_members_of(fs, "maybe_request"@, m.maybe_request)
        &&& opt_u32_field(fs, "maybe_request_size"@) == Some(m.maybe_request_size)
        &&& opt_u32_field(fs, "maybe_request_alignment"@) == Some(m.maybe_request_alignment)
        &&& bool_field(fs, "has_response"@) == Some(m.has_response)
        &&& is_opt_members_of(fs, "maybe_response"@, m.maybe_response)
        &&& opt_u32_field(fs, "maybe_response_size"@) == Some(m.maybe_response_size)
        &&& opt_u32_field(fs, "maybe_response_alignment"@) == Some(m.maybe_response_alignment)
        &&& is_attrs_of(fs, m.attributes@)
    }
}

/// Decode one protocol method; `ctx` names the enclosing protocol.
pub fn decode_method(v: &JsonValue, ctx: &str) -> (r: Result<Method, DecodeError>)
    ensures
        r is Ok <==> method_ok(*v),
        r matches Ok(m) ==> is_method_of(*v, m),
        r matches Err(e) ==> shape_error(e),
{
    let fields = match v {
        JsonValue::Obj(fields) => fields,
        _ => {
            return Err(DecodeError::MalformedDocument { context: ctx.to_owned() });
        },
    };
    let name = match get_str(fields, "name") {
        Some(n) => n,
        None => {
            return Err(
                DecodeError::MissingField { context: ctx.to_owned(), field: "name".to_owned() },
            );
        },
    };
    let ordinal = match get_u64(fields, "ordinal") {
        Some(n) => n,
        None => {
            return Err(
                DecodeError::MissingField { context: ctx.to_owned(), field: "ordinal".to_owned() },
            );
        },
    };
    let generated_ordinal = match get_u64(fields, "generated_ordinal") {
        Some(n) => n,
        None => {
            return Err(
                DecodeError::MissingField {
                    context: ctx.to_owned(),
                    field: "generated_ordinal".to_owned(),
                },
            );
        },
    };
    let has_request = match get_bool(fields, "has_request") {
        Some(b) => b,
        None => {
            return Err(
                DecodeError::MissingField {
                    context: ctx.to_owned(),
                    field: "has_request".to_owned(),
                },
            );
        },
    };
    let maybe_request = decode_opt_members(fields, "maybe_request", name.as_str())?;
    let maybe_request_size = match get_opt_u32(fields, "maybe_request_size") {
        Some(o) => o,
        None => {
            return Err(DecodeError::MalformedDocument { context: ctx.to_owned() });
        },
    };
    let maybe_request_alignment = match get_opt_u32(fields, "maybe_request_alignment") {
        Some(o) => o,
        None => {
            return Err(DecodeError::MalformedDocument { context: ctx.to_owned() });
        },
    };
    let has_response = match get_bool(fields, "has_response") {
        Some(b) => b,
        None => {
            return Err(
                DecodeError::MissingField {
                    context: ctx.to_owned(),
                    field: "has_response".to_owned(),
                },
            );
        },
    };
    let maybe_response = decode_opt_members(fields, "maybe_response", name.as_str())?;
    let maybe_response_size = match get_opt_u32(fields, "maybe_response_size") {
        Some(o) => o,
        None => {
            return Err(DecodeError::MalformedDocument { context: ctx.to_owned() });
        },
    };
    let maybe_response_alignment = match get_opt_u32(fields, "maybe_response_alignment") {
        Some(o) => o,
        None => {
            return Err(DecodeError::MalformedDocument { context: ctx.to_owned() });
        },
    };
    let attributes = decode_attributes(fields, name.as_str())?;
    Ok(
        Method {
            name: name.clone(),
            ordinal,
            generated_ordinal,
            has_request,
            maybe_request,
            maybe_request_size,
            maybe_request_alignment,
            has_response,
            maybe_response,
            maybe_response_size,
            maybe_response_alignment,
            attributes,
        },
    )
}

/// Every element of `a` is a well-shaped method.
pub open spec fn all_methods_ok(a: Seq<JsonValue>) -> bool {
    forall|i: int| 0 <= i < a.len() ==> method_ok(#[trigger] a[i])
}

/// Whether a document node is a well-shaped protocol declaration.
pub open spec fn protocol_decl_ok(v: JsonValue) -> bool {
    &&& v is Obj
    &&& {
        let fs = v->Obj_0@;
        &&& str_field(fs, "name"@) is Some
        &&& (arr_field(fs, "methods"@) matches Some(a) && all_methods_ok(a))
        &&& attrs_ok(fs)
    }
}

/// `d` is the protocol declaration the node encodes.
pub open spec fn is_protocol_decl_of(v: JsonValue, d: ProtocolDecl) -> bool {
    &&& protocol_decl_ok(v)
    &&& {
        let fs = v->Obj_0@;
        &&& lookup_field(fs, "name"@) == Some(JsonValue::Str(d.name))
        &&& (arr_field(fs, "methods"@) matches Some(a) && d.methods@.len() == a.len() && forall|
            i: int,
        |
            0 <= i < a.len() ==> is_method_of(#[trigger] a[i], d.methods@[i]))
        &&& is_attrs_of(fs, d.attributes@)
    }
}

/// Decode one protocol declaration.
#[verifier::loop_isolation(false)]
pub fn decode_protocol_decl(v: &JsonValue, ctx: &str) -> (r: Result<ProtocolDecl, DecodeError>)
    ensures
        r is Ok <==> protocol_decl_ok(*v),
        r matches Ok(d) ==> is_protocol_decl_of(*v, d),
        r matches Err(e) ==> shape_error(e),
{
    let fields = match v {
        JsonValue::Obj(fields) => fields,
        _ => {
            return Err(DecodeError::MalformedDocument { context: ctx.to_owned() });
        },
    };
    let name = match get_str(fields, "name") {
        Some(n) => n,
        None => {
            return Err(
                DecodeError::MissingField { context: ctx.to_owned(), field: "name".to_owned() },
            );
        },
    };
    let arr = match get_arr(fields, "methods") {
        Some(a) => a,
        None => {
            return Err(
                DecodeError::MissingField { context: ctx.to_owned(), field: "methods".to_owned() },
            );
        },
    };
    let mut methods: Vec<Method> = Vec::new();
    let mut i: usize = 0;
    while i < arr.len()
        invariant
            0 <= i <= arr@.len(),
            arr_field(fields@, "methods"@) == Some(arr@),
            methods@.len() == i,
            forall|j: int| 0 <= j < i ==> is_method_of(#[trigger] arr@[j], methods@[j]),
        decreases arr@.len() - i,
    {
        let m = match decode_method(&arr[i], name.as_str()) {
            Ok(m) => m,
            Err(e) => {
                proof {
                    assert(!all_methods_ok(arr@)) by {
                        assert(0 <= i < arr@.len());
                        assert(!method_ok(arr@[i as int]));
                    }
                }
                return Err(e);
            },
        };
        methods.push(m);
        i = i + 1;
    }
    let attributes = decode_attributes(fields, name.as_str())?;
    Ok(ProtocolDecl { name: name.clone(), methods, attributes })
}

/// Whether an object's fields form a name-to-kind map: every value is a
/// recognized declaration-kind tag.
pub open spec fn decl_map_ok(o: Seq<(String, JsonValue)>) -> bool {
    forall|i: int|
        0 <= i < o.len() ==> ((#[trigger] o[i]).1 matches JsonValue::Str(s) && decl_kind_of(s@)
            is Some)
}

/// `m` is the name-to-kind map the object's fields encode, in order.
pub open spec fn is_decl_map_of(
    o: Seq<(String, JsonValue)>,
    m: Seq<(String, DeclarationKind)>,
) -> bool {
    &&& decl_map_ok(o)
    &&& m.len() == o.len()
    &&& forall|i: int|
        0 <= i < o.len() ==> ((#[trigger] m[i]).0 == o[i].0 && (o[i].1 matches JsonValue::Str(s)
            && decl_kind_of(s@) == Some(m[i].1)))
}

/// Decode a name-to-kind map from an object's fields.
#[verifier::loop_isolation(false)]
pub fn decode_decl_map(o: &Vec<(String, JsonValue)>, ctx: &str) -> (r: Result<
    Vec<(String, DeclarationKind)>,
    DecodeError,
>)
    ensures
        r is Ok <==> decl_map_ok(o@),
        r matches Ok(m) ==> is_decl_map_of(o@, m@),
        r matches Err(e) ==> shape_error_in(e, ctx@),
        r matches Err(DecodeError::MalformedDocument { .. }) ==> exists|i: int|
            0 <= i < o@.len() && !((#[trigger] o@[i]).1 is Str),
        r matches Err(DecodeError::UnknownVariant { tag, .. }) ==> exists|i: int|
            0 <= i < o@.len() && (#[trigger] o@[i]).1 == JsonValue::Str(tag) && decl_kind_of(tag@)
                is None,
{
    let mut m: Vec<(String, DeclarationKind)> = Vec::new();
    let mut i: usize = 0;
    while i < o.len()
        invariant
            0 <= i <= o@.len(),
            m@.len() == i,
            forall|j: int|
                #![trigger m@[j]]
                #![trigger o@[j]]
                0 <= j < i ==> (m@[j].0 == o@[j].0 && (o@[j].1 matches JsonValue::Str(
                    s,
                ) && decl_kind_of(s@) == Some(m@[j].1))),
        decreases o@.len() - i,
    {
        let pair = &o[i];
        let tag = match &pair.1 {
            JsonValue::Str(s) => s,
            _ => {
                proof {
                    assert(!decl_map_ok(o@)) by {
                        assert(0 <= i < o@.len());
                        assert(!(o@[i as int].1 is Str));
                    }
                }
                return Err(DecodeError::MalformedDocument { context: ctx.to_owned() });
            },
        };
        let kind = match decode_decl_kind(tag.as_str()) {
            Some(k) => k,
            None => {
                proof {
                    assert(!decl_map_ok(o@)) by {
                        assert(0 <= i < o@.len());
                        assert(decl_kind_of(o@[i as int].1->Str_0@) is None);
                    }
                }
                return Err(
                    DecodeError::UnknownVariant { context: ctx.to_owned(), tag: tag.clone() },
                );
            },
        };
        m.push((pair.0.clone(), kind));
        i = i + 1;
    }
    Ok(m)
}

/// Whether a document node is a well-shaped library dependency.
pub open spec fn dependency_ok(v: JsonValue) -> bool {
    &&& v is Obj
    &&& {
        let fs = v->Obj_0@;
        &&& str_field(fs, "name"@) is Some
        &&& (obj_field(fs, "declarations"@) matches Some(o) && decl_map_ok(o))
    }
}

/// `d` is the library dependency the node encodes.
pub open spec fn is_dependency_of(v: JsonValue, d: LibraryDependency) -> bool {
    &&& dependency_ok(v)
    &&& {
        let fs = v->Obj_0@;
        &&& lookup_field(fs, "name"@) == Some(JsonValue::Str(d.name))
        &&& (obj_field(fs, "declarations"@) matches Some(o) && is_decl_map_of(o, d.declarations@))
    }
}

/// Decode one library dependency: its name and its name-to-kind stubs.
pub fn decode_dependency(v: &JsonValue, ctx: &str) -> (r: Result<LibraryDependency, DecodeError>)
    ensures
        r is Ok <==> dependency_ok(*v),
        r matches Ok(d) ==> is_dependency_of(*v, d),
        r matches Err(e) ==> shape_error(e),
{
    let fields = match v {
        JsonValue::Obj(fields) => fields,
        _ => {
            return Err(DecodeError::MalformedDocument { context: ctx.to_owned() });
        },
    };
    let name = match get_str(fields, "name") {
        Some(n) => n,
        None => {
            return Err(
                DecodeError::MissingField { context: ctx.to_owned(), field: "name".to_owned() },
            );
        },
    };
    let o = match get_obj(fields, "declarations") {
        Some(o) => o,
        None => {
            return Err(
                DecodeError::MissingField {
                    context: ctx.to_owned(),
                    field: "declarations".to_owned(),
                },
            );
        },
    };
    let declarations = decode_decl_map(o, name.as_str())?;
    Ok(LibraryDependency { name: name.clone(), declarations })
}

/// Every element of `a` is a well-shaped `const` declaration node.
pub open spec fn all_const_decls_ok(a: Seq<JsonValue>) -> bool {
    forall|i: int| 0 <= i < a.len() ==> const_decl_ok(#[trigger] a[i])
}

/// `ds` is the `const` declaration list `a` encodes, element by element.
pub open spec fn are_const_decls_of(a: Seq<JsonValue>, ds: Seq<ConstDecl>) -> bool {
    ds.len() == a.len() && forall|i: int|
        0 <= i < a.len() ==> is_const_decl_of(#[trigger] a[i], ds[i])
}

/// Decode a whole `const` declaration list.
#[verifier::loop_isolation(false)]
fn decode_const_decl_list(arr: &Vec<JsonValue>, ctx: &str) -> (r: Result<Vec<ConstDecl>, DecodeError>)
    ensures
        r is Ok <==> all_const_decls_ok(arr@),
        r matches Ok(ds) ==> are_const_decls_of(arr@, ds@),
        r matches Err(e) ==> shape_error(e),
{
    let mut ds: Vec<ConstDecl> = Vec::new();
    let mut i: usize = 0;
    while i < arr.len()
        invariant
            0 <= i <= arr@.len(),
            ds@.len() == i,
            forall|j: int| 0 <= j < i ==> is_const_decl_of(#[trigger] arr@[j], ds@[j]),
        decreases arr@.len() - i,
    {
        let d = match decode_const_decl(&arr[i], ctx) {
            Ok(d) => d,
            Err(e) => {
                proof {
                    assert(!all_const_decls_ok(arr@)) by {
                        assert(0 <= i < arr@.len());
                        assert(!const_decl_ok(arr@[i as int]));
                    }
                }
                return Err(e);
            },
        };
        ds.push(d);
        i = i + 1;
    }
    Ok(ds)
}

/// Every element of `a` is a well-shaped `enum` declaration node.
pub open spec fn all_enum_decls_ok(a: Seq<JsonValue>) -> bool {
    forall|i: int| 0 <= i < a.len() ==> enum_decl_ok(#[trigger] a[i])
}

/// `ds` is the `enum` declaration list `a` encodes, element by element.
pub open spec fn are_enum_decls_of(a: Seq<JsonValue>, ds: Seq<EnumDecl>) -> bool {
    ds.len() == a.len() && forall|i: int|
        0 <= i < a.len() ==> is_enum_decl_of(#[trigger] a[i], ds[i])
}

/// Decode a whole `enum` declaration list.
#[verifier::loop_isolation(false)]
fn decode_enum_decl_list(arr: &Vec<JsonValue>, ctx: &str) -> (r: Result<Vec<EnumDecl>, DecodeError>)
    ensures
        r is Ok <==> all_enum_decls_ok(arr@),
        r matches Ok(ds) ==> are_enum_decls_of(arr@, ds@),
        r matches Err(e) ==> shape_error(e),
{
    let mut ds: Vec<EnumDecl> = Vec::new();
    let mut i: usize = 0;
    while i < arr.len()
        invariant
            0 <= i <= arr@.len(),
            ds@.len() == i,
            forall|j: int| 0 <= j < i ==> is_enum_decl_of(#[trigger] arr@[j], ds@[j]),
        decreases arr@.len() - i,
    {
        let d = match decode_enum_decl(&arr[i], ctx) {
            Ok(d) => d,
            Err(e) => {
                proof {
                    assert(!all_enum_decls_ok(arr@)) by {
                        assert(0 <= i < arr@.len());
                        assert(!enum_decl_ok(arr@[i as int]));
                    }
                }
                return Err(e);
            },
        };
        ds.push(d);
        i = i + 1;
    }
    Ok(ds)
}

/// Every element of `a` is a well-shaped `protocol` declaration node.
pub open spec fn all_protocol_decls_ok(a: Seq<JsonValue>) -> bool {
    forall|i: int| 0 <= i < a.len() ==> protocol_decl_ok(#[trigger] a[i])
}

/// `ds` is the `protocol` declaration list `a` encodes, element by element.
pub open spec fn are_protocol_decls_of(a: Seq<JsonValue>, ds: Seq<ProtocolDecl>) -> bool {
    ds.len() == a.len() && forall|i: int|
        0 <= i < a.len() ==> is_protocol_decl_of(#[trigger] a[i], ds[i])
}

/// Decode a whole `protocol` declaration list.
#[verifier::loop_isolation(false)]
fn decode_protocol_decl_list(arr: &Vec<JsonValue>, ctx: &str) -> (r: Result<Vec<ProtocolDecl>, DecodeError>)
    ensures
        r is Ok <==> all_protocol_decls_ok(arr@),
        r matches Ok(ds) ==> are_protocol_decls_of(arr@, ds@),
        r matches Err(e) ==> shape_error(e),
{
    let mut ds: Vec<ProtocolDecl> = Vec::new();
    let mut i: usize = 0;
    while i < arr.len()
        invariant
            0 <= i <= arr@.len(),
            ds@.len() == i,
            forall|j: int| 0 <= j < i ==> is_protocol_decl_of(#[trigger] arr@[j], ds@[j]),
        decreases arr@.len() - i,
    {
        let d = match decode_protocol_decl(&arr[i], ctx) {
            Ok(d) => d,
            Err(e) => {
                proof {
                    assert(!all_protocol_decls_ok(arr@)) by {
                        assert(0 <= i < arr@.len());
                        assert(!protocol_decl_ok(arr@[i as int]));
                    }
                }
                return Err(e);
            },
        };
        ds.push(d);
        i = i + 1;
    }
    Ok(ds)
}

/// Every element of `a` is a well-shaped `struct` declaration node.
pub open spec fn all_struct_decls_ok(a: Seq<JsonValue>) -> bool {
    forall|i: int| 0 <= i < a.len() ==> struct_decl_ok(#[trigger] a[i])
}

/// `ds` is the `struct` declaration list `a` encodes, element by element.
pub open spec fn are_struct_decls_of(a: Seq<JsonValue>, ds: Seq<StructDecl>) -> bool {
    ds.len() == a.len() && forall|i: int|
        0 <= i < a.len() ==> is_struct_decl_of(#[trigger] a[i], ds[i])
}

/// Decode a whole `struct` declaration list.
#[verifier::loop_isolation(false)]
fn decode_struct_decl_list(arr: &Vec<JsonValue>, ctx: &str) -> (r: Result<Vec<StructDecl>, DecodeError>)
    ensures
        r is Ok <==> all_struct_decls_ok(arr@),
        r matches Ok(ds) ==> are_struct_decls_of(arr@, ds@),
        r matches Err(e) ==> shape_error(e),
{
    let mut ds: Vec<StructDecl> = Vec::new();
    let mut i: usize = 0;
    while i < arr.len()
        invariant
            0 <= i <= arr@.len(),
            ds@.len() == i,
            forall|j: int| 0 <= j < i ==> is_struct_decl_of(#[trigger] arr@[j], ds@[j]),
        decreases arr@.len() - i,
    {
        let d = match decode_struct_decl(&arr[i], ctx) {
            Ok(d) => d,
            Err(e) => {
                proof {
                    assert(!all_struct_decls_ok(arr@)) by {
                        assert(0 <= i < arr@.len());
                        assert(!struct_decl_ok(arr@[i as int]));
                    }
                }
                return Err(e);
            },
        };
        ds.push(d);
        i = i + 1;
    }
    Ok(ds)
}

/// Every element of `a` is a well-shaped `table` declaration node.
pub open spec fn all_table_decls_ok(a: Seq<JsonValue>) -> bool {
    forall|i: int| 0 <= i < a.len() ==> table_decl_ok(#[trigger] a[i])
}

/// `ds` is the `table` declaration list `a` encodes, element by element.
pub open spec fn are_table_decls_of(a: Seq<JsonValue>, ds: Seq<TableDecl>) -> bool {
    ds.len() == a.len() && forall|i: int|
        0 <= i < a.len() ==> is_table_decl_of(#[trigger] a[i], ds[i])
}

/// Decode a whole `table` declaration list.
#[verifier::loop_isolation(false)]
fn decode_table_decl_list(arr: &Vec<JsonValue>, ctx: &str) -> (r: Result<Vec<TableDecl>, DecodeError>)
    ensures
        r is Ok <==> all_table_decls_ok(arr@),
        r matches Ok(ds) ==> are_table_decls_of(arr@, ds@),
        r matches Err(e) ==> shape_error(e),
{
    let mut ds: Vec<TableDecl> = Vec::new();
    let mut i: usize = 0;
    while i < arr.len()
        invariant
            0 <= i <= arr@.len(),
            ds@.len() == i,
            forall|j: int| 0 <= j < i ==> is_table_decl_of(#[trigger] arr@[j], ds@[j]),
        decreases arr@.len() - i,
    {
        let d = match decode_table_decl(&arr[i], ctx) {
            Ok(d) => d,
            Err(e) => {
                proof {
                    assert(!all_table_decls_ok(arr@)) by {
                        assert(0 <= i < arr@.len());
                        assert(!table_decl_ok(arr@[i as int]));
                    }
                }
                return Err(e);
            },
        };
        ds.push(d);
        i = i + 1;
    }
    Ok(ds)
}

/// Every element of `a` is a well-shaped `union` declaration node.
pub open spec fn all_union_decls_ok(a: Seq<JsonValue>) -> bool {
    forall|i: int| 0 <= i < a.len() ==> union_decl_ok(#[trigger] a[i])
}

/// `ds` is the `union` declaration list `a` encodes, element by element.
pub open spec fn are_union_decls_of(a: Seq<JsonValue>, ds: Seq<UnionDecl>) -> bool {
    ds.len() == a.len() && forall|i: int|
        0 <= i < a.len() ==> is_union_decl_of(#[trigger] a[i], ds[i])
}

/// Decode a whole `union` declaration list.
#[verifier::loop_isolation(false)]
fn decode_union_decl_list(arr: &Vec<JsonValue>, ctx: &str) -> (r: Result<Vec<UnionDecl>, DecodeError>)
    ensures
        r is Ok <==> all_union_decls_ok(arr@),
        r matches Ok(ds) ==> are_union_decls_of(arr@, ds@),
        r matches Err(e) ==> shape_error(e),
{
    let mut ds: Vec<UnionDecl> = Vec::new();
    let mut i: usize = 0;
    while i < arr.len()
        invariant
            0 <= i <= arr@.len(),
            ds@.len() == i,
            forall|j: int| 0 <= j < i ==> is_union_decl_of(#[trigger] arr@[j], ds@[j]),
        decreases arr@.len() - i,
    {
        let d = match decode_union_decl(&arr[i], ctx) {
            Ok(d) => d,
            Err(e) => {
                proof {
                    assert(!all_union_decls_ok(arr@)) by {
                        assert(0 <= i < arr@.len());
                        assert(!union_decl_ok(arr@[i as int]));
                    }
                }
                return Err(e);
            },
        };
        ds.push(d);
        i = i + 1;
    }
    Ok(ds)
}

/// Every element of `a` is a well-shaped `xunion` declaration node.
pub open spec fn all_xunion_decls_ok(a: Seq<JsonValue>) -> bool {
    forall|i: int| 0 <= i < a.len() ==> xunion_decl_ok(#[trigger] a[i])
}

/// `ds` is the `xunion` declaration list `a` encodes, element by element.
pub open spec fn are_xunion_decls_of(a: Seq<JsonValue>, ds: Seq<XUnionDecl>) -> bool {
    ds.len() == a.len() && forall|i: int|
        0 <= i < a.len() ==> is_xunion_decl_of(#[trigger] a[i], ds[i])
}

/// Decode a whole `xunion` declaration list.
#[verifier::loop_isolation(false)]
fn decode_xunion_decl_list(arr: &Vec<JsonValue>, ctx: &str) -> (r: Result<Vec<XUnionDecl>, DecodeError>)
    ensures
        r is Ok <==> all_xunion_decls_ok(arr@),
        r matches Ok(ds) ==> are_xunion_decls_of(arr@, ds@),
        r matches Err(e) ==> shape_error(e),
{
    let mut ds: Vec<XUnionDecl> = Vec::new();
    let mut i: usize = 0;
    while i < arr.len()
        invariant
            0 <= i <= arr@.len(),
            ds@.len() == i,
            forall|j: int| 0 <= j < i ==> is_xunion_decl_of(#[trigger] arr@[j], ds@[j]),
        decreases arr@.len() - i,
    {
        let d = match decode_xunion_decl(&arr[i], ctx) {
            Ok(d) => d,
            Err(e) => {
                proof {
                    assert(!all_xunion_decls_ok(arr@)) by {
                        assert(0 <= i < arr@.len());
                        assert(!xunion_decl_ok(arr@[i as int]));
                    }
                }
                return Err(e);
            },
        };
        ds.push(d);
        i = i + 1;
    }
    Ok(ds)
}
/// Every element of `a` is a string node.
pub open spec fn all_strings_ok(a: Seq<JsonValue>) -> bool {
    forall|i: int| 0 <= i < a.len() ==> (#[trigger] a[i]) is Str
}

/// `ss` is the string list `a` encodes, element by element.
pub open spec fn is_str_seq_of(a: Seq<JsonValue>, ss: Seq<String>) -> bool {
    ss.len() == a.len() && forall|i: int| 0 <= i < a.len() ==> #[trigger] a[i] == JsonValue::Str(
        ss[i],
    )
}

/// Decode an array of strings (the declaration order).
#[verifier::loop_isolation(false)]
fn decode_str_list(arr: &Vec<JsonValue>, ctx: &str) -> (r: Result<Vec<String>, DecodeError>)
    ensures
        r is Ok <==> all_strings_ok(arr@),
        r matches Ok(ss) ==> is_str_seq_of(arr@, ss@),
        r matches Err(e) ==> shape_error(e),
{
    let mut ss: Vec<String> = Vec::new();
    let mut i: usize = 0;
    while i < arr.len()
        invariant
            0 <= i <= arr@.len(),
            ss@.len() == i,
            forall|j: int| 0 <= j < i ==> #[trigger] arr@[j] == JsonValue::Str(ss@[j]),
        decreases arr@.len() - i,
    {
        let s = match &arr[i] {
            JsonValue::Str(s) => s,
            _ => {
                proof {
                    assert(!all_strings_ok(arr@)) by {
                        assert(0 <= i < arr@.len());
                        assert(!(arr@[i as int] is Str));
                    }
                }
                return Err(DecodeError::MalformedDocument { context: ctx.to_owned() });
            },
        };
        ss.push(s.clone());
        i = i + 1;
    }
    Ok(ss)
}

/// Every element of `a` is a well-shaped dependency node.
pub open spec fn all_dependencies_ok(a: Seq<JsonValue>) -> bool {
    forall|i: int| 0 <= i < a.len() ==> dependency_ok(#[trigger] a[i])
}

/// `ds` is the dependency list `a` encodes, element by element.
pub open spec fn are_dependencies_of(a: Seq<JsonValue>, ds: Seq<LibraryDependency>) -> bool {
    ds.len() == a.len() && forall|i: int|
        0 <= i < a.len() ==> is_dependency_of(#[trigger] a[i], ds[i])
}

/// Decode the dependency list.
#[verifier::loop_isolation(false)]
fn decode_dependency_list(arr: &Vec<JsonValue>, ctx: &str) -> (r: Result<
    Vec<LibraryDependency>,
    DecodeError,
>)
    ensures
        r is Ok <==> all_dependencies_ok(arr@),
        r matches Ok(ds) ==> are_dependencies_of(arr@, ds@),
        r matches Err(e) ==> shape_error(e),
{
    let mut ds: Vec<LibraryDependency> = Vec::new();
    let mut i: usize = 0;
    while i < arr.len()
        invariant
            0 <= i <= arr@.len(),
            ds@.len() == i,
            forall|j: int| 0 <= j < i ==> is_dependency_of(#[trigger] arr@[j], ds@[j]),
        decreases arr@.len() - i,
    {
        let d = match decode_dependency(&arr[i], ctx) {
            Ok(d) => d,
            Err(e) => {
                proof {
                    assert(!all_dependencies_ok(arr@)) by {
                        assert(0 <= i < arr@.len());
                        assert(!dependency_ok(arr@[i as int]));
                    }
                }
                return Err(e);
            },
        };
        ds.push(d);
        i = i + 1;
    }
    Ok(ds)
}

/// Whether a document is a well-shaped library: every top-level field present
/// and every entity in it well-shaped. Shape does not include the
/// whole-library validation checks; see `lib_valid`.
pub open spec fn library_shape_ok(doc: JsonValue) -> bool {
    &&& doc is Obj
    &&& {
        let fs = doc->Obj_0@;
        &&& str_field(fs, "version"@) is Some
        &&& str_field(fs, "name"@) is Some
        &&& (arr_field(fs, "const_declarations"@) matches Some(a) && all_const_decls_ok(a))
        &&& (arr_field(fs, "enum_declarations"@) matches Some(a) && all_enum_decls_ok(a))
        &&& (arr_field(fs, "interface_declarations"@) matches Some(a) && all_protocol_decls_ok(a))
        &&& (arr_field(fs, "struct_declarations"@) matches Some(a) && all_struct_decls_ok(a))
        &&& (arr_field(fs, "table_declarations"@) matches Some(a) && all_table_decls_ok(a))
        &&& (arr_field(fs, "union_declarations"@) matches Some(a) && all_union_decls_ok(a))
        &&& (arr_field(fs, "xunion_declarations"@) matches Some(a) && all_xunion_decls_ok(a))
        &&& (arr_field(fs, "declaration_order"@) matches Some(a) && all_strings_ok(a))
        &&& (obj_field(fs, "declarations"@) matches Some(o) && decl_map_ok(o))
        &&& (arr_field(fs, "library_dependencies"@) matches Some(a) && all_dependencies_ok(a))
    }
}

/// `lib` is the library the document encodes, field by field.
pub open spec fn is_library_of(doc: JsonValue, lib: Library) -> bool {
    &&& library_shape_ok(doc)
    &&& {
        let fs = doc->Obj_0@;
        &&& lookup_field(fs, "version"@) == Some(JsonValue::Str(lib.version))
        &&& lookup_field(fs, "name"@) == Some(JsonValue::Str(lib.name))
        &&& (arr_field(fs, "const_declarations"@) matches Some(a) && are_const_decls_of(
            a,
            lib.const_declarations@,
        ))
        &&& (arr_field(fs, "enum_declarations"@) matches Some(a) && are_enum_decls_of(
            a,
            lib.enum_declarations@,
        ))
        &&& (arr_field(fs, "interface_declarations"@) matches Some(a) && are_protocol_decls_of(
            a,
            lib.interface_declarations@,
        ))
        &&& (arr_field(fs, "struct_declarations"@) matches Some(a) && are_struct_decls_of(
            a,
            lib.struct_declarations@,
        ))
        &&& (arr_field(fs, "table_declarations"@) matches Some(a) && are_table_decls_of(
            a,
            lib.table_declarations@,
        ))
        &&& (arr_field(fs, "union_declarations"@) matches Some(a) && are_union_decls_of(
            a,
            lib.union_declarations@,
        ))
        &&& (arr_field(fs, "xunion_declarations"@) matches Some(a) && are_xunion_decls_of(
            a,
            lib.xunion_declarations@,
        ))
        &&& (arr_field(fs, "declaration_order"@) matches Some(a) && is_str_seq_of(
            a,
            lib.declaration_order@,
        ))
        &&& (obj_field(fs, "declarations"@) matches Some(o) && is_decl_map_of(o, lib.declarations@))
        &&& (arr_field(fs, "library_dependencies"@) matches Some(a) && are_dependencies_of(
            a,
            lib.library_dependencies@,
        ))
    }
}

/// Build the schema model from a document, checking structural shape only.
/// The whole-library validation pass is `validate_library`; `decode` runs
/// both.
pub fn parse_library(doc: &JsonValue) -> (r: Result<Library, DecodeError>)
    ensures
        r is Ok <==> library_shape_ok(*doc),
        r matches Ok(lib) ==> is_library_of(*doc, lib),
        r matches Err(e) ==> shape_error(e),
{
    let fields = match doc {
        JsonValue::Obj(fields) => fields,
        _ => {
            return Err(DecodeError::MalformedDocument { context: "library".to_owned() });
        },
    };
    let version = match get_str(fields, "version") {
        Some(s) => s,
        None => {
            return Err(
                DecodeError::MissingField {
                    context: "library".to_owned(),
                    field: "version".to_owned(),
                },
            );
        },
    };
    let name = match get_str(fields, "name") {
        Some(s) => s,
        None => {
            return Err(
                DecodeError::MissingField {
                    context: "library".to_owned(),
                    field: "name".to_owned(),
                },
            );
        },
    };
    let const_declarations = match get_arr(fields, "const_declarations") {
        Some(a) => decode_const_decl_list(a, name.as_str())?,
        None => {
            return Err(
                DecodeError::MissingField {
                    context: name.clone(),
                    field: "const_declarations".to_owned(),
                },
            );
        },
    };
    let enum_declarations = match get_arr(fields, "enum_declarations") {
        Some(a) => decode_enum_decl_list(a, name.as_str())?,
        None => {
            return Err(
                DecodeError::MissingField {
                    context: name.clone(),
                    field: "enum_declarations".to_owned(),
                },
            );
        },
    };
    let interface_declarations = match get_arr(fields, "interface_declarations") {
        Some(a) => decode_protocol_decl_list(a, name.as_str())?,
        None => {
            return Err(
                DecodeError::MissingField {
                    context: name.clone(),
                    field: "interface_declarations".to_owned(),
                },
            );
        },
    };
    let struct_declarations = match get_arr(fields, "struct_declarations") {
        Some(a) => decode_struct_decl_list(a, name.as_str())?,
        None => {
            return Err(
                DecodeError::MissingField {
                    context: name.clone(),
                    field: "struct_declarations".to_owned(),
                },
            );
        },
    };
    let table_declarations = match get_arr(fields, "table_declarations") {
        Some(a) => decode_table_decl_list(a, name.as_str())?,
        None => {
            return Err(
                DecodeError::MissingField {
                    context: name.clone(),
                    field: "table_declarations".to_owned(),
                },
            );
        },
    };
    let union_declarations = match get_arr(fields, "union_declarations") {
        Some(a) => decode_union_decl_list(a, name.as_str())?,
        None => {
            return Err(
                DecodeError::MissingField {
                    context: name.clone(),
                    field: "union_declarations".to_owned(),
                },
            );
        },
    };
    let xunion_declarations = match get_arr(fields, "xunion_declarations") {
        Some(a) => decode_xunion_decl_list(a, name.as_str())?,
        None => {
            return Err(
                DecodeError::MissingField {
                    context: name.clone(),
                    field: "xunion_declarations".to_owned(),
                },
            );
        },
    };
    let declaration_order = match get_arr(fields, "declaration_order") {
        Some(a) => decode_str_list(a, name.as_str())?,
        None => {
            return Err(
                DecodeError::MissingField {
                    context: name.clone(),
                    field: "declaration_order".to_owned(),
                },
            );
        },
    };
    let declarations = match get_obj(fields, "declarations") {
        Some(o) => decode_decl_map(o, name.as_str())?,
        None => {
            return Err(
                DecodeError::MissingField {
                    context: name.clone(),
                    field: "declarations".to_owned(),
                },
            );
        },
    };
    let library_dependencies = match get_arr(fields, "library_dependencies") {
        Some(a) => decode_dependency_list(a, name.as_str())?,
        None => {
            return Err(
                DecodeError::MissingField {
                    context: name.clone(),
                    field: "library_dependencies".to_owned(),
                },
            );
        },
    };
    Ok(
        Library {
            version: version.clone(),
            name: name.clone(),
            const_declarations,
            enum_declarations,
            interface_declarations,
            struct_declarations,
            table_declarations,
            union_declarations,
            xunion_declarations,
            declaration_order,
            declarations,
            library_dependencies,
        },
    )
}

/// The name of each declaration node in a list.
pub open spec fn doc_names_of(a: Seq<JsonValue>) -> Seq<Seq<char>> {
    a.map_values(|v: JsonValue| str_field(v->Obj_0@, "name"@)->0)
}

/// Every locally declared name of the document, in kind-list order.
pub open spec fn doc_local_names(doc: JsonValue) -> Seq<Seq<char>> {
    let fs = doc->Obj_0@;
    doc_names_of(arr_field(fs, "const_declarations"@)->0) + doc_names_of(
        arr_field(fs, "enum_declarations"@)->0,
    ) + doc_names_of(arr_field(fs, "interface_declarations"@)->0) + doc_names_of(
        arr_field(fs, "struct_declarations"@)->0,
    ) + doc_names_of(arr_field(fs, "table_declarations"@)->0) + doc_names_of(
        arr_field(fs, "union_declarations"@)->0,
    ) + doc_names_of(arr_field(fs, "xunion_declarations"@)->0)
}

/// The document's declaration order, as character sequences.
pub open spec fn doc_order_names(doc: JsonValue) -> Seq<Seq<char>> {
    arr_field(doc->Obj_0@, "declaration_order"@)->0.map_values(|v: JsonValue| v->Str_0@)
}

/// The member ordinals of a table node.
pub open spec fn doc_table_ordinals(v: JsonValue) -> Seq<u64> {
    arr_field(v->Obj_0@, "members"@)->0.map_values(
        |m: JsonValue| u64_field(m->Obj_0@, "ordinal"@)->0,
    )
}

/// Every table node of the document has valid member ordinals.
pub open spec fn doc_tables_ok(doc: JsonValue) -> bool {
    let ts = arr_field(doc->Obj_0@, "table_declarations"@)->0;
    forall|k: int| 0 <= k < ts.len() ==> ordinals_ok(doc_table_ordinals(#[trigger] ts[k]))
}

/// The request/response flags of a protocol node's methods.
pub open spec fn doc_method_flags(v: JsonValue) -> Seq<(bool, bool)> {
    arr_field(v->Obj_0@, "methods"@)->0.map_values(
        |m: JsonValue| (bool_field(m->Obj_0@, "has_request"@)->0, bool_field(
            m->Obj_0@,
            "has_response"@,
        )->0),
    )
}

/// The table nodes of the document.
pub open spec fn doc_tables(doc: JsonValue) -> Seq<JsonValue> {
    arr_field(doc->Obj_0@, "table_declarations"@)->0
}

/// The protocol nodes of the document.
pub open spec fn doc_protocols(doc: JsonValue) -> Seq<JsonValue> {
    arr_field(doc->Obj_0@, "interface_declarations"@)->0
}

/// The method names of a protocol node.
pub open spec fn doc_method_names(v: JsonValue) -> Seq<Seq<char>> {
    arr_field(v->Obj_0@, "methods"@)->0.map_values(
        |m: JsonValue| str_field(m->Obj_0@, "name"@)->0,
    )
}

/// No method node of the document is empty.
pub open spec fn doc_protocols_ok(doc: JsonValue) -> bool {
    let ps = arr_field(doc->Obj_0@, "interface_declarations"@)->0;
    forall|k: int| 0 <= k < ps.len() ==> flags_ok(doc_method_flags(#[trigger] ps[k]))
}

/// The documents `decode` accepts: well-shaped, with a declaration order that
/// permutes the local names, valid table ordinals, and no empty method.
pub open spec fn document_valid(doc: JsonValue) -> bool {
    &&& library_shape_ok(doc)
    &&& order_ok(doc_local_names(doc), doc_order_names(doc))
    &&& doc_tables_ok(doc)
    &&& doc_protocols_ok(doc)
}

/// Law: a decoded model carries exactly the document's declared names, order
/// entries, table ordinals and method flags — nothing is gained, lost or
/// changed, so validity of the model and of the document coincide.
pub proof fn lemma_model_matches_document(doc: JsonValue, lib: Library)
    requires
        is_library_of(doc, lib),
    ensures
        local_names(lib) == doc_local_names(doc),
        views_of(lib.declaration_order@) == doc_order_names(doc),
        tables_ok(lib) <==> doc_tables_ok(doc),
        protocols_ok(lib) <==> doc_protocols_ok(doc),
        table_names(lib.table_declarations@) == doc_names_of(doc_tables(doc)),
        protocol_names(lib.interface_declarations@) == doc_names_of(doc_protocols(doc)),
        lib.table_declarations@.len() == doc_tables(doc).len(),
        lib.interface_declarations@.len() == doc_protocols(doc).len(),
        forall|k: int|
            0 <= k < lib.table_declarations@.len() ==> member_ordinals(
                #[trigger] lib.table_declarations@[k],
            ) == doc_table_ordinals(doc_tables(doc)[k]),
        forall|k: int|
            0 <= k < lib.interface_declarations@.len() ==> method_flags(
                #[trigger] lib.interface_declarations@[k],
            ) == doc_method_flags(doc_protocols(doc)[k]),
        forall|k: int|
            0 <= k < lib.interface_declarations@.len() ==> method_names(
                #[trigger] lib.interface_declarations@[k],
            ) == doc_method_names(doc_protocols(doc)[k]),
{
    let fs = doc->Obj_0@;
    let ac = arr_field(fs, "const_declarations"@)->0;
    assert(const_names(lib.const_declarations@) =~= doc_names_of(ac)) by {
        assert forall|k: int| 0 <= k < ac.len() implies doc_names_of(ac)[k] == const_names(
            lib.const_declarations@,
        )[k] by {
            assert(is_const_decl_of(ac[k], lib.const_declarations@[k]));
        }
    }
    let ae = arr_field(fs, "enum_declarations"@)->0;
    assert(enum_names(lib.enum_declarations@) =~= doc_names_of(ae)) by {
        assert forall|k: int| 0 <= k < ae.len() implies doc_names_of(ae)[k] == enum_names(
            lib.enum_declarations@,
        )[k] by {
            assert(is_enum_decl_of(ae[k], lib.enum_declarations@[k]));
        }
    }
    let ap = arr_field(fs, "interface_declarations"@)->0;
    assert(protocol_names(lib.interface_declarations@) =~= doc_names_of(ap)) by {
        assert forall|k: int| 0 <= k < ap.len() implies doc_names_of(ap)[k] == protocol_names(
            lib.interface_declarations@,
        )[k] by {
            assert(is_protocol_decl_of(ap[k], lib.interface_declarations@[k]));
        }
    }
    let as_ = arr_field(fs, "struct_declarations"@)->0;
    assert(struct_names(lib.struct_declarations@) =~= doc_names_of(as_)) by {
        assert forall|k: int| 0 <= k < as_.len() implies doc_names_of(as_)[k] == struct_names(
            lib.struct_declarations@,
        )[k] by {
            assert(is_struct_decl_of(as_[k], lib.struct_declarations@[k]));
        }
    }
    let at = arr_field(fs, "table_declarations"@)->0;
    assert(table_names(lib.table_declarations@) =~= doc_names_of(at)) by {
        assert forall|k: int| 0 <= k < at.len() implies doc_names_of(at)[k] == table_names(
            lib.table_declarations@,
        )[k] by {
            assert(is_table_decl_of(at[k], lib.table_declarations@[k]));
        }
    }
    let au = arr_field(fs, "union_declarations"@)->0;
    assert(union_names(lib.union_declarations@) =~= doc_names_of(au)) by {
        assert forall|k: int| 0 <= k < au.len() implies doc_names_of(au)[k] == union_names(
            lib.union_declarations@,
        )[k] by {
            assert(is_union_decl_of(au[k], lib.union_declarations@[k]));
        }
    }
    let ax = arr_field(fs, "xunion_declarations"@)->0;
    assert(xunion_names(lib.xunion_declarations@) =~= doc_names_of(ax)) by {
        assert forall|k: int| 0 <= k < ax.len() implies doc_names_of(ax)[k] == xunion_names(
            lib.xunion_declarations@,
        )[k] by {
            assert(is_xunion_decl_of(ax[k], lib.xunion_declarations@[k]));
        }
    }
    assert(local_names(lib) == doc_local_names(doc));
    let ao = arr_field(fs, "declaration_order"@)->0;
    assert(views_of(lib.declaration_order@) =~= doc_order_names(doc)) by {
        assert forall|k: int| 0 <= k < ao.len() implies doc_order_names(doc)[k] == views_of(
            lib.declaration_order@,
        )[k] by {
            assert(ao[k] == JsonValue::Str(lib.declaration_order@[k]));
        }
    }
    assert forall|k: int| 0 <= k < at.len() implies member_ordinals(
        #[trigger] lib.table_declarations@[k],
    ) == doc_table_ordinals(at[k]) by {
        assert(is_table_decl_of(at[k], lib.table_declarations@[k]));
        let am = arr_field(at[k]->Obj_0@, "members"@)->0;
        assert(member_ordinals(lib.table_declarations@[k]) =~= doc_table_ordinals(at[k])) by {
            assert forall|j: int| 0 <= j < am.len() implies doc_table_ordinals(at[k])[j]
                == member_ordinals(lib.table_declarations@[k])[j] by {
                assert(is_table_member_of(am[j], lib.table_declarations@[k].members@[j]));
            }
        }
    }
    assert(tables_ok(lib) <==> doc_tables_ok(doc)) by {
        if tables_ok(lib) {
            assert forall|k: int| 0 <= k < at.len() implies ordinals_ok(
                doc_table_ordinals(#[trigger] at[k]),
            ) by {
                assert(ordinals_ok(member_ordinals(lib.table_declarations@[k])));
            }
        }
        if doc_tables_ok(doc) {
            assert forall|k: int| 0 <= k < lib.table_declarations@.len() implies ordinals_ok(
                member_ordinals(#[trigger] lib.table_declarations@[k]),
            ) by {
                assert(ordinals_ok(doc_table_ordinals(at[k])));
            }
        }
    }
    assert forall|k: int| 0 <= k < ap.len() implies method_flags(
        #[trigger] lib.interface_declarations@[k],
    ) == doc_method_flags(ap[k]) && method_names(lib.interface_declarations@[k])
        == doc_method_names(ap[k]) by {
        assert(is_protocol_decl_of(ap[k], lib.interface_declarations@[k]));
        let am = arr_field(ap[k]->Obj_0@, "methods"@)->0;
        assert(method_flags(lib.interface_declarations@[k]) =~= doc_method_flags(ap[k])) by {
            assert forall|j: int| 0 <= j < am.len() implies doc_method_flags(ap[k])[j]
                == method_flags(lib.interface_declarations@[k])[j] by {
                assert(is_method_of(am[j], lib.interface_declarations@[k].methods@[j]));
            }
        }
        assert(method_names(lib.interface_declarations@[k]) =~= doc_method_names(ap[k])) by {
            assert forall|j: int| 0 <= j < am.len() implies doc_method_names(ap[k])[j]
                == method_names(lib.interface_declarations@[k])[j] by {
                assert(is_method_of(am[j], lib.interface_declarations@[k].methods@[j]));
            }
        }
    }
    assert(protocols_ok(lib) <==> doc_protocols_ok(doc)) by {
        if protocols_ok(lib) {
            assert forall|k: int| 0 <= k < ap.len() implies flags_ok(
                doc_method_flags(#[trigger] ap[k]),
            ) by {
                assert(flags_ok(method_flags(lib.interface_declarations@[k])));
            }
        }
        if doc_protocols_ok(doc) {
            assert forall|k: int| 0 <= k < lib.interface_declarations@.len() implies flags_ok(
                method_flags(#[trigger] lib.interface_declarations@[k]),
            ) by {
                assert(flags_ok(doc_method_flags(ap[k])));
            }
        }
    }
}

/// Decode a document into a validated library. Succeeds on exactly the valid
/// documents; fails atomically with the first error of the pass that found
/// it, never returning a partial model.
pub fn decode(doc: &JsonValue) -> (r: Result<Library, DecodeError>)
    ensures
        r is Ok <==> document_valid(*doc),
        r matches Ok(lib) ==> is_library_of(*doc, lib) && lib_valid(lib),
        r matches Err(e) ==> shape_error(e) || validation_error(e),
        r matches Err(e) ==> (!library_shape_ok(*doc) ==> shape_error(e)),
        r matches Err(e) ==> (library_shape_ok(*doc) ==> validation_error(e)),
        r matches Err(DecodeError::DanglingOrderEntry { name }) ==> name_count(
            doc_local_names(*doc),
            name@,
        ) == 0 && name_count(doc_order_names(*doc), name@) >= 1,
        r matches Err(DecodeError::MissingOrderEntry { name }) ==> name_count(
            doc_local_names(*doc),
            name@,
        ) >= 1 && name_count(doc_order_names(*doc), name@) == 0,
        r matches Err(DecodeError::DuplicateDeclaration { name }) ==> name_count(
            doc_local_names(*doc),
            name@,
        ) >= 2 || name_count(doc_order_names(*doc), name@) >= 2,
        r matches Err(DecodeError::MalformedDocument { context }) ==> !library_shape_ok(*doc)
            || (exists|k: int|
            0 <= k < doc_tables(*doc).len() && context@ == doc_names_of(doc_tables(*doc))[k]
                && !ordinals_ok(#[trigger] doc_table_ordinals(doc_tables(*doc)[k]))),
        r matches Err(DecodeError::EmptyMethod { protocol, method }) ==> exists|k: int, j: int|
            0 <= k < doc_protocols(*doc).len() && protocol@ == doc_names_of(doc_protocols(*doc))[k]
                && 0 <= j < doc_method_names(doc_protocols(*doc)[k]).len() && method@
                == doc_method_names(doc_protocols(*doc)[k])[j] && !(#[trigger] doc_method_flags(
                doc_protocols(*doc)[k],
            )[j]).0 && !doc_method_flags(doc_protocols(*doc)[k])[j].1,
{
    let lib = match parse_library(doc) {
        Ok(lib) => lib,
        Err(e) => {
            return Err(e);
        },
    };
    proof {
        lemma_model_matches_document(*doc, lib);
    }
    match validate_library(&lib) {
        Ok(()) => Ok(lib),
        Err(e) => {
            proof {
                match &e {
                    DecodeError::MalformedDocument { context } => {
                        let k = choose|k: int| #[trigger] names_bad_table(lib, *context, k);
                        assert(table_names(lib.table_declarations@)[k]
                            == lib.table_declarations@[k].name@);
                        assert(context@ == doc_names_of(doc_tables(*doc))[k]);
                        assert(!ordinals_ok(doc_table_ordinals(doc_tables(*doc)[k])));
                    },
                    DecodeError::EmptyMethod { protocol, method } => {
                        let (k, j) = choose|k: int, j: int|
                            #[trigger] names_empty_method(lib, *protocol, *method, k, j);
                        assert(protocol_names(lib.interface_declarations@)[k]
                            == lib.interface_declarations@[k].name@);
                        assert(protocol@ == doc_names_of(doc_protocols(*doc))[k]);
                        assert(method_names(lib.interface_declarations@[k])[j]
                            == lib.interface_declarations@[k].methods@[j].name@);
                        assert(method@ == doc_method_names(doc_protocols(*doc)[k])[j]);
                        assert(method_flags(lib.interface_declarations@[k])[j] == (
                            lib.interface_declarations@[k].methods@[j].has_request,
                            lib.interface_declarations@[k].methods@[j].has_response,
                        ));
                        assert(!doc_method_flags(doc_protocols(*doc)[k])[j].0
                            && !doc_method_flags(doc_protocols(*doc)[k])[j].1);
                    },
                    _ => {},
                }
            }
            Err(e)
        },
    }
}

/// The name-to-kind entries of the document's kind index.
pub open spec fn doc_decl_entries(doc: JsonValue) -> Seq<(Seq<char>, DeclarationKind)> {
    obj_field(doc->Obj_0@, "declarations"@)->0.map_values(
        |p: (String, JsonValue)| (p.0@, decl_kind_of(p.1->Str_0@)->0),
    )
}

/// The name-to-kind entries of a decoded kind index.
pub open spec fn decl_entries(m: Seq<(String, DeclarationKind)>) -> Seq<(Seq<char>, DeclarationKind)> {
    m.map_values(|p: (String, DeclarationKind)| (p.0@, p.1))
}

/// Law: the decoded kind index carries exactly the document's qualified names
/// and kinds — none gained, lost, or changed.
pub proof fn lemma_kind_index_round_trip(doc: JsonValue, lib: Library)
    requires
        is_library_of(doc, lib),
    ensures
        decl_entries(lib.declarations@) == doc_decl_entries(doc),
{
    let o = obj_field(doc->Obj_0@, "declarations"@)->0;
    assert(decl_entries(lib.declarations@) =~= doc_decl_entries(doc)) by {
        assert(is_decl_map_of(o, lib.declarations@));
        assert forall|k: int| 0 <= k < o.len() implies doc_decl_entries(doc)[k] == decl_entries(
            lib.declarations@,
        )[k] by {
            assert(lib.declarations@[k].0 == o[k].0 && (o[k].1 matches JsonValue::Str(s)
                && decl_kind_of(s@) == Some(lib.declarations@[k].1)));
        }
    }
}

} // verus!
