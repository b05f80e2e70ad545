//! An element of the tree: `Element`, a class below `Node`.

use vstd::prelude::*;
use crate::builder::{ClassDecl, ClassDeclModel, Member, MemberModel};
use crate::class::{ClassRef, FieldKind};
use crate::method::{method_table_view, MethodSpec, MethodSpecModel};

verus! {

/// The method table of `Element`, as mathematics: `getAttributes`, which
/// takes a selector, then the end entry.
pub open spec fn element_methods(get_attributes: usize) -> Seq<MethodSpecModel> {
    seq![
        MethodSpecModel { name: "getAttributes"@, nargs: 1, native: Some(get_attributes) },
        MethodSpecModel::end(),
    ]
}

/// The method table of `Element`. `get_attributes` is the native function
/// that the host has for `getAttributes`.
pub fn element_fn_arr(get_attributes: usize) -> (table: Vec<MethodSpec>)
    ensures
        method_table_view(table@) == element_methods(get_attributes),
{
    let mut table: Vec<MethodSpec> = Vec::new();
    table.push(MethodSpec::function("getAttributes", get_attributes, 1));
    table.push(MethodSpec::end_spec());
    assert(method_table_view(table@) =~= element_methods(get_attributes));
    table
}

/// The declaration of `Element`, as mathematics.
pub open spec fn element_model(attr_prototype: usize, get_attributes: usize) -> ClassDeclModel {
    ClassDeclModel {
        class_name: "Element"@,
        members: seq![
            MemberModel { name: "local_name"@, kind: FieldKind::Text, writable: false },
            MemberModel { name: "tag_name"@, kind: FieldKind::Text, writable: false },
            MemberModel { name: "namespace"@, kind: FieldKind::Text, writable: false },
            MemberModel { name: "prefix"@, kind: FieldKind::Text, writable: false },
            MemberModel { name: "id"@, kind: FieldKind::Text, writable: false },
            MemberModel {
                name: "attrs"@,
                kind: FieldKind::ObjectList(ClassRef::Prototype(attr_prototype)),
                writable: false,
            },
        ],
        methods: Some(element_methods(get_attributes)),
    }
}

/// The declaration of `Element`: its members in the order of the
/// constructor's arguments, behind those that it inherits, and its one
/// method. `attr_prototype` is the prototype of the class of its attributes.
pub fn element_decl(attr_prototype: usize, get_attributes: usize) -> (decl: ClassDecl)
    ensures
        decl@ == element_model(attr_prototype, get_attributes),
{
    let mut members: Vec<Member> = Vec::new();
    members.push(Member::read_only("local_name", FieldKind::Text));
    members.push(Member::read_only("tag_name", FieldKind::Text));
    members.push(Member::read_only("namespace", FieldKind::Text));
    members.push(Member::read_only("prefix", FieldKind::Text));
    members.push(Member::read_only("id", FieldKind::Text));
    members.push(
        Member::read_only("attrs", FieldKind::ObjectList(ClassRef::Prototype(attr_prototype))),
    );
    let decl = ClassDecl {
        class_name: "Element".to_owned(),
        members,
        methods: Some(element_fn_arr(get_attributes)),
    };
    assert(decl@.members =~= element_model(attr_prototype, get_attributes).members);
    decl
}

} // verus!
