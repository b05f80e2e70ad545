//! An attribute of an element: `Attr`, a class below `Node`.

use vstd::prelude::*;
use crate::builder::{ClassDecl, ClassDeclModel, Member, MemberModel};
use crate::class::FieldKind;

verus! {

/// The declaration of `Attr`, as mathematics.
pub open spec fn attr_model() -> ClassDeclModel {
    ClassDeclModel {
        class_name: "Attr"@,
        members: seq![
            MemberModel { name: "local_name"@, kind: FieldKind::Text, writable: false },
            MemberModel { name: "name"@, kind: FieldKind::Text, writable: false },
            MemberModel { name: "namespace"@, kind: FieldKind::Text, writable: false },
            MemberModel { name: "prefix"@, kind: FieldKind::Text, writable: false },
            MemberModel { name: "value"@, kind: FieldKind::Text, writable: false },
        ],
        methods: None,
    }
}

/// The declaration of `Attr`: its members in the order of the constructor's
/// arguments, behind those that it inherits.
pub fn attr_decl() -> (decl: ClassDecl)
    ensures
        decl@ == attr_model(),
{
    let mut members: Vec<Member> = Vec::new();
    members.push(Member::read_only("local_name", FieldKind::Text));
    members.push(Member::read_only("name", FieldKind::Text));
    members.push(Member::read_only("namespace", FieldKind::Text));
    members.push(Member::read_only("prefix", FieldKind::Text));
    members.push(Member::read_only("value", FieldKind::Text));
    let decl = ClassDecl { class_name: "Attr".to_owned(), members, methods: None };
    assert(decl@.members =~= attr_model().members);
    decl
}

} // verus!
