//! A point of the plane or of space: `DOMPoint`, with whole coordinates.

use vstd::prelude::*;
use crate::builder::{ClassDecl, ClassDeclModel, Member, MemberModel};
use crate::class::FieldKind;

verus! {

/// The declaration of `DOMPoint`, as mathematics.
pub open spec fn dompoint_model() -> ClassDeclModel {
    ClassDeclModel {
        class_name: "DOMPoint"@,
        members: seq![
            MemberModel { name: "x"@, kind: FieldKind::Int, writable: false },
            MemberModel { name: "y"@, kind: FieldKind::Int, writable: false },
            MemberModel { name: "z"@, kind: FieldKind::Int, writable: false },
            MemberModel { name: "w"@, kind: FieldKind::Int, writable: false },
        ],
        methods: None,
    }
}

/// The declaration of `DOMPoint`: its members in the order of the constructor's
/// arguments, behind those that it inherits.
pub fn dompoint_decl() -> (decl: ClassDecl)
    ensures
        decl@ == dompoint_model(),
{
    let mut members: Vec<Member> = Vec::new();
    members.push(Member::read_only("x", FieldKind::Int));
    members.push(Member::read_only("y", FieldKind::Int));
    members.push(Member::read_only("z", FieldKind::Int));
    members.push(Member::read_only("w", FieldKind::Int));
    let decl = ClassDecl { class_name: "DOMPoint".to_owned(), members, methods: None };
    assert(decl@.members =~= dompoint_model().members);
    decl
}

} // verus!
