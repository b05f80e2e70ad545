//! The root of the node tree: `Node`.

use vstd::prelude::*;
use crate::builder::{ClassDecl, ClassDeclModel, Member, MemberModel};
use crate::class::{ClassRef, FieldKind};

verus! {

/// The declaration of `Node`, as mathematics.
pub open spec fn node_model() -> ClassDeclModel {
    ClassDeclModel {
        class_name: "Node"@,
        members: seq![
            MemberModel { name: "node_type"@, kind: FieldKind::Int, writable: false },
            MemberModel { name: "node_name"@, kind: FieldKind::Text, writable: false },
            MemberModel { name: "base_uri"@, kind: FieldKind::Text, writable: false },
            MemberModel { name: "is_connected"@, kind: FieldKind::Bool, writable: false },
            MemberModel { name: "node_value"@, kind: FieldKind::Text, writable: true },
            MemberModel { name: "text_content"@, kind: FieldKind::Text, writable: true },
            MemberModel {
                name: "child_nodes"@,
                kind: FieldKind::ObjectList(ClassRef::Itself),
                writable: false,
            },
        ],
        methods: None,
    }
}

/// The declaration of `Node`: its members in the order of the constructor's
/// arguments, behind those that it inherits.
pub fn node_decl() -> (decl: ClassDecl)
    ensures
        decl@ == node_model(),
{
    let mut members: Vec<Member> = Vec::new();
    members.push(Member::read_only("node_type", FieldKind::Int));
    members.push(Member::read_only("node_name", FieldKind::Text));
    members.push(Member::read_only("base_uri", FieldKind::Text));
    members.push(Member::read_only("is_connected", FieldKind::Bool));
    members.push(Member::writable("node_value", FieldKind::Text));
    members.push(Member::writable("text_content", FieldKind::Text));
    members.push(Member::read_only("child_nodes", FieldKind::ObjectList(ClassRef::Itself)));
    let decl = ClassDecl { class_name: "Node".to_owned(), members, methods: None };
    assert(decl@.members =~= node_model().members);
    decl
}

} // verus!
