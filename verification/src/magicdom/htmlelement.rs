//! An element of an HTML document: `HtmlElement`, a class below `Element`.

use vstd::prelude::*;
use crate::builder::{ClassDecl, ClassDeclModel, Member, MemberModel};
use crate::class::FieldKind;

verus! {

/// The declaration of `HtmlElement`, as mathematics.
pub open spec fn htmlelement_model() -> ClassDeclModel {
    ClassDeclModel {
        class_name: "HtmlElement"@,
        members: seq![
            MemberModel { name: "title"@, kind: FieldKind::Text, writable: false },
            MemberModel { name: "lang"@, kind: FieldKind::Text, writable: false },
            MemberModel { name: "translate"@, kind: FieldKind::Bool, writable: false },
            MemberModel { name: "dir"@, kind: FieldKind::Text, writable: false },
            MemberModel { name: "hidden"@, kind: FieldKind::Bool, writable: false },
            MemberModel { name: "tab_index"@, kind: FieldKind::Int, writable: false },
            MemberModel { name: "access_key"@, kind: FieldKind::Text, writable: false },
            MemberModel { name: "access_key_label"@, kind: FieldKind::Text, writable: false },
            MemberModel { name: "draggable"@, kind: FieldKind::Bool, writable: false },
            MemberModel { name: "spellcheck"@, kind: FieldKind::Bool, writable: false },
        ],
        methods: None,
    }
}

/// The declaration of `HtmlElement`: its members in the order of the constructor's
/// arguments, behind those that it inherits.
pub fn htmlelement_decl() -> (decl: ClassDecl)
    ensures
        decl@ == htmlelement_model(),
{
    let mut members: Vec<Member> = Vec::new();
    members.push(Member::read_only("title", FieldKind::Text));
    members.push(Member::read_only("lang", FieldKind::Text));
    members.push(Member::read_only("translate", FieldKind::Bool));
    members.push(Member::read_only("dir", FieldKind::Text));
    members.push(Member::read_only("hidden", FieldKind::Bool));
    members.push(Member::read_only("tab_index", FieldKind::Int));
    members.push(Member::read_only("access_key", FieldKind::Text));
    members.push(Member::read_only("access_key_label", FieldKind::Text));
    members.push(Member::read_only("draggable", FieldKind::Bool));
    members.push(Member::read_only("spellcheck", FieldKind::Bool));
    let decl = ClassDecl { class_name: "HtmlElement".to_owned(), members, methods: None };
    assert(decl@.members =~= htmlelement_model().members);
    decl
}

} // verus!
