//! A quadrilateral: `DOMQuad`, which holds its four points.

use vstd::prelude::*;
use crate::builder::{member_flags, member_table, ClassDecl, ClassDeclModel, Member, MemberModel};
use crate::class::{ClassRef, FieldKind};
use crate::property::{
    table_view, AccessorMode, AccessorModel, PropertySpec, PropertySpecModel, JSPROP_ENUMERATE,
    JSPROP_PERMANENT,
};

verus! {

/// The declaration of `DOMQuad`, as mathematics.
pub open spec fn domquad_model(point_prototype: usize) -> ClassDeclModel {
    ClassDeclModel {
        class_name: "DOMQuad"@,
        members: seq![
            MemberModel {
                name: "p1"@,
                kind: FieldKind::Object(ClassRef::Prototype(point_prototype)),
                writable: false,
            },
            MemberModel {
                name: "p2"@,
                kind: FieldKind::Object(ClassRef::Prototype(point_prototype)),
                writable: false,
            },
            MemberModel {
                name: "p3"@,
                kind: FieldKind::Object(ClassRef::Prototype(point_prototype)),
                writable: false,
            },
            MemberModel {
                name: "p4"@,
                kind: FieldKind::Object(ClassRef::Prototype(point_prototype)),
                writable: false,
            },
        ],
        methods: None,
    }
}

/// The declaration of `DOMQuad`: its members in the order of the constructor's
/// arguments, behind those that it inherits.
pub fn domquad_decl(point_prototype: usize) -> (decl: ClassDecl)
    ensures
        decl@ == domquad_model(point_prototype),
{
    let mut members: Vec<Member> = Vec::new();
    members.push(Member::read_only("p1", FieldKind::Object(ClassRef::Prototype(point_prototype))));
    members.push(Member::read_only("p2", FieldKind::Object(ClassRef::Prototype(point_prototype))));
    members.push(Member::read_only("p3", FieldKind::Object(ClassRef::Prototype(point_prototype))));
    members.push(Member::read_only("p4", FieldKind::Object(ClassRef::Prototype(point_prototype))));
    let decl = ClassDecl { class_name: "DOMQuad".to_owned(), members, methods: None };
    assert(decl@.members =~= domquad_model(point_prototype).members);
    decl
}

/// The accessor of the point in slot `slot`, whose self-hosted getter is
/// called `getter`.
pub open spec fn point_accessor(slot: usize, getter: Seq<char>, mode: AccessorMode)
    -> AccessorModel {
    match mode {
        AccessorMode::Native => AccessorModel::NativeGetter(slot),
        AccessorMode::SelfHosted => AccessorModel::SelfHostedGetter(getter),
    }
}

/// The property table of `DOMQuad`, as mathematics: a getter for each of the
/// four points, then the end entry.
pub open spec fn domquad_table(mode: AccessorMode) -> Seq<PropertySpecModel> {
    seq![
        PropertySpecModel {
            name: "p1"@,
            flags: member_flags(),
            accessor: point_accessor(0, "DOMQuad_get_p1"@, mode),
        },
        PropertySpecModel {
            name: "p2"@,
            flags: member_flags(),
            accessor: point_accessor(1, "DOMQuad_get_p2"@, mode),
        },
        PropertySpecModel {
            name: "p3"@,
            flags: member_flags(),
            accessor: point_accessor(2, "DOMQuad_get_p3"@, mode),
        },
        PropertySpecModel {
            name: "p4"@,
            flags: member_flags(),
            accessor: point_accessor(3, "DOMQuad_get_p4"@, mode),
        },
        PropertySpecModel::end(),
    ]
}

fn point_spec(name: &str, slot: usize, getter: &str, mode: AccessorMode) -> (spec: PropertySpec)
    ensures
        spec@ == (PropertySpecModel {
            name: name@,
            flags: member_flags(),
            accessor: point_accessor(slot, getter@, mode),
        }),
{
    match mode {
        AccessorMode::Native => PropertySpec::getter(
            name,
            JSPROP_ENUMERATE | JSPROP_PERMANENT,
            slot,
        ),
        AccessorMode::SelfHosted => PropertySpec::getter_selfhosted(
            name,
            JSPROP_ENUMERATE | JSPROP_PERMANENT,
            getter,
        ),
    }
}

/// The property table of `DOMQuad`.
pub fn domquad_ps_arr(mode: AccessorMode) -> (table: Vec<PropertySpec>)
    ensures
        table_view(table@) == domquad_table(mode),
{
    let mut table: Vec<PropertySpec> = Vec::new();
    table.push(point_spec("p1", 0, "DOMQuad_get_p1", mode));
    table.push(point_spec("p2", 1, "DOMQuad_get_p2", mode));
    table.push(point_spec("p3", 2, "DOMQuad_get_p3", mode));
    table.push(point_spec("p4", 3, "DOMQuad_get_p4", mode));
    table.push(PropertySpec::end_spec());
    assert(table_view(table@) =~= domquad_table(mode));
    table
}

/// The table written out above is the one that the declaration gives.
pub proof fn lemma_domquad_table(point_prototype: usize, mode: AccessorMode)
    ensures
        domquad_table(mode) == member_table(domquad_model(point_prototype), 0, mode),
{
    reveal_strlit("DOMQuad");
    reveal_strlit("_get_");
    reveal_strlit("p1");
    reveal_strlit("p2");
    reveal_strlit("p3");
    reveal_strlit("p4");
    reveal_strlit("DOMQuad_get_p1");
    reveal_strlit("DOMQuad_get_p2");
    reveal_strlit("DOMQuad_get_p3");
    reveal_strlit("DOMQuad_get_p4");
    assert("DOMQuad_get_p1"@ =~= "DOMQuad"@ + "_get_"@ + "p1"@);
    assert("DOMQuad_get_p2"@ =~= "DOMQuad"@ + "_get_"@ + "p2"@);
    assert("DOMQuad_get_p3"@ =~= "DOMQuad"@ + "_get_"@ + "p3"@);
    assert("DOMQuad_get_p4"@ =~= "DOMQuad"@ + "_get_"@ + "p4"@);
    let built = member_table(domquad_model(point_prototype), 0, mode);
    assert(domquad_table(mode) =~= built);
}

} // verus!
