//! Native and self-hosted accessors do the same.
//!
//! A class registered from a declaration gets the same properties whether its
//! table names native accessors or the self-hosted functions that
//! [`define_accessors`](crate::builder::define_accessors) defines.

use vstd::prelude::*;
use crate::builder::{
    descriptor_of, getter_name, inherited_slots, member_table, prepared, registered,
    setter_name, with_accessors, ClassDeclModel,
};
use crate::model::{first_intrinsic, IntrinsicModel, RuntimeModel};
use crate::class::FieldKind;
use crate::property::{
    entries_well_formed, first_end, names_distinct, AccessorMode, PropertySpecModel,
};

verus! {

/// No two members of the declaration have the same name.
pub open spec fn members_distinct(decl: ClassDeclModel) -> bool {
    forall|i: int, j: int|
        0 <= i < j < decl.members.len() ==> (#[trigger] decl.members[i]).name != (
        #[trigger] decl.members[j]).name
}

/// The runtime has no self-hosted function yet under a name that the
/// declaration's accessors will get.
pub open spec fn accessors_fresh(m: RuntimeModel, decl: ClassDeclModel) -> bool {
    forall|j: int|
        0 <= j < decl.members.len() ==> first_intrinsic(
            m.intrinsics,
            getter_name(decl.class_name, (#[trigger] decl.members[j]).name),
            false,
            0,
        ) is None && first_intrinsic(
            m.intrinsics,
            setter_name(decl.class_name, decl.members[j].name),
            true,
            0,
        ) is None
}

/// Defining accessors changes neither the classes nor the objects.
pub proof fn lemma_with_accessors_frame(
    m: RuntimeModel,
    decl: ClassDeclModel,
    first_slot: usize,
    count: nat,
)
    ensures
        with_accessors(m, decl, first_slot, count).classes == m.classes,
        with_accessors(m, decl, first_slot, count).objects == m.objects,
    decreases count,
{
    if count != 0 && count <= decl.members.len() {
        lemma_with_accessors_frame(m, decl, first_slot, (count - 1) as nat);
    }
}

/// A function defined last is found only where no earlier one answers.
proof fn lemma_first_intrinsic_push(
    known: Seq<IntrinsicModel>,
    added: IntrinsicModel,
    name: Seq<char>,
    setter: bool,
    from: int,
)
    requires
        0 <= from <= known.len(),
    ensures
        first_intrinsic(known.push(added), name, setter, from) == match first_intrinsic(
            known,
            name,
            setter,
            from,
        ) {
            Some(slot) => Some(slot),
            None => if added.name == name && added.setter == setter {
                Some(added.slot)
            } else {
                None
            },
        },
    decreases known.len() - from,
{
    let longer = known.push(added);
    if from < known.len() {
        assert(longer[from] == known[from]);
        if !(known[from].name == name && known[from].setter == setter) {
            lemma_first_intrinsic_push(known, added, name, setter, from + 1);
        }
    } else {
        assert(longer[from] == added);
        assert(first_intrinsic(longer, name, setter, from + 1) is None);
    }
}

/// Accessors of members with different names have different names.
proof fn lemma_names_injective(class: Seq<char>, a: Seq<char>, b: Seq<char>)
    requires
        a != b,
    ensures
        getter_name(class, a) != getter_name(class, b),
        setter_name(class, a) != setter_name(class, b),
{
    let skip = class.len() + "_get_"@.len();
    if getter_name(class, a) == getter_name(class, b) {
        assert(getter_name(class, a).len() == skip + a.len());
        assert(getter_name(class, b).len() == skip + b.len());
        assert forall|i: int| 0 <= i < a.len() implies a[i] == b[i] by {
            assert(getter_name(class, a)[skip + i] == a[i]);
            assert(getter_name(class, b)[skip + i] == b[i]);
        }
        assert(a =~= b);
    }
    let skip = class.len() + "_set_"@.len();
    if setter_name(class, a) == setter_name(class, b) {
        assert(setter_name(class, a).len() == skip + a.len());
        assert(setter_name(class, b).len() == skip + b.len());
        assert forall|i: int| 0 <= i < a.len() implies a[i] == b[i] by {
            assert(setter_name(class, a)[skip + i] == a[i]);
            assert(setter_name(class, b)[skip + i] == b[i]);
        }
        assert(a =~= b);
    }
}

/// A name that the runtime did not know, and that none of the first `count`
/// members' accessors has, is still unknown once those are defined.
proof fn lemma_accessor_absent(
    m: RuntimeModel,
    decl: ClassDeclModel,
    first_slot: usize,
    count: nat,
    name: Seq<char>,
    setter: bool,
)
    requires
        count <= decl.members.len(),
        first_intrinsic(m.intrinsics, name, setter, 0) is None,
        forall|j: int|
            0 <= j < count ==> name != (if setter {
                setter_name(decl.class_name, (#[trigger] decl.members[j]).name)
            } else {
                getter_name(decl.class_name, decl.members[j].name)
            }),
    ensures
        first_intrinsic(with_accessors(m, decl, first_slot, count).intrinsics, name, setter, 0)
            is None,
    decreases count,
{
    if count != 0 {
        let fewer = (count - 1) as nat;
        let member = decl.members[count - 1];
        let slot = (first_slot + count - 1) as usize;
        let earlier = with_accessors(m, decl, first_slot, fewer);
        lemma_accessor_absent(m, decl, first_slot, fewer, name, setter);
        let getter = IntrinsicModel {
            name: getter_name(decl.class_name, member.name),
            slot,
            setter: false,
        };
        lemma_first_intrinsic_push(earlier.intrinsics, getter, name, setter, 0);
        if member.writable {
            let written = IntrinsicModel {
                name: setter_name(decl.class_name, member.name),
                slot,
                setter: true,
            };
            lemma_first_intrinsic_push(earlier.intrinsics.push(getter), written, name, setter, 0);
        }
    }
}

/// Once the accessors of the first `count` members are defined, the getter
/// of each of them is found and reads the member's slot, and so is the
/// setter of each writable one.
proof fn lemma_accessor_defined(
    m: RuntimeModel,
    decl: ClassDeclModel,
    first_slot: usize,
    count: nat,
    i: int,
)
    requires
        0 <= i < count <= decl.members.len(),
        first_slot + decl.members.len() <= usize::MAX,
        members_distinct(decl),
        accessors_fresh(m, decl),
    ensures
        first_intrinsic(
            with_accessors(m, decl, first_slot, count).intrinsics,
            getter_name(decl.class_name, decl.members[i].name),
            false,
            0,
        ) == Some((first_slot + i) as usize),
        decl.members[i].writable ==> first_intrinsic(
            with_accessors(m, decl, first_slot, count).intrinsics,
            setter_name(decl.class_name, decl.members[i].name),
            true,
            0,
        ) == Some((first_slot + i) as usize),
    decreases count,
{
    let fewer = (count - 1) as nat;
    let member = decl.members[count - 1];
    let slot = (first_slot + count - 1) as usize;
    let earlier = with_accessors(m, decl, first_slot, fewer);
    let read = getter_name(decl.class_name, decl.members[i].name);
    let write = setter_name(decl.class_name, decl.members[i].name);
    let getter = IntrinsicModel {
        name: getter_name(decl.class_name, member.name),
        slot,
        setter: false,
    };
    let written = IntrinsicModel {
        name: setter_name(decl.class_name, member.name),
        slot,
        setter: true,
    };
    if i < count - 1 {
        lemma_accessor_defined(m, decl, first_slot, fewer, i);
    } else {
        assert forall|j: int| 0 <= j < fewer implies read != getter_name(
            decl.class_name,
            (#[trigger] decl.members[j]).name,
        ) && write != setter_name(decl.class_name, decl.members[j].name) by {
            lemma_names_injective(decl.class_name, decl.members[j].name, decl.members[i].name);
        }
        assert(decl.members[i] == member);
        lemma_accessor_absent(m, decl, first_slot, fewer, read, false);
        lemma_accessor_absent(m, decl, first_slot, fewer, write, true);
    }
    lemma_first_intrinsic_push(earlier.intrinsics, getter, read, false, 0);
    lemma_first_intrinsic_push(earlier.intrinsics, getter, write, true, 0);
    if member.writable {
        lemma_first_intrinsic_push(earlier.intrinsics.push(getter), written, read, false, 0);
        lemma_first_intrinsic_push(earlier.intrinsics.push(getter), written, write, true, 0);
    }
}

/// The table of a declaration ends behind its last member.
proof fn lemma_member_table_end(
    decl: ClassDeclModel,
    first_slot: usize,
    mode: AccessorMode,
    from: int,
)
    requires
        0 <= from <= decl.members.len(),
    ensures
        first_end(member_table(decl, first_slot, mode), from) == Some(decl.members.len() as int),
    decreases decl.members.len() - from,
{
    let table = member_table(decl, first_slot, mode);
    if from < decl.members.len() {
        assert(!(table[from].accessor is Absent));
        lemma_member_table_end(decl, first_slot, mode, from + 1);
    } else {
        assert(table[from] == PropertySpecModel::end());
    }
}

/// Registering a declared class with self-hosted accessors gives the class
/// that registering it with native accessors gives, and fails where that
/// fails, with the same error. This holds where the members' names differ
/// and the runtime has no function yet under the accessors' names.
pub proof fn lemma_modes_agree(
    m: RuntimeModel,
    parent_prototype: Option<usize>,
    decl: ClassDeclModel,
)
    requires
        m.wf(),
        members_distinct(decl),
        accessors_fresh(m, decl),
        inherited_slots(m, parent_prototype) + decl.members.len() <= usize::MAX,
    ensures
        match (
            registered(m, parent_prototype, decl, AccessorMode::Native),
            registered(m, parent_prototype, decl, AccessorMode::SelfHosted),
        ) {
            (Ok((native, prototype)), Ok((hosted, other))) => prototype == other && native.classes
                == hosted.classes && native.objects == hosted.objects,
            (Err(e), Err(f)) => e == f,
            _ => false,
        },
{
    let first_slot = inherited_slots(m, parent_prototype);
    let len = decl.members.len();
    let s = prepared(m, parent_prototype, decl, AccessorMode::SelfHosted);
    let dn = descriptor_of(decl, first_slot, AccessorMode::Native);
    let ds = descriptor_of(decl, first_slot, AccessorMode::SelfHosted);
    lemma_with_accessors_frame(m, decl, first_slot, len);
    lemma_member_table_end(decl, first_slot, AccessorMode::Native, 0);
    lemma_member_table_end(decl, first_slot, AccessorMode::SelfHosted, 0);
    let parent = match parent_prototype {
        Some(h) => m.constructor_of(h),
        None => None,
    };
    assert forall|i: int| 0 <= i < len implies (#[trigger] dn.properties[i]).is_entry()
        == ds.properties[i].is_entry() && dn.properties[i].name == ds.properties[i].name by {}
    assert forall|k: FieldKind| m.resolve_kind(k) == s.resolve_kind(k) by {}
    assert(dn.fields == ds.fields);
    let layout = m.new_layout(parent, dn.fields);
    assert(s.new_layout(parent, ds.fields) =~= layout);
    let slots = layout.len() as int;
    assert forall|i: int| 0 <= i < len implies m.resolve_accessor(
        (#[trigger] dn.properties[i]).accessor,
        slots,
    ) == s.resolve_accessor(ds.properties[i].accessor, slots) by {
        lemma_accessor_defined(m, decl, first_slot, len, i);
    }
    let native_props = Seq::new(len, |i: int| m.resolve_property(dn.properties[i], slots));
    let hosted_props = Seq::new(len, |i: int| s.resolve_property(ds.properties[i], slots));
    assert(native_props =~= hosted_props) by {
        assert forall|i: int| 0 <= i < len implies native_props[i] == hosted_props[i] by {
            assert(m.resolve_accessor(dn.properties[i].accessor, slots) == s.resolve_accessor(
                ds.properties[i].accessor,
                slots,
            ));
        }
    }
    assert(entries_well_formed(dn.properties, len as int)
        == entries_well_formed(ds.properties, len as int)) by {
        if entries_well_formed(dn.properties, len as int) {
            assert forall|i: int| 0 <= i < len implies (#[trigger] ds.properties[i]).is_entry() by {
                assert(dn.properties[i].is_entry());
            }
        }
        if entries_well_formed(ds.properties, len as int) {
            assert forall|i: int| 0 <= i < len implies (#[trigger] dn.properties[i]).is_entry() by {
                assert(ds.properties[i].is_entry());
            }
        }
    }
    assert(names_distinct(dn.properties, len as int)
        == names_distinct(ds.properties, len as int)) by {
        if names_distinct(dn.properties, len as int) {
            assert forall|i: int, j: int| 0 <= i < j < len implies (
            #[trigger] ds.properties[i]).name != (#[trigger] ds.properties[j]).name by {
                assert(dn.properties[i].name != dn.properties[j].name);
            }
        }
        if names_distinct(ds.properties, len as int) {
            assert forall|i: int, j: int| 0 <= i < j < len implies (
            #[trigger] dn.properties[i]).name != (#[trigger] dn.properties[j]).name by {
                assert(ds.properties[i].name != ds.properties[j].name);
            }
        }
    }
    let native_fails = exists|i: int|
        0 <= i < len && m.resolve_accessor((#[trigger] dn.properties[i]).accessor, slots) is None;
    let hosted_fails = exists|i: int|
        0 <= i < len && s.resolve_accessor((#[trigger] ds.properties[i]).accessor, slots) is None;
    assert(native_fails == hosted_fails) by {
        if native_fails {
            let i = choose|i: int|
                0 <= i < len && m.resolve_accessor(
                    (#[trigger] dn.properties[i]).accessor,
                    slots,
                ) is None;
            assert(s.resolve_accessor(ds.properties[i].accessor, slots) is None);
        }
        if hosted_fails {
            let i = choose|i: int|
                0 <= i < len && s.resolve_accessor(
                    (#[trigger] ds.properties[i]).accessor,
                    slots,
                ) is None;
            assert(m.resolve_accessor(dn.properties[i].accessor, slots) is None);
        }
    }
    let native_unknown = exists|i: int|
        0 <= i < dn.fields.len() && m.resolve_kind(#[trigger] dn.fields[i]) is None;
    let hosted_unknown = exists|i: int|
        0 <= i < ds.fields.len() && s.resolve_kind(#[trigger] ds.fields[i]) is None;
    assert(native_unknown == hosted_unknown);
}

} // verus!
