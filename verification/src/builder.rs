//! Class descriptors from declarations.
//!
//! A declaration lists the members of a class: each is a field of the native
//! record and a property of the same name that reads it, and for a writable
//! member also writes it. The property table and the self-hosted accessors
//! follow from the declaration.

use vstd::prelude::*;
use vstd::string::*;
use crate::class::{ClassDescriptor, ClassDescriptorModel, FieldKind};
use crate::error::RegistrationError;
use crate::method::{method_table_view, optional_table_view, MethodSpec, MethodSpecModel};
use crate::model::RuntimeModel;
use crate::property::{
    table_view, AccessorMode, AccessorModel, PropertySpec, PropertySpecModel, JSPROP_ENUMERATE,
    JSPROP_PERMANENT,
};
use crate::runtime::Runtime;

verus! {

/// A member of a class.
#[derive(Debug, PartialEq, Eq)]
pub struct Member {
    pub name: String,
    pub kind: FieldKind,
    pub writable: bool,
}

/// What a [`Member`] denotes.
pub struct MemberModel {
    pub name: Seq<char>,
    pub kind: FieldKind,
    pub writable: bool,
}

impl View for Member {
    type V = MemberModel;

    open spec fn view(&self) -> MemberModel {
        MemberModel { name: self.name@, kind: self.kind, writable: self.writable }
    }
}

impl Member {
    /// A member that scripts can read.
    pub fn read_only(name: &str, kind: FieldKind) -> (member: Member)
        ensures
            member@ == (MemberModel { name: name@, kind, writable: false }),
    {
        Member { name: name.to_owned(), kind, writable: false }
    }

    /// A member that scripts can read and assign to.
    pub fn writable(name: &str, kind: FieldKind) -> (member: Member)
        ensures
            member@ == (MemberModel { name: name@, kind, writable: true }),
    {
        Member { name: name.to_owned(), kind, writable: true }
    }
}

/// The declaration of a class: its name, its own members in the order of
/// the constructor's arguments, and its method table if it has one.
#[derive(Debug, PartialEq, Eq)]
pub struct ClassDecl {
    pub class_name: String,
    pub members: Vec<Member>,
    pub methods: Option<Vec<MethodSpec>>,
}

/// What a [`ClassDecl`] denotes.
pub struct ClassDeclModel {
    pub class_name: Seq<char>,
    pub members: Seq<MemberModel>,
    pub methods: Option<Seq<MethodSpecModel>>,
}

impl View for ClassDecl {
    type V = ClassDeclModel;

    open spec fn view(&self) -> ClassDeclModel {
        ClassDeclModel {
            class_name: self.class_name@,
            members: Seq::new(self.members@.len(), |i: int| self.members@[i]@),
            methods: optional_table_view(self.methods),
        }
    }
}

/// The flags of a member's property: it is enumerated and cannot be deleted.
pub open spec fn member_flags() -> u8 {
    JSPROP_ENUMERATE | JSPROP_PERMANENT
}

/// The name of the self-hosted function that reads a member.
pub open spec fn getter_name(class: Seq<char>, member: Seq<char>) -> Seq<char> {
    class + "_get_"@ + member
}

/// The name of the self-hosted function that writes a member.
pub open spec fn setter_name(class: Seq<char>, member: Seq<char>) -> Seq<char> {
    class + "_set_"@ + member
}

/// The accessor of a member that lives in slot `slot`.
pub open spec fn member_accessor(
    class: Seq<char>,
    member: MemberModel,
    slot: usize,
    mode: AccessorMode,
) -> AccessorModel {
    match mode {
        AccessorMode::Native => if member.writable {
            AccessorModel::NativeGetterSetter(slot)
        } else {
            AccessorModel::NativeGetter(slot)
        },
        AccessorMode::SelfHosted => if member.writable {
            AccessorModel::SelfHostedGetterSetter(
                getter_name(class, member.name),
                setter_name(class, member.name),
            )
        } else {
            AccessorModel::SelfHostedGetter(getter_name(class, member.name))
        },
    }
}

/// The table entry of a member that lives in slot `slot`.
pub open spec fn member_entry(
    class: Seq<char>,
    member: MemberModel,
    slot: usize,
    mode: AccessorMode,
) -> PropertySpecModel {
    PropertySpecModel {
        name: member.name,
        flags: member_flags(),
        accessor: member_accessor(class, member, slot, mode),
    }
}

/// The property table of a declared class whose own members start at slot
/// `first_slot`: one entry for each member, then the end entry.
pub open spec fn member_table(decl: ClassDeclModel, first_slot: usize, mode: AccessorMode) -> Seq<
    PropertySpecModel,
> {
    Seq::new(
        decl.members.len() + 1,
        |i: int|
            if i < decl.members.len() {
                member_entry(decl.class_name, decl.members[i], (first_slot + i) as usize, mode)
            } else {
                PropertySpecModel::end()
            },
    )
}

/// The descriptor of a declared class.
pub open spec fn descriptor_of(decl: ClassDeclModel, first_slot: usize, mode: AccessorMode)
    -> ClassDescriptorModel {
    ClassDescriptorModel {
        class_name: decl.class_name,
        fields: Seq::new(decl.members.len(), |i: int| decl.members[i].kind),
        properties: member_table(decl, first_slot, mode),
        methods: decl.methods,
    }
}

/// The state of a runtime after the self-hosted accessors of the first
/// `count` members were defined: for each member its getter, and for a
/// writable member its setter behind that.
pub open spec fn with_accessors(
    m: RuntimeModel,
    decl: ClassDeclModel,
    first_slot: usize,
    count: nat,
) -> RuntimeModel
    decreases count,
{
    if count == 0 || count > decl.members.len() {
        m
    } else {
        let member = decl.members[count - 1];
        let slot = (first_slot + count - 1) as usize;
        let read = with_accessors(m, decl, first_slot, (count - 1) as nat).define_self_hosted(
            getter_name(decl.class_name, member.name),
            slot,
            false,
        );
        if member.writable {
            read.define_self_hosted(setter_name(decl.class_name, member.name), slot, true)
        } else {
            read
        }
    }
}

fn accessor_name(class: &str, infix: &str, member: &str) -> (name: String)
    ensures
        name@ == class@ + infix@ + member@,
{
    let mut name = class.to_owned();
    name.append(infix);
    name.append(member);
    name
}

/// The table entry of a member that lives in slot `slot`.
pub fn member_spec(class: &str, member: &Member, slot: usize, mode: AccessorMode) -> (spec:
    PropertySpec)
    ensures
        spec@ == member_entry(class@, member@, slot, mode),
{
    let flags: u8 = JSPROP_ENUMERATE | JSPROP_PERMANENT;
    let name = member.name.as_str();
    match mode {
        AccessorMode::Native => if member.writable {
            PropertySpec::getter_setter(name, flags, slot)
        } else {
            PropertySpec::getter(name, flags, slot)
        },
        AccessorMode::SelfHosted => {
            let getter = accessor_name(class, "_get_", name);
            if member.writable {
                let setter = accessor_name(class, "_set_", name);
                PropertySpec::getter_setter_selfhosted(
                    name,
                    flags,
                    getter.as_str(),
                    setter.as_str(),
                )
            } else {
                PropertySpec::getter_selfhosted(name, flags, getter.as_str())
            }
        },
    }
}

/// Builds the property table of a declared class whose own members start at
/// slot `first_slot`.
pub fn property_table(decl: &ClassDecl, first_slot: usize, mode: AccessorMode) -> (table: Vec<
    PropertySpec,
>)
    requires
        first_slot + decl.members@.len() <= usize::MAX,
    ensures
        table_view(table@) == member_table(decl@, first_slot, mode),
{
    let mut table: Vec<PropertySpec> = Vec::new();
    let mut i: usize = 0;
    while i < decl.members.len()
        invariant
            first_slot + decl.members@.len() <= usize::MAX,
            i <= decl.members@.len(),
            table@.len() == i,
            forall|j: int|
                0 <= j < i ==> (#[trigger] table@[j])@ == member_entry(
                    decl@.class_name,
                    decl@.members[j],
                    (first_slot + j) as usize,
                    mode,
                ),
        decreases decl.members.len() - i,
    {
        let spec = member_spec(decl.class_name.as_str(), &decl.members[i], first_slot + i, mode);
        table.push(spec);
        i += 1;
    }
    table.push(PropertySpec::end_spec());
    assert(table_view(table@) =~= member_table(decl@, first_slot, mode));
    table
}

/// Builds the descriptor of a declared class whose own members start at slot
/// `first_slot`.
pub fn class_descriptor(decl: &ClassDecl, first_slot: usize, mode: AccessorMode) -> (descriptor:
    ClassDescriptor)
    requires
        first_slot + decl.members@.len() <= usize::MAX,
    ensures
        descriptor@ == descriptor_of(decl@, first_slot, mode),
{
    let mut fields: Vec<FieldKind> = Vec::new();
    let mut i: usize = 0;
    while i < decl.members.len()
        invariant
            i <= decl.members@.len(),
            fields@.len() == i,
            forall|j: int| 0 <= j < i ==> fields@[j] == decl@.members[j].kind,
        decreases decl.members.len() - i,
    {
        fields.push(decl.members[i].kind);
        i += 1;
    }
    let properties = property_table(decl, first_slot, mode);
    let methods = match &decl.methods {
        Some(table) => {
            let mut copies: Vec<MethodSpec> = Vec::new();
            let mut i: usize = 0;
            while i < table.len()
                invariant
                    i <= table@.len(),
                    copies@.len() == i,
                    forall|j: int| 0 <= j < i ==> (#[trigger] copies@[j])@ == table@[j]@,
                decreases table.len() - i,
            {
                copies.push(table[i].duplicate());
                i += 1;
            }
            assert(method_table_view(copies@) =~= method_table_view(table@));
            Some(copies)
        },
        None => None,
    };
    let descriptor = ClassDescriptor {
        class_name: decl.class_name.clone(),
        fields,
        properties,
        methods,
    };
    assert(descriptor@.fields =~= descriptor_of(decl@, first_slot, mode).fields);
    descriptor
}

/// Defines the self-hosted accessors of a declared class whose own members
/// start at slot `first_slot`.
pub fn define_accessors(runtime: &mut Runtime, decl: &ClassDecl, first_slot: usize)
    requires
        old(runtime)@.wf(),
        first_slot + decl.members@.len() <= usize::MAX,
    ensures
        final(runtime)@.wf(),
        final(runtime)@ == with_accessors(
            old(runtime)@,
            decl@,
            first_slot,
            decl@.members.len(),
        ),
{
    let ghost before = runtime@;
    let mut i: usize = 0;
    while i < decl.members.len()
        invariant
            first_slot + decl.members@.len() <= usize::MAX,
            i <= decl.members@.len(),
            runtime@.wf(),
            runtime@ == with_accessors(before, decl@, first_slot, i as nat),
        decreases decl.members.len() - i,
    {
        let class = decl.class_name.as_str();
        let member = &decl.members[i];
        let getter = accessor_name(class, "_get_", member.name.as_str());
        runtime.define_self_hosted(getter.as_str(), first_slot + i, false);
        if member.writable {
            let setter = accessor_name(class, "_set_", member.name.as_str());
            runtime.define_self_hosted(setter.as_str(), first_slot + i, true);
        }
        i += 1;
    }
}

/// The number of slots that a class below `parent_prototype` inherits.
pub open spec fn inherited_slots(m: RuntimeModel, parent_prototype: Option<usize>) -> usize {
    match parent_prototype {
        Some(h) => match m.record_len(h) {
            Some(n) => n,
            None => 0,
        },
        None => 0,
    }
}

/// The state in which a declared class is registered: in self-hosted mode,
/// the one in which its accessors are defined.
pub open spec fn prepared(
    m: RuntimeModel,
    parent_prototype: Option<usize>,
    decl: ClassDeclModel,
    mode: AccessorMode,
) -> RuntimeModel {
    match mode {
        AccessorMode::Native => m,
        AccessorMode::SelfHosted => with_accessors(
            m,
            decl,
            inherited_slots(m, parent_prototype),
            decl.members.len(),
        ),
    }
}

/// What registering a declared class below `parent_prototype` gives.
pub open spec fn registered(
    m: RuntimeModel,
    parent_prototype: Option<usize>,
    decl: ClassDeclModel,
    mode: AccessorMode,
) -> Result<(RuntimeModel, usize), RegistrationError> {
    prepared(m, parent_prototype, decl, mode).register_class(
        parent_prototype,
        descriptor_of(decl, inherited_slots(m, parent_prototype), mode),
    )
}

/// Registers a declared class below the class with prototype
/// `parent_prototype`, its own members in the slots behind the inherited
/// ones. In self-hosted mode the accessors are defined first, and stay
/// defined where the registration fails.
pub fn register(
    runtime: &mut Runtime,
    parent_prototype: Option<usize>,
    decl: &ClassDecl,
    mode: AccessorMode,
) -> (r: Result<usize, RegistrationError>)
    requires
        old(runtime)@.wf(),
        inherited_slots(old(runtime)@, parent_prototype) + decl.members@.len() <= usize::MAX,
    ensures
        final(runtime)@.wf(),
        match registered(old(runtime)@, parent_prototype, decl@, mode) {
            Ok((after, prototype)) => final(runtime)@ == after && r == Ok::<
                usize,
                RegistrationError,
            >(prototype),
            Err(e) => final(runtime)@ == prepared(old(runtime)@, parent_prototype, decl@, mode)
                && r == Err::<usize, RegistrationError>(e),
        },
{
    let first_slot: usize = match parent_prototype {
        Some(h) => match runtime.record_len(h) {
            Some(n) => n,
            None => 0,
        },
        None => 0,
    };
    match mode {
        AccessorMode::Native => {},
        AccessorMode::SelfHosted => {
            define_accessors(runtime, decl, first_slot);
        },
    }
    let descriptor = class_descriptor(decl, first_slot, mode);
    runtime.register_class(parent_prototype, &descriptor)
}

} // verus!
