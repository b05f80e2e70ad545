//! Buffers for structured cloning.
//!
//! A [`StructuredCloneBuffer`] owns the bytes of one serialized value. Its
//! scope, a type that is never instantiated with data, decides whether the
//! buffer may be moved to another thread.

use std::marker::PhantomData;
use std::rc::Rc;
use vstd::prelude::*;
use vstd::slice::*;
use crate::value::{Value, ValueModel};
use crate::wire::{
    cloneable, decode, decode_value, encodable, encode, encode_value,
    lemma_cloneable_without_objects, lemma_decode_encode, lemma_encode_decode,
};

verus! {

/// How far a structured clone travels.
#[derive(Clone, Copy, Debug, PartialEq, Eq)]
pub enum ScopeTag {
    SameProcessSameThread,
    SameProcessDifferentThread,
    DifferentProcess,
}

/// The scope of a structured clone buffer.
pub trait StructuredCloneScope {
    /// The tag that this scope stands for.
    spec fn tag() -> ScopeTag;

    /// The scope as a value.
    fn raw() -> (tag: ScopeTag)
        ensures
            tag == Self::tag(),
    ;
}

/// A structured clone within this thread. Not `Send`.
#[derive(Clone, Copy, Debug, PartialEq, Eq)]
pub struct SameProcessSameThread(PhantomData<Rc<()>>);

impl StructuredCloneScope for SameProcessSameThread {
    open spec fn tag() -> ScopeTag {
        ScopeTag::SameProcessSameThread
    }

    fn raw() -> (tag: ScopeTag) {
        ScopeTag::SameProcessSameThread
    }
}

/// A structured clone that crosses thread boundaries within the same process.
#[derive(Clone, Copy, Debug, PartialEq, Eq)]
pub struct SameProcessDifferentThread;

impl StructuredCloneScope for SameProcessDifferentThread {
    open spec fn tag() -> ScopeTag {
        ScopeTag::SameProcessDifferentThread
    }

    fn raw() -> (tag: ScopeTag) {
        ScopeTag::SameProcessDifferentThread
    }
}

/// A structured clone that crosses process boundaries.
#[derive(Clone, Copy, Debug, PartialEq, Eq)]
pub struct DifferentProcess;

impl StructuredCloneScope for DifferentProcess {
    open spec fn tag() -> ScopeTag {
        ScopeTag::DifferentProcess
    }

    fn raw() -> (tag: ScopeTag) {
        ScopeTag::DifferentProcess
    }
}

/// What the host is prepared to do for values that the format cannot carry by
/// itself.
#[derive(Clone, Copy, Debug, PartialEq, Eq)]
pub struct StructuredCloneCallbacks {
    /// Object references may be written, as their handles.
    pub writes_objects: bool,
    /// Object references may be read back.
    pub reads_objects: bool,
}

/// Why a buffer operation failed.
#[derive(Clone, Copy, Debug, PartialEq, Eq)]
pub enum CloneError {
    /// The value holds an object reference that the callbacks do not carry.
    NotCloneable,
    /// The buffer does not hold the encoding of exactly one value that the
    /// callbacks can read.
    Malformed,
    /// The buffer cannot grow by that much.
    OutOfMemory,
}

/// The contents of a buffer after `v` was written with `callbacks`, where
/// that succeeds.
pub open spec fn written(v: ValueModel, callbacks: StructuredCloneCallbacks) -> Option<Seq<u8>> {
    if cloneable(v, callbacks.writes_objects) {
        Some(encode(v))
    } else {
        None
    }
}

/// The value read with `callbacks` from a buffer that holds `contents`, where
/// that succeeds.
pub open spec fn read_back(contents: Seq<u8>, callbacks: StructuredCloneCallbacks) -> Option<
    ValueModel,
> {
    decode(contents, callbacks.reads_objects)
}

/// An owned buffer for structured cloning into and out of.
#[derive(Debug)]
pub struct StructuredCloneBuffer<'a, S> {
    data: Vec<u8>,
    callbacks: &'a StructuredCloneCallbacks,
    scope: PhantomData<S>,
}

impl<'a, S> View for StructuredCloneBuffer<'a, S> {
    type V = Seq<u8>;

    /// The bytes that the buffer holds.
    closed spec fn view(&self) -> Seq<u8> {
        self.data@
    }
}

impl<'a, S> StructuredCloneBuffer<'a, S> where S: StructuredCloneScope {
    /// The callbacks that the buffer reads with.
    pub closed spec fn callbacks(&self) -> StructuredCloneCallbacks {
        *self.callbacks
    }

    /// Construct a new, empty `StructuredCloneBuffer`.
    pub fn new(callbacks: &'a StructuredCloneCallbacks) -> (buffer: Self)
        ensures
            buffer@ == Seq::<u8>::empty(),
            buffer.callbacks() == *callbacks,
    {
        StructuredCloneBuffer { data: Vec::new(), callbacks, scope: PhantomData }
    }

    /// The scope that the buffer was made for.
    pub fn scope(&self) -> (tag: ScopeTag)
        ensures
            tag == S::tag(),
    {
        S::raw()
    }

    /// The bytes owned by this buffer.
    pub fn data(&self) -> (bytes: &Vec<u8>)
        ensures
            bytes@ == self@,
    {
        &self.data
    }

    /// Copy this buffer's data into a vec.
    pub fn copy_to_vec(&self) -> (copy: Vec<u8>)
        ensures
            copy@ == self@,
    {
        slice_to_vec(self.data.as_slice())
    }

    /// Read a value out of this buffer into `vp`. The buffer keeps its
    /// contents; where they cannot be read, `vp` keeps its value.
    pub fn read(&mut self, vp: &mut Value) -> (r: Result<(), CloneError>)
        ensures
            final(self)@ == old(self)@,
            final(self).callbacks() == old(self).callbacks(),
            match read_back(old(self)@, old(self).callbacks()) {
                Some(v) => r is Ok && final(vp)@ == v,
                None => r == Err::<(), CloneError>(CloneError::Malformed) && final(vp)@ == old(vp)@,
            },
    {
        match decode_value(self.data.as_slice(), 0, self.callbacks.reads_objects) {
            Some((v, end)) => {
                if end == self.data.len() {
                    *vp = v;
                    Ok(())
                } else {
                    Err(CloneError::Malformed)
                }
            },
            None => Err(CloneError::Malformed),
        }
    }

    /// Write a value into this buffer, in place of what it held. Where the
    /// value cannot be written, the buffer keeps its contents.
    pub fn write(&mut self, v: &Value, callbacks: &StructuredCloneCallbacks) -> (r: Result<
        (),
        CloneError,
    >)
        ensures
            final(self).callbacks() == old(self).callbacks(),
            match written(v@, *callbacks) {
                Some(contents) => r is Ok && final(self)@ == contents && encodable(v@),
                None => r == Err::<(), CloneError>(CloneError::NotCloneable) && final(self)@ == old(
                    self,
                )@,
            },
    {
        let mut scratch: Vec<u8> = Vec::new();
        if encode_value(v, callbacks.writes_objects, &mut scratch) {
            assert(scratch@ =~= encode(v@));
            self.data = scratch;
            Ok(())
        } else {
            Err(CloneError::NotCloneable)
        }
    }

    /// Copy the given slice behind what this buffer holds. A buffer holds at
    /// most `isize::MAX` bytes; where the slice would take it over that, the
    /// buffer keeps its contents.
    pub fn write_bytes(&mut self, bytes: &[u8]) -> (r: Result<(), CloneError>)
        ensures
            final(self).callbacks() == old(self).callbacks(),
            if old(self)@.len() + bytes@.len() <= isize::MAX {
                r is Ok && final(self)@ == old(self)@ + bytes@
            } else {
                r == Err::<(), CloneError>(CloneError::OutOfMemory) && final(self)@ == old(self)@
            },
    {
        let limit: usize = isize::MAX as usize;
        let held = self.data.len();
        if held > limit || bytes.len() > limit - held {
            return Err(CloneError::OutOfMemory);
        }
        let mut more = slice_to_vec(bytes);
        self.data.append(&mut more);
        Ok(())
    }

    /// Give the buffer up. A buffer is released once: by this call, or when
    /// it goes out of scope.
    pub fn release(self) {
    }
}

/// A value that was written into a buffer is the value that is read from it,
/// whenever the reading callbacks can carry it.
pub proof fn lemma_write_then_read(
    v: ValueModel,
    writer: StructuredCloneCallbacks,
    reader: StructuredCloneCallbacks,
)
    requires
        encodable(v),
        written(v, writer) is Some,
        cloneable(v, reader.reads_objects),
    ensures
        read_back(written(v, writer)->Some_0, reader) == Some(v),
{
    lemma_decode_encode(v, reader.reads_objects);
}

/// A value that was read from a buffer, written into a buffer again, gives
/// the contents that it was read from, whenever the writing callbacks carry
/// what the reading ones do.
pub proof fn lemma_read_then_write(
    contents: Seq<u8>,
    reader: StructuredCloneCallbacks,
    writer: StructuredCloneCallbacks,
)
    requires
        read_back(contents, reader) is Some,
        reader.reads_objects ==> writer.writes_objects,
    ensures
        written(read_back(contents, reader)->Some_0, writer) == Some(contents),
{
    lemma_encode_decode(contents, reader.reads_objects);
    if !reader.reads_objects {
        lemma_cloneable_without_objects(read_back(contents, reader)->Some_0);
    }
}

} // verus!
