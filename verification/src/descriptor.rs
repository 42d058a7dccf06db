//! Descriptors and the descriptor records of the call-frame ABI.
//!
//! A kernel-visible handle is a plain integer to this library; owning,
//! duplicating and closing it is the business of the code around the
//! library. What is verified here is the bookkeeping: how raw descriptors
//! and the descriptor records of the kernel's call-argument structure are
//! built from one another, and the sizing policy for response buffers.

use vstd::prelude::*;

verus! {

/// Marks a descriptor record as carrying a descriptor.
pub const DOOR_DESCRIPTOR: u32 = 0x10000;

/// Marks a transferred descriptor to be closed on the sending side once the
/// call completes.
pub const DOOR_RELEASE: u32 = 0x40000;

/// Forbids clients of a door from transferring descriptors to it.
pub const DOOR_REFUSE_DESC: u32 = 0x40;

/// Not a file, just a descriptor: a single-owner reference to a kernel
/// object, released by the code that owns the kernel boundary.
#[derive(Debug)]
pub struct Descriptor {
    pub raw_fd: i32,
}

impl Descriptor {
    /// The raw value, for calls that need a plain integer descriptor.
    pub fn as_c_int(&self) -> (r: i32)
        ensures
            r == self.raw_fd,
    {
        self.raw_fd
    }
}

impl From<i32> for Descriptor {
    /// Keep track of a descriptor created through other means.
    fn from(raw_fd: i32) -> (r: Self) {
        Descriptor { raw_fd }
    }
}

impl vstd::std_specs::convert::FromSpecImpl<i32> for Descriptor {
    open spec fn obeys_from_spec() -> bool {
        true
    }

    open spec fn from_spec(raw_fd: i32) -> Self {
        Descriptor { raw_fd }
    }
}

/// One descriptor record of the kernel's call-argument structure, with the
/// nested union flattened to its only used member: the attribute word, the
/// descriptor, and the kernel-assigned identifier.
#[derive(Clone, Copy, Debug, PartialEq, Eq, Structural)]
pub struct DoorDescriptor {
    pub d_attributes: u32,
    pub d_descriptor: i32,
    pub d_id: u64,
}

/// The descriptor record wrapping `raw`: marked as a descriptor, and marked
/// for release when the transfer should close it on completion.
pub open spec fn spec_door_descriptor(raw: i32, release: bool) -> DoorDescriptor {
    DoorDescriptor {
        d_attributes: if release {
            DOOR_DESCRIPTOR | DOOR_RELEASE
        } else {
            DOOR_DESCRIPTOR
        },
        d_descriptor: raw,
        d_id: 0,
    }
}

impl DoorDescriptor {
    /// Wrap a raw descriptor for transfer through a call frame.
    pub fn new(raw: i32, release: bool) -> (r: Self)
        ensures
            r == spec_door_descriptor(raw, release),
    {
        let d_attributes = if release {
            DOOR_DESCRIPTOR | DOOR_RELEASE
        } else {
            DOOR_DESCRIPTOR
        };
        DoorDescriptor { d_attributes, d_descriptor: raw, d_id: 0 }
    }

    /// Whether the transfer will close this descriptor once the call
    /// completes.
    pub fn will_release(&self) -> (r: bool)
        ensures
            r == (self.d_attributes == DOOR_DESCRIPTOR | DOOR_RELEASE),
    {
        self.d_attributes == (DOOR_DESCRIPTOR | DOOR_RELEASE)
    }

    /// The raw descriptor inside the record.
    pub fn as_raw_fd(&self) -> (r: i32)
        ensures
            r == self.d_descriptor,
    {
        self.d_descriptor
    }
}

/// The raw descriptors of a run of descriptor records, in order.
pub open spec fn spec_descs_to_raw(ds: Seq<DoorDescriptor>) -> Seq<i32> {
    ds.map_values(|d: DoorDescriptor| d.d_descriptor)
}

/// The descriptor records wrapping a run of raw descriptors, in order.
pub open spec fn spec_raw_to_descs(raws: Seq<i32>, release: bool) -> Seq<DoorDescriptor> {
    raws.map_values(|r: i32| spec_door_descriptor(r, release))
}

/// Unwrap each record of a call frame's descriptor array.
pub fn descriptors_to_raw(ds: &Vec<DoorDescriptor>) -> (r: Vec<i32>)
    ensures
        r@ == spec_descs_to_raw(ds@),
{
    let mut r: Vec<i32> = Vec::new();
    let mut i: usize = 0;
    while i < ds.len()
        invariant
            i <= ds@.len(),
            r@ =~= spec_descs_to_raw(ds@).take(i as int),
        decreases ds@.len() - i,
    {
        r.push(ds[i].d_descriptor);
        assert(r@ =~= spec_descs_to_raw(ds@).take(i + 1));
        i = i + 1;
    }
    assert(r@ =~= spec_descs_to_raw(ds@));
    r
}

/// Wrap each raw descriptor for transfer through a call frame.
pub fn raw_to_descriptors(raws: &Vec<i32>, release: bool) -> (r: Vec<DoorDescriptor>)
    ensures
        r@ == spec_raw_to_descs(raws@, release),
{
    let mut r: Vec<DoorDescriptor> = Vec::new();
    let mut i: usize = 0;
    while i < raws.len()
        invariant
            i <= raws@.len(),
            r@ =~= spec_raw_to_descs(raws@, release).take(i as int),
        decreases raws@.len() - i,
    {
        r.push(DoorDescriptor::new(raws[i], release));
        assert(r@ =~= spec_raw_to_descs(raws@, release).take(i + 1));
        i = i + 1;
    }
    assert(r@ =~= spec_raw_to_descs(raws@, release));
    r
}

/// Wrapping raw descriptors into records and unwrapping them again hands
/// back exactly the descriptors that went in, in order, whatever the release
/// marking.
pub proof fn lemma_descriptor_round_trip(raws: Seq<i32>, release: bool)
    ensures
        spec_descs_to_raw(spec_raw_to_descs(raws, release)) == raws,
{
    assert(spec_descs_to_raw(spec_raw_to_descs(raws, release)) =~= raws);
}

/// The size a response buffer starts at.
pub const INITIAL_RESPONSE_SIZE: usize = 4096;

/// The size to allocate for a response area: a generous fixed floor, grown
/// to exactly the size the kernel reported when the floor was too small.
/// Pass zero before the first attempt.
pub fn response_buffer_size(needed: usize) -> (r: usize)
    ensures
        r == if needed > INITIAL_RESPONSE_SIZE {
            needed
        } else {
            INITIAL_RESPONSE_SIZE
        },
        r >= needed,
{
    if needed > INITIAL_RESPONSE_SIZE {
        needed
    } else {
        INITIAL_RESPONSE_SIZE
    }
}

} // verus!
