//! The fragment/index data model.
//!
//! An index owns an ordered sequence of fragments.  Each fragment describes a
//! contiguous byte range (its geometry, in the coordinate space anchored by
//! the fragment named "main") together with the physical location of a copy
//! of those bytes and the digests recorded for them.

use vstd::prelude::*;

verus! {

/// A position in the shared 64-bit byte coordinate space.
pub type Offset = u64;

/// A half-open byte range `[start, end)`; well-formed iff `end >= start`.
#[derive(Clone, Copy, Debug, PartialEq, Eq, Structural)]
pub struct Slice {
    pub start: Offset,
    pub end: Offset,
}

impl Slice {
    /// Well-formedness: the range does not run backwards.
    pub open spec fn wf(self) -> bool {
        self.start <= self.end
    }

    pub open spec fn spec_len(self) -> int {
        self.end - self.start
    }

    /// Whether point `p` of the coordinate space lies inside the range.
    pub open spec fn spec_contains(self, p: int) -> bool {
        self.start <= p < self.end
    }

    pub fn len(&self) -> (r: u64)
        requires
            self.wf(),
        ensures
            r == self.spec_len(),
    {
        self.end - self.start
    }
}

/// Free-form identification of an entity: an ordered set of aliases and an
/// ordered list of annotations.  Never interpreted beyond alias lookup.
#[derive(Debug)]
pub struct Meta {
    pub name: Vec<String>,
    pub comment: Vec<String>,
}

impl Meta {
    pub open spec fn spec_is_named(self, name: Seq<char>) -> bool {
        exists|i: int| 0 <= i < self.name@.len() && self.name@[i]@ == name
    }

    pub fn is_named(&self, name: &str) -> (r: bool)
        ensures
            r == self.spec_is_named(name@),
    {
        let target: String = name.to_owned();
        let mut i: usize = 0;
        while i < self.name.len()
            invariant
                i <= self.name@.len(),
                target@ == name@,
                forall|j: int| 0 <= j < i ==> self.name@[j]@ != name@,
            decreases self.name@.len() - i,
        {
            if self.name[i] == target {
                return true;
            }
            i = i + 1;
        }
        false
    }
}

/// The digest algorithms an index entry may record.
#[derive(Clone, Copy, Debug, Hash, PartialEq, Eq, Structural)]
pub enum HashIdentifier {
    Sha3_256,
}

/// Provenance descriptor for a physical hard drive.  Opaque annotation.
#[derive(Debug)]
pub struct Harddrive {
    pub model: Option<String>,
    pub serial: Option<String>,
    pub device_id: Option<String>,
}

/// Provenance descriptor for a GPT partition table.  Opaque annotation.
#[derive(Debug)]
pub struct GPTPartitionTable {
    pub guid: Option<String>,
    pub drive: Option<Harddrive>,
}

/// Provenance descriptor for a GPT partition.  Opaque annotation.
#[derive(Debug)]
pub struct GPTPartition {
    pub name: Option<String>,
    pub guid: Option<String>,
    pub no: Option<u32>,
    pub table: Option<GPTPartitionTable>,
}

/// Provenance descriptor for an MBR partition table.  Opaque annotation.
#[derive(Debug)]
pub struct MBRPartitionTable {
    pub disk_signature: Option<String>,
    pub drive: Option<Harddrive>,
}

/// Provenance descriptor for an MBR partition.  Opaque annotation.
#[derive(Debug)]
pub struct MBRPartition {
    pub guid: Option<String>,
    pub table: Option<MBRPartitionTable>,
}

/// Provenance descriptor for a ZFS pool.  Opaque annotation.
#[derive(Debug)]
pub struct Zpool {
    pub name: Option<String>,
    pub guid: Option<String>,
    pub load_guid: Option<String>,
    pub device: Option<Device>,
}

/// Provenance descriptor for a ZFS volume.  Opaque annotation.
#[derive(Debug)]
pub struct Zvol {
    pub name: Option<String>,
    pub guid: Option<String>,
}

/// Provenance descriptor for a tape cartridge.  Opaque annotation.
#[derive(Debug)]
pub struct Tape {
    pub barcode: Option<String>,
    pub serial: Option<String>,
}

/// Provenance descriptor for a file on a tape.  Opaque annotation.
#[derive(Debug)]
pub struct TapeFile {
    pub no: Option<u32>,
    pub tape: Option<Tape>,
}

/// The closed set of device provenance descriptors.
#[derive(Debug)]
pub enum Device {
    Harddrive(Harddrive),
    MBRPartition(MBRPartition),
    GPTPartition(GPTPartition),
    Zvol(Zvol),
    Tape(Tape),
    TapeFile(TapeFile),
}

/// A location that is a file, addressed by path, optionally annotated with
/// the device the file lives on.
#[derive(Debug)]
pub struct File {
    pub device: Option<Device>,
    pub path: String,
}

impl File {
    pub fn as_location_data(self) -> (r: LocationData)
        ensures
            r == LocationData::File(self),
    {
        LocationData::File(self)
    }

    pub fn as_location(self) -> (r: Location)
        ensures
            r.data == LocationData::File(self),
            r.slice is None,
    {
        self.as_location_data().as_location()
    }
}

/// A location addressed by URI.
#[derive(Debug)]
pub struct URI {
    pub uri: String,
}

/// A location meaning the index buffer itself.
#[derive(Debug)]
pub struct ThisBuffer;

/// The closed set of places a copy of some bytes may reside.
#[derive(Debug)]
pub enum LocationData {
    ThisBuffer(ThisBuffer),
    Device(Device),
    File(File),
    URI(URI),
}

impl LocationData {
    pub fn as_location(self) -> (r: Location)
        ensures
            r.data == self,
            r.slice is None,
    {
        Location { data: self, slice: None }
    }
}

/// A location plus an optional sub-range restricting which part of the
/// physical location is meant.
#[derive(Debug)]
pub struct Location {
    pub data: LocationData,
    pub slice: Option<Slice>,
}

/// The first digest recorded under `id` in an association list of digests.
pub open spec fn stored_hash_in(entries: Seq<(HashIdentifier, String)>, id: HashIdentifier) -> Option<
    Seq<char>,
>
    decreases entries.len(),
{
    if entries.len() == 0 {
        None
    } else if entries[0].0 == id {
        Some(entries[0].1@)
    } else {
        stored_hash_in(entries.drop_first(), id)
    }
}

/// A tracked contiguous byte range of the logical source plus where a
/// physical copy of those bytes currently resides.
#[derive(Debug)]
pub struct Fragment {
    pub meta: Meta,
    pub location: Location,
    /// Tags partitioning fragments into named backup sets.
    pub groups: Vec<String>,
    /// Digests recorded for the fragment's bytes; at most one per algorithm.
    pub hashes: Vec<(HashIdentifier, String)>,
    /// This fragment's range in the shared logical coordinate space.
    pub geometry: Slice,
    /// Declared sparse sub-ranges within the geometry.  Reserved.
    pub holes: Vec<Slice>,
}

impl Fragment {
    pub open spec fn spec_is_named(self, name: Seq<char>) -> bool {
        self.meta.spec_is_named(name)
    }

    pub open spec fn spec_in_group(self, group: Seq<char>) -> bool {
        exists|i: int| 0 <= i < self.groups@.len() && self.groups@[i]@ == group
    }

    /// The fragment's location is a plain file path: no device annotation and
    /// no restricting sub-range.
    pub open spec fn has_plain_file_path(self) -> bool {
        &&& self.location.slice is None
        &&& self.location.data matches LocationData::File(f) && f.device is None
    }

    pub open spec fn spec_filepath(self) -> Seq<char> {
        match self.location.data {
            LocationData::File(f) => f.path@,
            _ => arbitrary(),
        }
    }

    pub open spec fn spec_stored_hash(self, id: HashIdentifier) -> Option<Seq<char>> {
        stored_hash_in(self.hashes@, id)
    }

    pub fn filepath(&self) -> (r: &String)
        requires
            self.has_plain_file_path(),
        ensures
            r@ == self.spec_filepath(),
    {
        match &self.location.data {
            LocationData::File(f) => &f.path,
            _ => unreached(),
        }
    }

    pub fn in_group(&self, group: &str) -> (r: bool)
        ensures
            r == self.spec_in_group(group@),
    {
        let target: String = group.to_owned();
        let mut i: usize = 0;
        while i < self.groups.len()
            invariant
                i <= self.groups@.len(),
                target@ == group@,
                forall|j: int| 0 <= j < i ==> self.groups@[j]@ != group@,
            decreases self.groups@.len() - i,
        {
            if self.groups[i] == target {
                return true;
            }
            i = i + 1;
        }
        false
    }

    pub fn is_named(&self, name: &str) -> (r: bool)
        ensures
            r == self.spec_is_named(name@),
    {
        self.meta.is_named(name)
    }

    /// The first digest stored for algorithm `id`, if any.
    pub fn stored_hash(&self, id: HashIdentifier) -> (r: Option<&String>)
        ensures
            match r {
                Some(s) => self.spec_stored_hash(id) == Some(s@),
                None => self.spec_stored_hash(id) is None,
            },
    {
        let mut i: usize = 0;
        while i < self.hashes.len()
            invariant
                i <= self.hashes@.len(),
                stored_hash_in(self.hashes@, id) == stored_hash_in(self.hashes@.skip(i as int), id),
                forall|j: int| 0 <= j < i ==> self.hashes@[j].0 != id,
            decreases self.hashes@.len() - i,
        {
            if self.hashes[i].0 == id {
                assert(self.hashes@.skip(i as int)[0] == self.hashes@[i as int]);
                return Some(&self.hashes[i].1);
            }
            proof {
                assert(self.hashes@.skip(i as int).drop_first() =~= self.hashes@.skip(i + 1));
            }
            i = i + 1;
        }
        None
    }
}

/// How an alias lookup in an index can fail: no fragment carries the alias,
/// or more than one does.
#[derive(Clone, Copy, Debug, PartialEq, Eq, Structural)]
pub enum LookupError {
    NotFound,
    Ambiguous,
}

/// A stable position of a fragment within an index's fragment sequence.
#[derive(Clone, Copy, Debug)]
pub struct FragmentPtr {
    no: usize,
}

impl FragmentPtr {
    pub fn new(no: usize) -> (r: Self)
        ensures
            r.spec_idx() == no,
    {
        Self { no }
    }

    pub closed spec fn spec_idx(self) -> int {
        self.no as int
    }

    pub fn idx(&self) -> (r: usize)
        ensures
            r == self.spec_idx(),
    {
        self.no
    }

    pub fn get<'a>(&self, index: &'a Index) -> (r: &'a Fragment)
        requires
            0 <= self.spec_idx() < index.fragments@.len(),
        ensures
            *r == index.fragments@[self.spec_idx()],
    {
        &index.fragments[self.no]
    }

    pub fn get_mut<'a>(&self, index: &'a mut Index) -> (r: &'a mut Fragment)
        requires
            0 <= self.spec_idx() < old(index).fragments@.len(),
        ensures
            *r == old(index).fragments@[self.spec_idx()],
            final(index).fragments@ == old(index).fragments@.update(self.spec_idx(), *final(r)),
            final(index).meta == old(index).meta,
    {
        &mut index.fragments[self.no]
    }
}

/// The persisted record: identification plus an ordered fragment sequence.
#[derive(Debug)]
pub struct Index {
    pub meta: Meta,
    pub fragments: Vec<Fragment>,
}

impl Index {
    /// Whether position `i` holds a fragment carrying alias `name`.
    pub open spec fn frag_named_at(self, name: Seq<char>, i: int) -> bool {
        0 <= i < self.fragments@.len() && self.fragments@[i].spec_is_named(name)
    }

    /// Whether position `i` holds the one and only fragment carrying alias
    /// `name`.
    pub open spec fn uniquely_named_at(self, name: Seq<char>, i: int) -> bool {
        &&& self.frag_named_at(name, i)
        &&& forall|j: int|
            0 <= j < self.fragments@.len() && j != i ==> !self.fragments@[j].spec_is_named(name)
    }

    /// Every fragment's geometry is a well-formed range.
    pub open spec fn wf(self) -> bool {
        forall|i: int| 0 <= i < self.fragments@.len() ==> (#[trigger] self.fragments@[i]).geometry.wf()
    }

    /// Resolve an alias to the one fragment that carries it.  Fails with a
    /// distinct error for zero matches and for more than one match.
    pub fn get_fragment_by_name(&self, name: &str) -> (r: Result<FragmentPtr, LookupError>)
        ensures
            match r {
                Ok(p) => self.uniquely_named_at(name@, p.spec_idx()),
                Err(LookupError::NotFound) => forall|j: int|
                    !self.frag_named_at(name@, j),
                Err(LookupError::Ambiguous) => exists|i: int, j: int|
                    i < j && self.frag_named_at(name@, i) && self.frag_named_at(name@, j),
            },
    {
        let mut found: Option<usize> = None;
        let mut i: usize = 0;
        while i < self.fragments.len()
            invariant
                i <= self.fragments@.len(),
                match found {
                    Some(k) => {
                        &&& k < i
                        &&& self.frag_named_at(name@, k as int)
                        &&& forall|j: int|
                            0 <= j < i && j != k ==> !self.fragments@[j].spec_is_named(name@)
                    },
                    None => forall|j: int| 0 <= j < i ==> !self.fragments@[j].spec_is_named(name@),
                },
            decreases self.fragments@.len() - i,
        {
            if self.fragments[i].is_named(name) {
                match found {
                    Some(k) => {
                        proof {
                            assert(self.frag_named_at(name@, k as int));
                            assert(self.frag_named_at(name@, i as int));
                        }
                        return Err(LookupError::Ambiguous);
                    },
                    None => {
                        found = Some(i);
                    },
                }
            }
            i = i + 1;
        }
        match found {
            Some(k) => Ok(FragmentPtr::new(k)),
            None => Err(LookupError::NotFound),
        }
    }
}

} // verus!
