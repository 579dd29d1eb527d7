//! The container: its header, its directory, and the lumps it stores.

use vstd::prelude::*;
use vstd::slice::slice_subrange;
use crate::error::WadError;
use crate::le_bytes::spec_i32_le;
use crate::lump_parser::LumpParser;
use crate::wad_string::{is_ascii_name, WadString};

verus! {

/// The tag of a primary container: the ASCII codes of `IWAD`.
pub open spec fn iwad_tag() -> Seq<u8> {
    seq![0x49u8, 0x57u8, 0x41u8, 0x44u8]
}

/// The tag of a patch container: the ASCII codes of `PWAD`.
pub open spec fn pwad_tag() -> Seq<u8> {
    seq![0x50u8, 0x57u8, 0x41u8, 0x44u8]
}

/// Either IWAD or PWAD
#[derive(Debug, Clone, Copy, PartialEq, Eq, Structural)]
pub enum WadType {
    IWAD,
    PWAD,
}

/// The kind of container that four tag bytes name.
pub open spec fn spec_wad_type(tag: Seq<u8>) -> Result<WadType, WadError> {
    if tag == iwad_tag() {
        Ok(WadType::IWAD)
    } else if tag == pwad_tag() {
        Ok(WadType::PWAD)
    } else {
        Err(WadError::UnrecognizedFormat)
    }
}

impl WadType {
    pub const SIZE_BYTES: usize = 4;

    /// Reads the tag of a container. Any four bytes but `IWAD` and `PWAD`
    /// fail with `UnrecognizedFormat`.
    pub fn new(data: [u8; 4]) -> (res: Result<Self, WadError>)
        ensures
            res == spec_wad_type(data@),
    {
        if data[1] == 0x57 && data[2] == 0x41 && data[3] == 0x44 {
            if data[0] == 0x49 {
                assert(data@ =~= iwad_tag());
                return Ok(Self::IWAD);
            }
            if data[0] == 0x50 {
                assert(data@ =~= pwad_tag());
                return Ok(Self::PWAD);
            }
        }
        assert(data@ != iwad_tag() && data@ != pwad_tag()) by {
            if data@ == iwad_tag() {
                assert(data@[0] == iwad_tag()[0] && data@[1] == iwad_tag()[1] && data@[2]
                    == iwad_tag()[2] && data@[3] == iwad_tag()[3]);
            }
            if data@ == pwad_tag() {
                assert(data@[0] == pwad_tag()[0] && data@[1] == pwad_tag()[1] && data@[2]
                    == pwad_tag()[2] && data@[3] == pwad_tag()[3]);
            }
        }
        Err(WadError::UnrecognizedFormat)
    }
}

/// The twelve bytes at the start of a container.
#[derive(Debug, Clone, Copy, PartialEq, Eq, Structural)]
pub struct WadHeader {
    pub iwad_or_pwad: WadType,
    pub num_lumps: i32,
    pub directory_offset_bytes: i32,
}

/// The header that twelve bytes hold: the tag, then the number of lumps and
/// the offset of the directory, both little-endian.
pub open spec fn spec_header(bytes: Seq<u8>) -> Result<WadHeader, WadError>
    recommends
        bytes.len() == 12,
{
    match spec_wad_type(bytes.subrange(0, 4)) {
        Ok(kind) => Ok(
            WadHeader {
                iwad_or_pwad: kind,
                num_lumps: spec_i32_le(bytes.subrange(4, 8)) as i32,
                directory_offset_bytes: spec_i32_le(bytes.subrange(8, 12)) as i32,
            },
        ),
        Err(e) => Err(e),
    }
}

impl WadHeader {
    pub const SIZE_BYTES: usize = 12;

    /// Decodes a header. Fails with `UnrecognizedFormat` if the tag is not
    /// known; the two integers are accepted as they are.
    pub fn new(data: [u8; 12]) -> (res: Result<Self, WadError>)
        ensures
            res == spec_header(data@),
    {
        let mut parser = LumpParser::new(&data);
        let tag = parser.read_chunk::<4>()?;
        let num_lumps = parser.read_i32()?;
        let directory_offset_bytes = parser.read_i32()?;
        proof {
            assert(data@.take(4) =~= data@.subrange(0, 4));
            assert(data@.skip(4).take(4) =~= data@.subrange(4, 8));
            assert(data@.skip(4).skip(4).take(4) =~= data@.subrange(8, 12));
        }
        match WadType::new(tag) {
            Ok(iwad_or_pwad) => Ok(WadHeader { iwad_or_pwad, num_lumps, directory_offset_bytes }),
            Err(e) => Err(e),
        }
    }

    /// Whether the directory that the header announces lies inside a
    /// storage of `len` bytes: neither integer is negative, and if there is
    /// any entry, the last one ends at or before the end of the storage.
    pub open spec fn directory_fits(self, len: int) -> bool {
        &&& self.num_lumps >= 0
        &&& self.directory_offset_bytes >= 0
        &&& self.num_lumps > 0 ==> self.directory_offset_bytes + 16 * self.num_lumps <= len
    }
}

/// What a directory entry holds, with its name as a sequence of bytes.
pub struct DirectoryEntryView {
    pub offset_bytes: i32,
    pub size_bytes: i32,
    pub lump_name: Seq<u8>,
}

/// One entry of the directory: where a lump lies, how long it is, and its
/// name.
#[derive(Debug, Clone, Copy, PartialEq, Eq)]
pub struct WadDirectoryEntry {
    pub offset_bytes: i32,
    pub size_bytes: i32,
    pub lump_name: WadString,
}

impl View for WadDirectoryEntry {
    type V = DirectoryEntryView;

    open spec fn view(&self) -> DirectoryEntryView {
        DirectoryEntryView {
            offset_bytes: self.offset_bytes,
            size_bytes: self.size_bytes,
            lump_name: self.lump_name@,
        }
    }
}

/// The entry that sixteen bytes hold: offset and size, both little-endian,
/// then the name, which must be ASCII.
pub open spec fn spec_directory_entry(bytes: Seq<u8>) -> Result<DirectoryEntryView, WadError>
    recommends
        bytes.len() == 16,
{
    if is_ascii_name(bytes.subrange(8, 16)) {
        Ok(
            DirectoryEntryView {
                offset_bytes: spec_i32_le(bytes.subrange(0, 4)) as i32,
                size_bytes: spec_i32_le(bytes.subrange(4, 8)) as i32,
                lump_name: bytes.subrange(8, 16),
            },
        )
    } else {
        Err(WadError::InvalidCharacter)
    }
}

impl WadDirectoryEntry {
    pub const SIZE_BYTES: usize = 16;

    /// Decodes a directory entry. Fails with `InvalidCharacter` if the name
    /// holds a byte above 127.
    pub fn new(data: [u8; 16]) -> (res: Result<Self, WadError>)
        ensures
            match res {
                Ok(entry) => spec_directory_entry(data@) == Ok::<DirectoryEntryView, WadError>(
                    entry@,
                ),
                Err(e) => spec_directory_entry(data@) == Err::<DirectoryEntryView, WadError>(e),
            },
    {
        let mut parser = LumpParser::new(&data);
        let offset_bytes = parser.read_i32()?;
        let size_bytes = parser.read_i32()?;
        let name = parser.read_chunk::<8>()?;
        proof {
            assert(data@.take(4) =~= data@.subrange(0, 4));
            assert(data@.skip(4).take(4) =~= data@.subrange(4, 8));
            assert(data@.skip(4).skip(4).take(8) =~= data@.subrange(8, 16));
        }
        match WadString::new(name) {
            Ok(lump_name) => Ok(WadDirectoryEntry { offset_bytes, size_bytes, lump_name }),
            Err(e) => Err(e),
        }
    }

    /// Whether the entry is virtual: its size is zero.
    pub open spec fn spec_is_virtual(&self) -> bool {
        self.size_bytes == 0
    }

    /// Virtual lumps have a size of zero and only appear in the directory
    #[verifier::when_used_as_spec(spec_is_virtual)]
    pub fn is_virtual(&self) -> (r: bool)
        ensures
            r == (self.size_bytes == 0),
    {
        self.size_bytes == 0
    }

    /// What reading the lump of this entry into a buffer of `buf_len` bytes
    /// gives: the bytes of `storage` that the entry names, if the buffer is
    /// exactly as long as the lump and the storage holds all of them.
    pub open spec fn spec_lump(&self, storage: Seq<u8>, buf_len: int) -> Result<Seq<u8>, WadError> {
        if buf_len != self.size_bytes {
            Err(WadError::SizeMismatch)
        } else if self.offset_bytes < 0 || self.offset_bytes + self.size_bytes > storage.len() {
            Err(WadError::IoFailure)
        } else {
            Ok(
                storage.subrange(
                    self.offset_bytes as int,
                    self.offset_bytes + self.size_bytes,
                ),
            )
        }
    }

    /// Read the contents of a lump into a buffer. The buffer's size must equal `size_bytes`.
    ///
    /// Fails with `SizeMismatch` if it does not, and with `IoFailure` if
    /// the storage of `wadfile` ends before the lump does; the buffer is
    /// then left as it was. A virtual entry names no bytes and must not be
    /// read.
    pub fn read_lump(&self, buf: &mut [u8], wadfile: &Wad) -> (res: Result<(), WadError>)
        requires
            !self.is_virtual(),
        ensures
            match res {
                Ok(_) => self.spec_lump(wadfile@.storage, old(buf)@.len() as int) == Ok::<
                    Seq<u8>,
                    WadError,
                >(final(buf)@),
                Err(e) => self.spec_lump(wadfile@.storage, old(buf)@.len() as int) == Err::<
                    Seq<u8>,
                    WadError,
                >(e) && final(buf)@ == old(buf)@,
            },
    {
        if self.size_bytes < 0 || buf.len() != self.size_bytes as usize {
            return Err(WadError::SizeMismatch);
        }
        if self.offset_bytes < 0 || self.offset_bytes as u64 + self.size_bytes as u64
            > wadfile.storage.len() as u64 {
            return Err(WadError::IoFailure);
        }
        let start = self.offset_bytes as usize;
        let size = self.size_bytes as usize;
        let mut i: usize = 0;
        while i < size
            invariant
                i <= size,
                size == buf@.len(),
                start + size <= wadfile.storage.len(),
                forall|k: int| 0 <= k < i ==> buf@[k] == wadfile.storage@[start + k],
            decreases size - i,
        {
            buf[i] = wadfile.storage[start + i];
            i += 1;
        }
        assert(buf@ =~= wadfile.storage@.subrange(start as int, start + size));
        Ok(())
    }
}

/// The sixteen bytes of the directory entry at position `i`, in a storage
/// whose directory starts at `directory_offset`.
pub open spec fn spec_entry_bytes(storage: Seq<u8>, directory_offset: int, i: int) -> Seq<u8> {
    storage.subrange(directory_offset + 16 * i, directory_offset + 16 * i + 16)
}

/// Why a storage cannot be opened as a container, if it cannot.
///
/// The header comes first: a storage of fewer than twelve bytes is cut
/// short, and an unknown tag is no container. Then the directory must lie
/// inside the storage, and then every entry must decode.
pub open spec fn spec_open_failure(storage: Seq<u8>) -> Option<WadError> {
    if storage.len() < 12 {
        Some(WadError::TruncatedInput)
    } else {
        match spec_header(storage.subrange(0, 12)) {
            Err(e) => Some(e),
            Ok(header) => if !header.directory_fits(storage.len() as int) {
                Some(WadError::TruncatedDirectory)
            } else if exists|i: int|
                0 <= i < header.num_lumps && !is_ascii_name(
                    (#[trigger] spec_entry_bytes(
                        storage,
                        header.directory_offset_bytes as int,
                        i,
                    )).subrange(8, 16),
                ) {
                Some(WadError::InvalidCharacter)
            } else {
                None
            },
        }
    }
}

/// What an opened container holds: the bytes of its storage, its header,
/// and the views of its directory entries in the order of the storage.
pub struct WadView {
    pub storage: Seq<u8>,
    pub header: WadHeader,
    pub directory: Seq<DirectoryEntryView>,
}

/// The container that a storage holds: the header at its start, and the
/// directory entries, sixteen bytes each, from the offset that the header
/// gives.
pub open spec fn spec_open(storage: Seq<u8>) -> Result<WadView, WadError> {
    match spec_open_failure(storage) {
        Some(e) => Err(e),
        None => {
            let header = spec_header(storage.subrange(0, 12))->Ok_0;
            Ok(
                WadView {
                    storage,
                    header,
                    directory: Seq::new(
                        header.num_lumps as nat,
                        |i: int|
                            spec_directory_entry(
                                spec_entry_bytes(storage, header.directory_offset_bytes as int, i),
                            )->Ok_0,
                    ),
                },
            )
        },
    }
}

/// Where's All the Data?
///
/// A container that has been opened. It owns its storage, and its header
/// and directory are those that the storage holds: they are decoded once,
/// when the container is opened, and never change.
#[derive(Debug)]
pub struct Wad {
    storage: Vec<u8>,
    header: WadHeader,
    directory: Vec<WadDirectoryEntry>,
}

impl View for Wad {
    type V = WadView;

    closed spec fn view(&self) -> WadView {
        WadView {
            storage: self.storage@,
            header: self.header,
            directory: Seq::new(self.directory@.len(), |i: int| self.directory@[i]@),
        }
    }
}

impl Wad {
    #[verifier::type_invariant]
    spec fn opened(self) -> bool {
        spec_open(self.storage@) == Ok::<WadView, WadError>(self@)
    }

    /// Opens a container: decodes the header at the start of `storage`,
    /// then the directory at the offset that the header gives.
    ///
    /// Fails with `TruncatedInput` if the storage is shorter than a header,
    /// with `UnrecognizedFormat` if the tag is not known, with
    /// `TruncatedDirectory` if the count or the offset of the directory is
    /// negative or the storage ends before the directory does, and with
    /// `InvalidCharacter` if the name of an entry holds a byte above 127.
    pub fn new(storage: Vec<u8>) -> (res: Result<Self, WadError>)
        ensures
            match res {
                Ok(wad) => spec_open(storage@) == Ok::<WadView, WadError>(wad@),
                Err(e) => spec_open(storage@) == Err::<WadView, WadError>(e),
            },
    {
        let bytes = storage.as_slice();
        let mut parser = LumpParser::new(bytes);
        let header_bytes = parser.read_chunk::<12>()?;
        assert(header_bytes@ =~= storage@.subrange(0, 12));
        let header = WadHeader::new(header_bytes)?;
        if header.num_lumps < 0 || header.directory_offset_bytes < 0 {
            return Err(WadError::TruncatedDirectory);
        }
        let mut directory: Vec<WadDirectoryEntry> = Vec::new();
        if header.num_lumps > 0 {
            if header.directory_offset_bytes as u64 + 16 * (header.num_lumps as u64)
                > bytes.len() as u64 {
                return Err(WadError::TruncatedDirectory);
            }
            let count = header.num_lumps as usize;
            let start = header.directory_offset_bytes as usize;
            let mut parser = LumpParser::new(slice_subrange(bytes, start, start + 16 * count));
            let mut i: usize = 0;
            while i < count
                invariant
                    i <= count,
                    count == header.num_lumps,
                    start == header.directory_offset_bytes,
                    start + 16 * count <= storage@.len(),
                    12 <= storage@.len(),
                    spec_header(storage@.subrange(0, 12)) == Ok::<WadHeader, WadError>(header),
                    directory@.len() == i,
                    parser@ == storage@.subrange(start + 16 * i, start + 16 * count),
                    forall|k: int|
                        0 <= k < i ==> spec_directory_entry(
                            spec_entry_bytes(storage@, start as int, k),
                        ) == Ok::<DirectoryEntryView, WadError>((#[trigger] directory@[k])@),
                decreases count - i,
            {
                let entry_bytes = parser.read_chunk::<16>()?;
                assert(entry_bytes@ =~= spec_entry_bytes(storage@, start as int, i as int));
                assert(parser@ =~= storage@.subrange(start + 16 * (i + 1), start + 16 * count));
                let entry = WadDirectoryEntry::new(entry_bytes)?;
                directory.push(entry);
                i += 1;
            }
        }
        proof {
            assert forall|i: int| 0 <= i < header.num_lumps implies is_ascii_name(
                (#[trigger] spec_entry_bytes(
                    storage@,
                    header.directory_offset_bytes as int,
                    i,
                )).subrange(8, 16),
            ) by {
                assert(spec_directory_entry(
                    spec_entry_bytes(storage@, header.directory_offset_bytes as int, i),
                ) == Ok::<DirectoryEntryView, WadError>(directory@[i]@));
            }
            assert(Seq::new(directory@.len(), |i: int| directory@[i]@) =~= spec_open(
                storage@,
            )->Ok_0.directory);
        }
        Ok(Wad { storage, header, directory })
    }

    /// The header of the container.
    pub fn header(&self) -> (header: &WadHeader)
        ensures
            *header == self@.header,
    {
        &self.header
    }

    /// The directory of the container: its entries in the order in which
    /// the storage holds them.
    pub fn directory(&self) -> (directory: &[WadDirectoryEntry])
        ensures
            spec_open(self@.storage) == Ok::<WadView, WadError>(self@),
            directory@.len() == self@.directory.len(),
            forall|i: int|
                0 <= i < directory@.len() ==> (#[trigger] directory@[i])@ == self@.directory[i],
    {
        proof {
            use_type_invariant(self);
        }
        self.directory.as_slice()
    }
}

} // verus!
