//! Texture definitions and the patches they are made of.

use vstd::prelude::*;
use crate::error::WadError;
use crate::le_bytes::{i16_from_le, spec_i16_le, spec_i32_le};
use crate::lump_parser::LumpParser;
use crate::wad_string::{is_ascii_name, WadString};

verus! {

/// One patch of a texture: where it is drawn and which name of the name
/// table it is.
#[derive(Debug, Clone, Copy, PartialEq, Eq, Structural)]
pub struct Patch {
    pub x_offset: i16,
    pub y_offset: i16,
    pub pname_index: i16,
    pub _stepdir: i16,
    pub _colormap: i16,
}

/// The patch that ten bytes hold: five little-endian 16-bit integers.
pub open spec fn spec_patch(bytes: Seq<u8>) -> Patch
    recommends
        bytes.len() == 10,
{
    Patch {
        x_offset: spec_i16_le(bytes.subrange(0, 2)) as i16,
        y_offset: spec_i16_le(bytes.subrange(2, 4)) as i16,
        pname_index: spec_i16_le(bytes.subrange(4, 6)) as i16,
        _stepdir: spec_i16_le(bytes.subrange(6, 8)) as i16,
        _colormap: spec_i16_le(bytes.subrange(8, 10)) as i16,
    }
}

impl Patch {
    pub const NUM_BYTES: usize = 10;

    /// Decodes a patch from its ten bytes.
    pub fn from_bytes(bytes: &[u8; 10]) -> (patch: Self)
        ensures
            patch == spec_patch(bytes@),
    {
        let x = [bytes[0], bytes[1]];
        let y = [bytes[2], bytes[3]];
        let index = [bytes[4], bytes[5]];
        let stepdir = [bytes[6], bytes[7]];
        let colormap = [bytes[8], bytes[9]];
        proof {
            assert(x@ =~= bytes@.subrange(0, 2));
            assert(y@ =~= bytes@.subrange(2, 4));
            assert(index@ =~= bytes@.subrange(4, 6));
            assert(stepdir@ =~= bytes@.subrange(6, 8));
            assert(colormap@ =~= bytes@.subrange(8, 10));
        }
        Self {
            x_offset: i16_from_le(&x),
            y_offset: i16_from_le(&y),
            pname_index: i16_from_le(&index),
            _stepdir: i16_from_le(&stepdir),
            _colormap: i16_from_le(&colormap),
        }
    }
}

/// What a texture definition holds, with its name as a sequence of bytes
/// and its patches as a sequence.
pub struct TexEntryView {
    pub name: Seq<u8>,
    pub _masked: i32,
    pub tex_width: i16,
    pub tex_height: i16,
    pub _columndirectory: i32,
    pub num_patches: i16,
    pub patches: Seq<Patch>,
}

/// One texture definition: its name, its size, and its patches in the order
/// in which they are drawn.
#[derive(Debug)]
pub struct TexEntry {
    pub name: WadString,
    pub _masked: i32,
    pub tex_width: i16,
    pub tex_height: i16,
    pub _columndirectory: i32,
    pub num_patches: i16,
    pub patches: Vec<Patch>,
}

impl View for TexEntry {
    type V = TexEntryView;

    open spec fn view(&self) -> TexEntryView {
        TexEntryView {
            name: self.name@,
            _masked: self._masked,
            tex_width: self.tex_width,
            tex_height: self.tex_height,
            _columndirectory: self._columndirectory,
            num_patches: self.num_patches,
            patches: self.patches@,
        }
    }
}

/// How many patches follow a texture's header: as many as it declares, and
/// none if it declares a negative number.
pub open spec fn spec_patch_count(record: Seq<u8>) -> nat
    recommends
        record.len() >= 22,
{
    let declared = spec_i16_le(record.subrange(20, 22));
    if declared < 0 {
        0
    } else {
        declared as nat
    }
}

/// The texture definition at the start of `record`: a header of 22 bytes
/// (name, a reserved field, width, height, a reserved field, patch count),
/// then the patches, ten bytes each. Bytes after the last patch are not
/// looked at.
///
/// The fields are read in order: a header cut short before the end of the
/// name is out of bounds, then a name with a byte above 127 is an invalid
/// character, then any later shortage is out of bounds.
pub open spec fn spec_tex_entry(record: Seq<u8>) -> Result<TexEntryView, WadError> {
    if record.len() < 8 {
        Err(WadError::OutOfBounds)
    } else if !is_ascii_name(record.subrange(0, 8)) {
        Err(WadError::InvalidCharacter)
    } else if record.len() < 22 {
        Err(WadError::OutOfBounds)
    } else if record.len() < 22 + 10 * spec_patch_count(record) {
        Err(WadError::OutOfBounds)
    } else {
        Ok(
            TexEntryView {
                name: record.subrange(0, 8),
                _masked: spec_i32_le(record.subrange(8, 12)) as i32,
                tex_width: spec_i16_le(record.subrange(12, 14)) as i16,
                tex_height: spec_i16_le(record.subrange(14, 16)) as i16,
                _columndirectory: spec_i32_le(record.subrange(16, 20)) as i32,
                num_patches: spec_i16_le(record.subrange(20, 22)) as i16,
                patches: Seq::new(
                    spec_patch_count(record),
                    |k: int| spec_patch(record.subrange(22 + 10 * k, 32 + 10 * k)),
                ),
            },
        )
    }
}

/// Turns the failure of a read inside a record into `OutOfBounds`: the
/// record then does not lie inside its buffer.
fn within<T>(read: Result<T, WadError>) -> (res: Result<T, WadError>)
    ensures
        read is Ok ==> res == read,
        read is Err ==> res == Err::<T, WadError>(WadError::OutOfBounds),
{
    match read {
        Ok(value) => Ok(value),
        Err(_) => Err(WadError::OutOfBounds),
    }
}

impl TexEntry {
    /// Decodes the texture definition at the start of `data`.
    ///
    /// Fails with `OutOfBounds` if the header or one of the declared
    /// patches reaches past the end of `data`, and with `InvalidCharacter`
    /// if the name holds a byte above 127. Bytes after the last patch are
    /// left alone.
    pub fn parse(data: &[u8]) -> (res: Result<Self, WadError>)
        ensures
            match res {
                Ok(entry) => spec_tex_entry(data@) == Ok::<TexEntryView, WadError>(entry@),
                Err(e) => spec_tex_entry(data@) == Err::<TexEntryView, WadError>(e),
            },
    {
        let mut parser = LumpParser::new(data);
        let name_bytes = within(parser.read_chunk::<8>())?;
        assert(name_bytes@ =~= data@.subrange(0, 8));
        let name = WadString::new(name_bytes)?;
        let _masked = within(parser.read_i32())?;
        let tex_width = within(parser.read_i16())?;
        let tex_height = within(parser.read_i16())?;
        let _columndirectory = within(parser.read_i32())?;
        let num_patches = within(parser.read_i16())?;
        proof {
            assert(data@.skip(8).take(4) =~= data@.subrange(8, 12));
            assert(data@.skip(8).skip(4).take(2) =~= data@.subrange(12, 14));
            assert(data@.skip(8).skip(4).skip(2).take(2) =~= data@.subrange(14, 16));
            assert(data@.skip(8).skip(4).skip(2).skip(2).take(4) =~= data@.subrange(16, 20));
            assert(data@.skip(8).skip(4).skip(2).skip(2).skip(4).take(2) =~= data@.subrange(
                20,
                22,
            ));
            assert(parser@ =~= data@.skip(22));
        }
        let ghost count = spec_patch_count(data@);
        let mut patches: Vec<Patch> = Vec::new();
        let mut i: i16 = 0;
        while i < num_patches
            invariant
                0 <= i <= count,
                22 <= data@.len(),
                is_ascii_name(data@.subrange(0, 8)),
                num_patches == spec_i16_le(data@.subrange(20, 22)),
                count == spec_patch_count(data@),
                patches@.len() == i,
                22 + 10 * i <= data@.len(),
                parser@ == data@.skip(22 + 10 * i),
                forall|k: int|
                    0 <= k < i ==> #[trigger] patches@[k] == spec_patch(
                        data@.subrange(22 + 10 * k, 32 + 10 * k),
                    ),
            decreases num_patches - i,
        {
            let bytes = within(parser.read_chunk::<10>())?;
            assert(bytes@ =~= data@.subrange(22 + 10 * i, 32 + 10 * i));
            assert(parser@ =~= data@.skip(22 + 10 * (i + 1)));
            patches.push(Patch::from_bytes(&bytes));
            i += 1;
        }
        let entry = TexEntry {
            name,
            _masked,
            tex_width,
            tex_height,
            _columndirectory,
            num_patches,
            patches,
        };
        assert(entry@.patches =~= spec_tex_entry(data@)->Ok_0.patches);
        Ok(entry)
    }
}

} // verus!
