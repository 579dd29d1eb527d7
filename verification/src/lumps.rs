//! Decoders for the lumps of fixed meaning: the palettes, the shading
//! tables, the patch names and the texture definitions.
//!
//! Each takes the bytes of one lump, already copied out of the container.

use vstd::prelude::*;
use vstd::slice::slice_subrange;
use crate::error::WadError;
use crate::le_bytes::spec_i32_le;
use crate::lump_parser::LumpParser;
use crate::lumps::playpal::{spec_palette, Color, Palette};
use crate::lumps::textures::{spec_tex_entry, TexEntry, TexEntryView};
use crate::wad_string::{is_ascii_name, WadString};

pub mod playpal;
pub mod textures;

verus! {

/// The palettes that a palette lump holds: one for every 768 bytes, in
/// order. A lump whose length is no multiple of 768 is not a palette lump.
pub open spec fn spec_playpal(data: Seq<u8>) -> Result<Seq<Seq<Color>>, WadError> {
    if data.len() % 768 != 0 {
        Err(WadError::InvalidLength)
    } else {
        Ok(
            Seq::new(
                data.len() / 768,
                |k: int| spec_palette(data.subrange(768 * k, 768 * k + 768)),
            ),
        )
    }
}

/// The palette lump: any number of palettes.
#[derive(Debug)]
pub struct PlaypalLump {
    pub palettes: Vec<Palette>,
}

impl View for PlaypalLump {
    type V = Seq<Seq<Color>>;

    open spec fn view(&self) -> Seq<Seq<Color>> {
        Seq::new(self.palettes@.len(), |k: int| self.palettes@[k]@)
    }
}

impl PlaypalLump {
    /// Decodes a palette lump. Fails with `InvalidLength` unless the length
    /// of `data` is a multiple of 768.
    pub fn parse(data: &[u8]) -> (res: Result<Self, WadError>)
        ensures
            match res {
                Ok(lump) => spec_playpal(data@) == Ok::<Seq<Seq<Color>>, WadError>(lump@),
                Err(e) => spec_playpal(data@) == Err::<Seq<Seq<Color>>, WadError>(e),
            },
            res is Ok <==> data@.len() % 768 == 0,
            res matches Ok(lump) ==> lump.palettes@.len() == data@.len() / 768,
    {
        if data.len() % 768 != 0 {
            return Err(WadError::InvalidLength);
        }
        let count = data.len() / 768;
        let mut parser = LumpParser::new(data);
        let mut palettes: Vec<Palette> = Vec::with_capacity(count);
        while parser.has_data_left()
            invariant
                data@.len() == 768 * count,
                palettes@.len() <= count,
                parser@ == data@.skip(768 * (palettes@.len() as int)),
                forall|k: int|
                    0 <= k < palettes@.len() ==> (#[trigger] palettes@[k])@ == spec_palette(
                        data@.subrange(768 * k, 768 * k + 768),
                    ),
            decreases count - palettes@.len(),
        {
            let ghost done = palettes@.len() as int;
            let bytes = parser.read_chunk::<768>()?;
            assert(bytes@ =~= data@.subrange(768 * done, 768 * done + 768));
            assert(parser@ =~= data@.skip(768 * (done + 1)));
            palettes.push(Palette::from_bytes(&bytes));
        }
        let lump = PlaypalLump { palettes };
        assert(lump@ =~= spec_playpal(data@)->Ok_0);
        Ok(lump)
    }
}

/// The shading tables that a shading-table lump holds: 34 maps of 256 bytes
/// each, in order. A lump of any other length than 8704 bytes is not a
/// shading-table lump.
pub open spec fn spec_colormap(data: Seq<u8>) -> Result<Seq<Seq<u8>>, WadError> {
    if data.len() != 34 * 256 {
        Err(WadError::InvalidLength)
    } else {
        Ok(Seq::new(34, |k: int| data.subrange(256 * k, 256 * k + 256)))
    }
}

/// The shading-table lump: 34 maps, each from a palette index to the index
/// that replaces it.
#[derive(Debug)]
pub struct ColormapLump {
    pub maps: [[u8; 256]; 34],
}

impl View for ColormapLump {
    type V = Seq<Seq<u8>>;

    open spec fn view(&self) -> Seq<Seq<u8>> {
        Seq::new(34, |k: int| self.maps@[k]@)
    }
}

impl ColormapLump {
    pub const NUM_MAPS: usize = 34;

    /// The map that by convention is used while the player cannot be hurt.
    pub const INVULN_INDEX: usize = 32;

    /// Decodes a shading-table lump. Fails with `InvalidLength` unless
    /// `data` is exactly 8704 bytes long.
    pub fn parse(data: &[u8]) -> (res: Result<Self, WadError>)
        ensures
            match res {
                Ok(lump) => spec_colormap(data@) == Ok::<Seq<Seq<u8>>, WadError>(lump@),
                Err(e) => spec_colormap(data@) == Err::<Seq<Seq<u8>>, WadError>(e),
            },
            res is Ok <==> data@.len() == 8704,
    {
        if data.len() != 8704 {
            return Err(WadError::InvalidLength);
        }
        let mut parser = LumpParser::new(data);
        let mut maps = [[0u8; 256]; 34];
        let mut i: usize = 0;
        while i < 34
            invariant
                i <= 34,
                data@.len() == 8704,
                parser@ == data@.skip(256 * (i as int)),
                forall|k: int|
                    0 <= k < i ==> (#[trigger] maps@[k])@ == data@.subrange(
                        256 * k,
                        256 * k + 256,
                    ),
            decreases 34 - i,
        {
            let map = parser.read_chunk::<256>()?;
            assert(map@ =~= data@.subrange(256 * i, 256 * i + 256));
            assert(parser@ =~= data@.skip(256 * (i + 1)));
            maps[i] = map;
            i += 1;
        }
        parser.finish()?;
        let lump = ColormapLump { maps };
        assert(lump@ =~= spec_colormap(data@)->Ok_0);
        Ok(lump)
    }
}

/// How many names a name table of declared count `n` holds: a negative
/// count declares none.
pub open spec fn spec_count(n: int) -> nat {
    if n < 0 {
        0
    } else {
        n as nat
    }
}

/// The bytes of the name at position `i` of a name table.
pub open spec fn spec_pname_bytes(data: Seq<u8>, i: int) -> Seq<u8> {
    data.subrange(4 + 8 * i, 12 + 8 * i)
}

/// The names that a name table holds: a little-endian count, then that many
/// eight-byte names, and nothing after them.
///
/// The names are read in order, so a name with a byte above 127 is reported
/// before a shortage of bytes after it; and only a table whose names are all
/// there can have bytes left over.
pub open spec fn spec_pnames(data: Seq<u8>) -> Result<Seq<Seq<u8>>, WadError> {
    if data.len() < 4 {
        Err(WadError::TruncatedInput)
    } else {
        let count = spec_count(spec_i32_le(data.subrange(0, 4)));
        if exists|i: int|
            0 <= i < count && 12 + 8 * i <= data.len() && !is_ascii_name(
                #[trigger] spec_pname_bytes(data, i),
            ) {
            Err(WadError::InvalidCharacter)
        } else if data.len() < 4 + 8 * count {
            Err(WadError::TruncatedInput)
        } else if data.len() > 4 + 8 * count {
            Err(WadError::TrailingData)
        } else {
            Ok(Seq::new(count, |i: int| spec_pname_bytes(data, i)))
        }
    }
}

/// The name table: the names of the patches, found by position.
#[derive(Debug)]
pub struct PnamesLump {
    pub pnames: Vec<WadString>,
}

impl View for PnamesLump {
    type V = Seq<Seq<u8>>;

    open spec fn view(&self) -> Seq<Seq<u8>> {
        Seq::new(self.pnames@.len(), |i: int| self.pnames@[i]@)
    }
}

impl PnamesLump {
    /// Decodes a name table.
    ///
    /// Fails with `TruncatedInput` if the count or one of the names is cut
    /// short, with `InvalidCharacter` if a name holds a byte above 127, and
    /// with `TrailingData` if bytes follow the last name.
    pub fn parse(data: &[u8]) -> (res: Result<Self, WadError>)
        ensures
            match res {
                Ok(lump) => spec_pnames(data@) == Ok::<Seq<Seq<u8>>, WadError>(lump@),
                Err(e) => spec_pnames(data@) == Err::<Seq<Seq<u8>>, WadError>(e),
            },
    {
        let mut parser = LumpParser::new(data);
        let num_patches = parser.read_i32()?;
        assert(data@.take(4) =~= data@.subrange(0, 4));
        let ghost count = spec_count(num_patches as int);
        let mut pnames: Vec<WadString> = Vec::new();
        let mut i: i32 = 0;
        while i < num_patches
            invariant
                0 <= i <= count,
                4 <= data@.len(),
                num_patches == spec_i32_le(data@.subrange(0, 4)),
                count == spec_count(num_patches as int),
                pnames@.len() == i,
                4 + 8 * i <= data@.len(),
                parser@ == data@.skip(4 + 8 * i),
                forall|k: int|
                    0 <= k < i ==> is_ascii_name(#[trigger] spec_pname_bytes(data@, k)),
                forall|k: int|
                    0 <= k < i ==> (#[trigger] pnames@[k])@ == spec_pname_bytes(data@, k),
            decreases num_patches - i,
        {
            let bytes = match parser.read_chunk::<8>() {
                Ok(bytes) => bytes,
                Err(e) => {
                    assert forall|k: int|
                        0 <= k < count && 12 + 8 * k <= data@.len() implies is_ascii_name(
                        #[trigger] spec_pname_bytes(data@, k),
                    ) by {
                        assert(k < i);
                    }
                    return Err(e);
                },
            };
            assert(bytes@ =~= spec_pname_bytes(data@, i as int));
            assert(parser@ =~= data@.skip(4 + 8 * (i + 1)));
            let name = WadString::new(bytes)?;
            pnames.push(name);
            i += 1;
        }
        assert(i == count);
        parser.finish()?;
        let lump = PnamesLump { pnames };
        assert(lump@ =~= spec_pnames(data@)->Ok_0);
        Ok(lump)
    }
}

/// What a texture lump holds, with every texture as its view.
pub struct TexturesView {
    pub num_textures: i32,
    pub offsets: Seq<i32>,
    pub textures: Seq<TexEntryView>,
}

/// The offset at position `i` of the offset table of a texture lump.
pub open spec fn spec_offset(data: Seq<u8>, i: int) -> i32 {
    spec_i32_le(data.subrange(4 + 4 * i, 8 + 4 * i)) as i32
}

/// The texture definition that lies `offset` bytes after the start of the
/// lump. An offset that is negative, or at or past the end of the lump,
/// is out of bounds; any other starts a record that runs to the end of the
/// lump at most.
pub open spec fn spec_tex_entry_at(data: Seq<u8>, offset: int) -> Result<TexEntryView, WadError> {
    if offset < 0 || offset >= data.len() {
        Err(WadError::OutOfBounds)
    } else {
        spec_tex_entry(data.skip(offset))
    }
}

/// The texture definitions at the first `k` offsets, in the order of the
/// offsets; the failure of the first one that fails, if any does.
pub open spec fn spec_tex_entries(data: Seq<u8>, offsets: Seq<i32>, k: nat) -> Result<
    Seq<TexEntryView>,
    WadError,
>
    decreases k,
{
    if k == 0 {
        Ok(Seq::empty())
    } else {
        match spec_tex_entries(data, offsets, (k - 1) as nat) {
            Err(e) => Err(e),
            Ok(entries) => match spec_tex_entry_at(data, offsets[k - 1] as int) {
                Err(e) => Err(e),
                Ok(entry) => Ok(entries.push(entry)),
            },
        }
    }
}

/// What a texture lump holds: a little-endian count, that many
/// little-endian offsets, and at each offset, counted from the start of the
/// lump, one texture definition.
///
/// The offsets may come in any order, and the records they name may
/// overlap. A negative count declares no texture.
pub open spec fn spec_textures(data: Seq<u8>) -> Result<TexturesView, WadError> {
    if data.len() < 4 {
        Err(WadError::TruncatedInput)
    } else {
        let declared = spec_i32_le(data.subrange(0, 4));
        let count = spec_count(declared);
        if data.len() < 4 + 4 * count {
            Err(WadError::TruncatedInput)
        } else {
            let offsets = Seq::new(count, |i: int| spec_offset(data, i));
            match spec_tex_entries(data, offsets, count) {
                Err(e) => Err(e),
                Ok(textures) => Ok(
                    TexturesView { num_textures: declared as i32, offsets, textures },
                ),
            }
        }
    }
}

/// Once a texture definition has failed, the failure stays however many
/// more offsets are looked at.
pub proof fn lemma_tex_entries_failure_stays(data: Seq<u8>, offsets: Seq<i32>, j: nat, k: nat)
    requires
        j <= k,
        spec_tex_entries(data, offsets, j) is Err,
    ensures
        spec_tex_entries(data, offsets, k) == spec_tex_entries(data, offsets, j),
    decreases k,
{
    if j < k {
        lemma_tex_entries_failure_stays(data, offsets, j, (k - 1) as nat);
    }
}

/// The texture definitions at the first `k` offsets are decoded one by one:
/// all of them are there if each offset names a definition that decodes,
/// and otherwise the failure is that of the first offset that does not.
pub proof fn lemma_tex_entries_one_by_one(data: Seq<u8>, offsets: Seq<i32>, k: nat)
    ensures
        match spec_tex_entries(data, offsets, k) {
            Ok(entries) => entries.len() == k && forall|i: int|
                0 <= i < k ==> spec_tex_entry_at(data, #[trigger] offsets[i] as int) == Ok::<
                    TexEntryView,
                    WadError,
                >(entries[i]),
            Err(e) => exists|i: int|
                0 <= i < k && spec_tex_entry_at(data, #[trigger] offsets[i] as int) == Err::<
                    TexEntryView,
                    WadError,
                >(e) && forall|j: int|
                    0 <= j < i ==> spec_tex_entry_at(data, #[trigger] offsets[j] as int) is Ok,
        },
    decreases k,
{
    if k > 0 {
        let before = (k - 1) as nat;
        lemma_tex_entries_one_by_one(data, offsets, before);
        match spec_tex_entries(data, offsets, before) {
            Ok(entries) => {
                match spec_tex_entry_at(data, offsets[k - 1] as int) {
                    Ok(entry) => {},
                    Err(e) => {
                        assert(spec_tex_entry_at(data, offsets[k - 1] as int) == Err::<
                            TexEntryView,
                            WadError,
                        >(e));
                    },
                }
            },
            Err(e) => {
                let i = choose|i: int|
                    0 <= i < before && spec_tex_entry_at(data, #[trigger] offsets[i] as int)
                        == Err::<TexEntryView, WadError>(e) && forall|j: int|
                        0 <= j < i ==> spec_tex_entry_at(data, #[trigger] offsets[j] as int) is Ok;
                assert(0 <= i < k);
            },
        }
    }
}

/// The TEXTURE1 and TEXTURE2 lumps.
#[derive(Debug)]
pub struct TexturesLump {
    pub num_textures: i32,
    pub offsets: Vec<i32>,
    pub textures: Vec<TexEntry>,
}

impl View for TexturesLump {
    type V = TexturesView;

    open spec fn view(&self) -> TexturesView {
        TexturesView {
            num_textures: self.num_textures,
            offsets: self.offsets@,
            textures: Seq::new(self.textures@.len(), |i: int| self.textures@[i]@),
        }
    }
}

impl TexturesLump {
    /// Decodes a texture lump.
    ///
    /// Fails with `TruncatedInput` if the count or the offset table is cut
    /// short. The texture definitions are then decoded in the order of the
    /// table, each with a cursor of its own that starts at its offset; the
    /// first one that fails ends the decoding with its failure:
    /// `OutOfBounds` if its offset or one of its fields lies outside the
    /// lump, `InvalidCharacter` if its name holds a byte above 127.
    pub fn parse(data: &[u8]) -> (res: Result<Self, WadError>)
        ensures
            match res {
                Ok(lump) => spec_textures(data@) == Ok::<TexturesView, WadError>(lump@),
                Err(e) => spec_textures(data@) == Err::<TexturesView, WadError>(e),
            },
    {
        let mut parser = LumpParser::new(data);
        let num_textures = parser.read_i32()?;
        assert(data@.take(4) =~= data@.subrange(0, 4));
        let ghost count = spec_count(num_textures as int);
        let mut offsets: Vec<i32> = Vec::new();
        let mut i: i32 = 0;
        while i < num_textures
            invariant
                0 <= i <= count,
                4 <= data@.len(),
                num_textures == spec_i32_le(data@.subrange(0, 4)),
                count == spec_count(num_textures as int),
                offsets@.len() == i,
                4 + 4 * i <= data@.len(),
                parser@ == data@.skip(4 + 4 * i),
                forall|k: int| 0 <= k < i ==> #[trigger] offsets@[k] == spec_offset(data@, k),
            decreases num_textures - i,
        {
            let offset = parser.read_i32()?;
            assert(data@.skip(4 + 4 * i).take(4) =~= data@.subrange(4 + 4 * i, 8 + 4 * i));
            assert(parser@ =~= data@.skip(4 + 4 * (i + 1)));
            offsets.push(offset);
            i += 1;
        }
        assert(offsets@ =~= Seq::new(count, |i: int| spec_offset(data@, i)));

        let mut textures: Vec<TexEntry> = Vec::new();
        let mut j: usize = 0;
        assert(Seq::new(0, |i: int| textures@[i]@) =~= Seq::<TexEntryView>::empty());
        while j < offsets.len()
            invariant
                j <= offsets@.len(),
                textures@.len() == j,
                4 + 4 * count <= data@.len(),
                num_textures == spec_i32_le(data@.subrange(0, 4)),
                count == spec_count(num_textures as int),
                offsets@ == Seq::new(count, |i: int| spec_offset(data@, i)),
                spec_tex_entries(data@, offsets@, j as nat) == Ok::<Seq<TexEntryView>, WadError>(
                    Seq::new(j as nat, |i: int| textures@[i]@),
                ),
            decreases offsets@.len() - j,
        {
            let ghost before = Seq::new(j as nat, |i: int| textures@[i]@);
            let offset = offsets[j];
            if offset < 0 || offset as usize >= data.len() {
                proof {
                    assert(spec_tex_entries(data@, offsets@, (j + 1) as nat) is Err);
                    lemma_tex_entries_failure_stays(
                        data@,
                        offsets@,
                        (j + 1) as nat,
                        offsets@.len(),
                    );
                }
                return Err(WadError::OutOfBounds);
            }
            let record = slice_subrange(data, offset as usize, data.len());
            assert(record@ =~= data@.skip(offset as int));
            let entry = match TexEntry::parse(record) {
                Ok(entry) => entry,
                Err(e) => {
                    proof {
                        assert(spec_tex_entries(data@, offsets@, (j + 1) as nat) is Err);
                        lemma_tex_entries_failure_stays(
                            data@,
                            offsets@,
                            (j + 1) as nat,
                            offsets@.len(),
                        );
                    }
                    return Err(e);
                },
            };
            textures.push(entry);
            j += 1;
            assert(Seq::new(j as nat, |i: int| textures@[i]@) =~= before.push(entry@));
        }
        let lump = TexturesLump { num_textures, offsets, textures };
        Ok(lump)
    }
}

} // verus!
