//! The bytes that decoded values stand for.
//!
//! Nothing in this library writes a WAD. The functions here say, for each
//! structure of the format, which bytes store a given value, and the lemmas
//! beside them show that decoding loses nothing: a decoded value fixes
//! every byte that its decoder has read.

use vstd::prelude::*;
use crate::container::{
    iwad_tag, pwad_tag, spec_directory_entry, spec_header, DirectoryEntryView, WadHeader, WadType,
};
use crate::error::WadError;
use crate::le_bytes::{
    lemma_i16_load_store, lemma_i32_load_store, spec_i16_to_le, spec_i32_le, spec_i32_to_le,
};
use crate::lumps::playpal::{spec_palette, Color};
use crate::lumps::textures::{spec_patch, spec_patch_count, spec_tex_entry, Patch, TexEntryView};
use crate::lumps::{
    lemma_tex_entries_one_by_one, spec_colormap, spec_count, spec_playpal, spec_pnames,
    spec_tex_entry_at, spec_textures,
};

verus! {

/// The four bytes that store the kind of a container.
pub open spec fn spec_tag_bytes(kind: WadType) -> Seq<u8> {
    match kind {
        WadType::IWAD => iwad_tag(),
        WadType::PWAD => pwad_tag(),
    }
}

/// The twelve bytes that store a header.
pub open spec fn spec_header_bytes(header: WadHeader) -> Seq<u8> {
    spec_tag_bytes(header.iwad_or_pwad) + spec_i32_to_le(header.num_lumps as int) + spec_i32_to_le(
        header.directory_offset_bytes as int,
    )
}

/// A header that decodes is stored by the very bytes it was decoded from.
pub proof fn lemma_header_bytes_of_decoded(bytes: Seq<u8>)
    requires
        bytes.len() == 12,
        spec_header(bytes) is Ok,
    ensures
        spec_header_bytes(spec_header(bytes)->Ok_0) == bytes,
{
    lemma_i32_load_store(bytes.subrange(4, 8));
    lemma_i32_load_store(bytes.subrange(8, 12));
    assert(spec_header_bytes(spec_header(bytes)->Ok_0) =~= bytes.subrange(0, 4) + bytes.subrange(
        4,
        8,
    ) + bytes.subrange(8, 12));
    assert(bytes.subrange(0, 4) + bytes.subrange(4, 8) + bytes.subrange(8, 12) =~= bytes);
}

/// The sixteen bytes that store a directory entry.
pub open spec fn spec_directory_entry_bytes(entry: DirectoryEntryView) -> Seq<u8> {
    spec_i32_to_le(entry.offset_bytes as int) + spec_i32_to_le(entry.size_bytes as int)
        + entry.lump_name
}

/// A directory entry that decodes is stored by the very bytes it was
/// decoded from.
pub proof fn lemma_directory_entry_bytes_of_decoded(bytes: Seq<u8>)
    requires
        bytes.len() == 16,
        spec_directory_entry(bytes) is Ok,
    ensures
        spec_directory_entry_bytes(spec_directory_entry(bytes)->Ok_0) == bytes,
{
    lemma_i32_load_store(bytes.subrange(0, 4));
    lemma_i32_load_store(bytes.subrange(4, 8));
    assert(bytes.subrange(0, 4) + bytes.subrange(4, 8) + bytes.subrange(8, 16) =~= bytes);
}

/// The ten bytes that store a patch.
pub open spec fn spec_patch_bytes(patch: Patch) -> Seq<u8> {
    spec_i16_to_le(patch.x_offset as int) + spec_i16_to_le(patch.y_offset as int) + spec_i16_to_le(
        patch.pname_index as int,
    ) + spec_i16_to_le(patch._stepdir as int) + spec_i16_to_le(patch._colormap as int)
}

/// A patch is stored by the very bytes it was decoded from.
pub proof fn lemma_patch_bytes_of_decoded(bytes: Seq<u8>)
    requires
        bytes.len() == 10,
    ensures
        spec_patch_bytes(spec_patch(bytes)) == bytes,
{
    lemma_i16_load_store(bytes.subrange(0, 2));
    lemma_i16_load_store(bytes.subrange(2, 4));
    lemma_i16_load_store(bytes.subrange(4, 6));
    lemma_i16_load_store(bytes.subrange(6, 8));
    lemma_i16_load_store(bytes.subrange(8, 10));
    assert(bytes.subrange(0, 2) + bytes.subrange(2, 4) + bytes.subrange(4, 6) + bytes.subrange(
        6,
        8,
    ) + bytes.subrange(8, 10) =~= bytes);
}

/// The bytes that store a sequence of colors: red, green and blue of each,
/// in order.
pub open spec fn spec_palette_bytes(colors: Seq<Color>) -> Seq<u8> {
    Seq::new(
        3 * colors.len(),
        |i: int|
            if i % 3 == 0 {
                colors[i / 3].r
            } else if i % 3 == 1 {
                colors[i / 3].g
            } else {
                colors[i / 3].b
            },
    )
}

/// The bytes that store a palette lump: its palettes of 256 colors, one
/// after the other.
pub open spec fn spec_playpal_bytes(palettes: Seq<Seq<Color>>) -> Seq<u8> {
    Seq::new(768 * palettes.len(), |i: int| spec_palette_bytes(palettes[i / 768])[i % 768])
}

/// A palette lump that decodes is stored by the very bytes it was decoded
/// from.
pub proof fn lemma_playpal_bytes_of_decoded(data: Seq<u8>)
    requires
        spec_playpal(data) is Ok,
    ensures
        spec_playpal_bytes(spec_playpal(data)->Ok_0) == data,
{
    let palettes = spec_playpal(data)->Ok_0;
    let bytes = spec_playpal_bytes(palettes);
    assert(bytes.len() == data.len());
    assert forall|i: int| 0 <= i < data.len() implies bytes[i] == data[i] by {
        let k = i / 768;
        let j = i % 768;
        let part = data.subrange(768 * k, 768 * k + 768);
        assert(palettes[k] == spec_palette(part));
        let triple = part.subrange(3 * (j / 3), 3 * (j / 3) + 3);
        assert(triple[j % 3] == data[i]);
    }
    assert(bytes =~= data);
}

/// The bytes that store a shading-table lump: its 34 maps of 256 bytes,
/// one after the other.
pub open spec fn spec_colormap_bytes(maps: Seq<Seq<u8>>) -> Seq<u8> {
    Seq::new(256 * maps.len(), |i: int| maps[i / 256][i % 256])
}

/// A shading-table lump that decodes is stored by the very bytes it was
/// decoded from.
pub proof fn lemma_colormap_bytes_of_decoded(data: Seq<u8>)
    requires
        spec_colormap(data) is Ok,
    ensures
        spec_colormap_bytes(spec_colormap(data)->Ok_0) == data,
{
    assert(spec_colormap_bytes(spec_colormap(data)->Ok_0) =~= data);
}

/// The bytes that store a name table: the number of names, then the names,
/// eight bytes each.
pub open spec fn spec_pnames_bytes(names: Seq<Seq<u8>>) -> Seq<u8> {
    spec_i32_to_le(names.len() as int) + Seq::new(8 * names.len(), |i: int| names[i / 8][i % 8])
}

/// A name table that decodes, and does not declare a negative number of
/// names, is stored by the very bytes it was decoded from.
///
/// A table of four bytes that declares a negative number decodes to no
/// names, like one that declares none: those two are told apart by their
/// bytes only.
pub proof fn lemma_pnames_bytes_of_decoded(data: Seq<u8>)
    requires
        spec_pnames(data) is Ok,
        spec_i32_le(data.subrange(0, 4)) >= 0,
    ensures
        spec_pnames_bytes(spec_pnames(data)->Ok_0) == data,
{
    let names = spec_pnames(data)->Ok_0;
    lemma_i32_load_store(data.subrange(0, 4));
    let rest = Seq::new(8 * names.len(), |i: int| names[i / 8][i % 8]);
    assert(rest =~= data.subrange(4, data.len() as int));
    assert(data.subrange(0, 4) + data.subrange(4, data.len() as int) =~= data);
}

/// The bytes that store a sequence of patches, ten bytes each.
pub open spec fn spec_patches_bytes(patches: Seq<Patch>) -> Seq<u8> {
    Seq::new(10 * patches.len(), |i: int| spec_patch_bytes(patches[i / 10])[i % 10])
}

/// The bytes that store a texture definition: its header of 22 bytes, then
/// its patches.
pub open spec fn spec_tex_entry_bytes(entry: TexEntryView) -> Seq<u8> {
    entry.name + spec_i32_to_le(entry._masked as int) + spec_i16_to_le(entry.tex_width as int)
        + spec_i16_to_le(entry.tex_height as int) + spec_i32_to_le(entry._columndirectory as int)
        + spec_i16_to_le(entry.num_patches as int) + spec_patches_bytes(entry.patches)
}

/// A texture definition that decodes is stored by the bytes it was decoded
/// from: the header and the declared patches, without what follows them.
pub proof fn lemma_tex_entry_bytes_of_decoded(record: Seq<u8>)
    requires
        spec_tex_entry(record) is Ok,
    ensures
        22 + 10 * spec_patch_count(record) <= record.len(),
        spec_tex_entry_bytes(spec_tex_entry(record)->Ok_0) == record.take(
            22 + 10 * (spec_patch_count(record) as int),
        ),
{
    let entry = spec_tex_entry(record)->Ok_0;
    let count = spec_patch_count(record) as int;
    lemma_i32_load_store(record.subrange(8, 12));
    lemma_i16_load_store(record.subrange(12, 14));
    lemma_i16_load_store(record.subrange(14, 16));
    lemma_i32_load_store(record.subrange(16, 20));
    lemma_i16_load_store(record.subrange(20, 22));
    let patches = spec_patches_bytes(entry.patches);
    assert(patches.len() == 10 * count);
    assert forall|i: int| 0 <= i < 10 * count implies patches[i] == record[22 + i] by {
        let k = i / 10;
        let part = record.subrange(22 + 10 * k, 32 + 10 * k);
        assert(entry.patches[k] == spec_patch(part));
        lemma_patch_bytes_of_decoded(part);
        assert(part[i % 10] == record[22 + i]);
    }
    assert(patches =~= record.subrange(22, 22 + 10 * count));
    assert(record.subrange(0, 8) + record.subrange(8, 12) + record.subrange(12, 14)
        + record.subrange(14, 16) + record.subrange(16, 20) + record.subrange(20, 22)
        + record.subrange(22, 22 + 10 * count) =~= record.take(22 + 10 * count));
}

/// Every part of a texture lump that decodes is stored by the bytes it was
/// decoded from: the count, each offset of the table, and at each offset
/// the texture definition found there.
///
/// Bytes of the lump that no record covers are not part of what is decoded,
/// so the decoded lump does not fix them.
pub proof fn lemma_textures_bytes_of_decoded(data: Seq<u8>, i: int)
    requires
        spec_textures(data) is Ok,
        0 <= i < spec_textures(data)->Ok_0.offsets.len(),
    ensures
        ({
            let lump = spec_textures(data)->Ok_0;
            let record = spec_tex_entry_bytes(lump.textures[i]);
            &&& data.subrange(0, 4) == spec_i32_to_le(lump.num_textures as int)
            &&& lump.offsets.len() == lump.textures.len()
            &&& data.subrange(4 + 4 * i, 8 + 4 * i) == spec_i32_to_le(lump.offsets[i] as int)
            &&& 0 <= lump.offsets[i]
            &&& lump.offsets[i] + record.len() <= data.len()
            &&& data.subrange(lump.offsets[i] as int, lump.offsets[i] + record.len()) == record
        }),
{
    let lump = spec_textures(data)->Ok_0;
    let count = spec_count(spec_i32_le(data.subrange(0, 4)));
    lemma_i32_load_store(data.subrange(0, 4));
    lemma_i32_load_store(data.subrange(4 + 4 * i, 8 + 4 * i));
    lemma_tex_entries_one_by_one(data, lump.offsets, count);
    let offset = lump.offsets[i] as int;
    assert(spec_tex_entry_at(data, offset) == Ok::<TexEntryView, WadError>(lump.textures[i]));
    let rest = data.skip(offset);
    lemma_tex_entry_bytes_of_decoded(rest);
    let len = 22 + 10 * (spec_patch_count(rest) as int);
    assert(rest.take(len) =~= data.subrange(offset, offset + len));
}

} // verus!
