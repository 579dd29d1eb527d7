use wad::lumps::textures::{Patch, TexEntry};
use wad::lumps::{ColormapLump, PlaypalLump, PnamesLump, TexturesLump};
use wad::{Wad, WadDirectoryEntry, WadHeader, WadType};

/// Bytes that differ from place to place, to tell positions apart.
fn pattern(len: usize) -> Vec<u8> {
    (0..len).map(|i| (i * 7 + i / 256) as u8).collect()
}

fn header_bytes(header: &WadHeader) -> Vec<u8> {
    let mut bytes = Vec::new();
    bytes.extend_from_slice(match header.iwad_or_pwad {
        WadType::IWAD => b"IWAD",
        WadType::PWAD => b"PWAD",
    });
    bytes.extend_from_slice(&header.num_lumps.to_le_bytes());
    bytes.extend_from_slice(&header.directory_offset_bytes.to_le_bytes());
    bytes
}

fn entry_bytes(entry: &WadDirectoryEntry) -> Vec<u8> {
    let mut bytes = Vec::new();
    bytes.extend_from_slice(&entry.offset_bytes.to_le_bytes());
    bytes.extend_from_slice(&entry.size_bytes.to_le_bytes());
    bytes.extend_from_slice(entry.lump_name.as_bytes());
    bytes
}

fn patch_bytes(patch: &Patch) -> Vec<u8> {
    let mut bytes = Vec::new();
    for field in
        [patch.x_offset, patch.y_offset, patch.pname_index, patch._stepdir, patch._colormap]
    {
        bytes.extend_from_slice(&field.to_le_bytes());
    }
    bytes
}

fn tex_entry_bytes(entry: &TexEntry) -> Vec<u8> {
    let mut bytes = Vec::new();
    bytes.extend_from_slice(entry.name.as_bytes());
    bytes.extend_from_slice(&entry._masked.to_le_bytes());
    bytes.extend_from_slice(&entry.tex_width.to_le_bytes());
    bytes.extend_from_slice(&entry.tex_height.to_le_bytes());
    bytes.extend_from_slice(&entry._columndirectory.to_le_bytes());
    bytes.extend_from_slice(&entry.num_patches.to_le_bytes());
    for patch in &entry.patches {
        bytes.extend_from_slice(&patch_bytes(patch));
    }
    bytes
}

#[test]
fn header_stores_back_to_the_same_bytes() {
    for bytes in [
        *b"IWAD\x2a\x00\x00\x00\x00\x04\x00\x00",
        *b"PWAD\xff\xff\xff\xff\x00\x00\x00\x80",
        *b"PWAD\x01\x02\x03\x04\xfc\xfd\xfe\x7f",
    ] {
        let header = WadHeader::new(bytes).unwrap();
        assert_eq!(header_bytes(&header), bytes);
    }
}

#[test]
fn directory_entry_stores_back_to_the_same_bytes() {
    for bytes in [
        *b"\x0c\x00\x00\x00\x00\x2a\x00\x00PLAYPAL\0",
        *b"\xff\xff\xff\xff\x00\x00\x00\x80\x7f\x01\0A\0B\0\x7f",
    ] {
        let entry = WadDirectoryEntry::new(bytes).unwrap();
        assert_eq!(entry_bytes(&entry), bytes);
    }
}

#[test]
fn patch_stores_back_to_the_same_bytes() {
    let bytes = [0x01, 0x80, 0xff, 0x7f, 0x00, 0x00, 0xff, 0xff, 0x34, 0x12];
    let patch = Patch::from_bytes(&bytes);
    assert_eq!(patch_bytes(&patch), bytes);
}

#[test]
fn playpal_stores_back_to_the_same_bytes() {
    let data = pattern(3 * 768);
    let lump = PlaypalLump::parse(&data).unwrap();

    let mut bytes = Vec::new();
    for palette in &lump.palettes {
        for color in &palette.colors {
            bytes.extend_from_slice(&[color.r, color.g, color.b]);
        }
    }
    assert_eq!(bytes, data);
}

#[test]
fn colormap_stores_back_to_the_same_bytes() {
    let data = pattern(8704);
    let lump = ColormapLump::parse(&data).unwrap();

    let bytes: Vec<u8> = lump.maps.iter().flatten().copied().collect();
    assert_eq!(bytes, data);
}

#[test]
fn pnames_stores_back_to_the_same_bytes() {
    let mut data = 3i32.to_le_bytes().to_vec();
    data.extend_from_slice(b"WALL00_1DOOR\0\0\0\0\x7f\x01\0\0\0\0\0Z");
    let lump = PnamesLump::parse(&data).unwrap();

    let mut bytes = (lump.pnames.len() as i32).to_le_bytes().to_vec();
    for name in &lump.pnames {
        bytes.extend_from_slice(name.as_bytes());
    }
    assert_eq!(bytes, data);
}

#[test]
fn tex_entry_stores_back_to_the_bytes_it_has_read() {
    let mut data = b"BIGDOOR1".to_vec();
    data.extend_from_slice(&pattern(12));
    data.extend_from_slice(&3i16.to_le_bytes());
    data.extend_from_slice(&pattern(30));
    let record_len = data.len();
    data.extend_from_slice(b"padding");

    let entry = TexEntry::parse(&data).unwrap();

    assert_eq!(tex_entry_bytes(&entry), &data[..record_len]);
}

#[test]
fn textures_store_back_each_part_at_its_place() {
    let mut first = b"FIRST\0\0\0".to_vec();
    first.extend_from_slice(&pattern(12));
    first.extend_from_slice(&1i16.to_le_bytes());
    first.extend_from_slice(&pattern(10));
    let mut second = b"SECOND\0\0".to_vec();
    second.extend_from_slice(&pattern(12));
    second.extend_from_slice(&(-1i16).to_le_bytes());

    let mut data = 2i32.to_le_bytes().to_vec();
    data.extend_from_slice(&((12 + 3 + first.len()) as i32).to_le_bytes());
    data.extend_from_slice(&15i32.to_le_bytes());
    data.extend_from_slice(b"gap");
    data.extend_from_slice(&first);
    data.extend_from_slice(&second);

    let lump = TexturesLump::parse(&data).unwrap();

    assert_eq!(lump.num_textures.to_le_bytes(), data[0..4]);
    assert_eq!(lump.offsets.len(), lump.textures.len());
    for (i, (offset, texture)) in lump.offsets.iter().zip(&lump.textures).enumerate() {
        assert_eq!(offset.to_le_bytes(), data[4 + 4 * i..8 + 4 * i]);
        let record = tex_entry_bytes(texture);
        let start = *offset as usize;
        assert_eq!(record, &data[start..start + record.len()]);
    }
}

#[test]
fn lump_read_from_a_container_decodes() {
    let mut names = 1i32.to_le_bytes().to_vec();
    names.extend_from_slice(b"WALL00_1");

    let mut storage = b"IWAD".to_vec();
    storage.extend_from_slice(&1i32.to_le_bytes());
    storage.extend_from_slice(&((12 + names.len()) as i32).to_le_bytes());
    storage.extend_from_slice(&names);
    storage.extend_from_slice(&12i32.to_le_bytes());
    storage.extend_from_slice(&(names.len() as i32).to_le_bytes());
    storage.extend_from_slice(b"PNAMES\0\0");

    let wad = Wad::new(storage).unwrap();
    let entry = wad.directory()[0];
    assert!(!entry.is_virtual());
    let mut buf = vec![0u8; entry.size_bytes as usize];
    entry.read_lump(&mut buf, &wad).unwrap();
    let lump = PnamesLump::parse(&buf).unwrap();

    assert_eq!(entry.lump_name.to_string(), "PNAMES");
    assert_eq!(buf, names);
    assert_eq!(lump.pnames.len(), 1);
    assert_eq!(lump.pnames[0].to_string(), "WALL00_1");
}
