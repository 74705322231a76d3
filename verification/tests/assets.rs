use std::io::Write;

use yewoh::assets::map::{map_chunk_count, read_map_chunks, read_static_block, MapChunk, MapTile};
use yewoh::assets::mul::{mul_block_path_bytes, MulReader};
use yewoh::assets::multi::{load_multi_data, read_multi_prefab};
use yewoh::assets::tiles::{read_tile_data, TileFlags, NUM_ITEMS, NUM_LAND_TILES};
use yewoh::assets::uop::{hash, UopBuffer};
use yewoh::protocol::{ClientVersion, ExtendedClientVersion, ProtocolError};
use yewoh::source::{FilePosition, SourcePosition};

#[test]
fn path_hash_values() {
    assert_eq!(hash(b""), 0xdeadbeefdeadbeef);
    assert_eq!(hash(b"12345678"), 0x41b5f771941b63d3);
    assert_eq!(hash(b"build/multicollection/000000.bin"), 0x665ff35ac79d382b);
    assert_eq!(hash(b"build/map0legacymul/00000000.dat"), 0xdbb7afa433a3764b);
}

fn zlib(data: &[u8]) -> Vec<u8> {
    let mut z = flate2::write::ZlibEncoder::new(Vec::new(), flate2::Compression::fast());
    z.write_all(data).unwrap();
    z.finish().unwrap()
}

/// An archive with one block of entries, each `(path, bytes, compressed)`.
fn archive(entries: &[(&[u8], Vec<u8>, bool)]) -> Vec<u8> {
    let mut out = b"MYP\0".to_vec();
    out.extend_from_slice(&5u32.to_le_bytes());
    out.extend_from_slice(&0xabcdu32.to_le_bytes());
    out.extend_from_slice(&28u64.to_le_bytes());
    out.extend_from_slice(&100u32.to_le_bytes());
    out.extend_from_slice(&(entries.len() as u32).to_le_bytes());
    out.extend_from_slice(&(entries.len() as u32).to_le_bytes());
    out.extend_from_slice(&0u64.to_le_bytes());
    let mut data_at = 28 + 12 + 34 * entries.len();
    let mut payloads = Vec::new();
    for (path, bytes, compressed) in entries {
        let stored = if *compressed { zlib(bytes) } else { bytes.clone() };
        out.extend_from_slice(&(data_at as u64).to_le_bytes());
        out.extend_from_slice(&0u32.to_le_bytes());
        out.extend_from_slice(&(stored.len() as u32).to_le_bytes());
        out.extend_from_slice(&(bytes.len() as u32).to_le_bytes());
        out.extend_from_slice(&hash(path).to_le_bytes());
        out.extend_from_slice(&0u32.to_le_bytes());
        out.extend_from_slice(&(if *compressed { 1u16 } else { 0u16 }).to_le_bytes());
        data_at += stored.len();
        payloads.push(stored);
    }
    for p in payloads {
        out.extend_from_slice(&p);
    }
    out
}

#[test]
fn archive_entries_are_found_by_path() {
    let bytes = archive(&[
        (b"build/multicollection/000000.bin".as_slice(), vec![1, 2, 3], false),
        (b"build/multicollection/000001.bin".as_slice(), vec![4, 5, 6, 7], true),
    ]);
    let uop = UopBuffer::try_from_backing(bytes).unwrap();
    assert_eq!(uop.len(), 2);
    let mut hashes = uop.iter_hashes();
    hashes.sort();
    let mut expected = vec![hash(b"build/multicollection/000000.bin"), hash(b"build/multicollection/000001.bin")];
    expected.sort();
    assert_eq!(hashes, expected);
    assert_eq!(uop.get("build/multicollection/000000.bin").unwrap().contents().unwrap(), vec![1, 2, 3]);
    let e = uop.get("build/multicollection/000001.bin").unwrap();
    assert_eq!(e.len(), 4);
    assert_eq!(e.contents().unwrap(), vec![4, 5, 6, 7]);
    assert!(uop.get("build/multicollection/000002.bin").is_none());
}

#[test]
fn archive_header_errors() {
    assert_eq!(UopBuffer::try_from_backing(b"NOPE".to_vec()).err(), Some(ProtocolError::InvalidValue));
    let mut v6 = archive(&[]);
    v6[4] = 6;
    assert_eq!(UopBuffer::try_from_backing(v6).err(), Some(ProtocolError::Unsupported));
    let mut short = archive(&[]);
    short.truncate(20);
    assert_eq!(UopBuffer::try_from_backing(short).err(), Some(ProtocolError::UnexpectedEof));
}

#[test]
fn archive_with_looping_blocks_is_refused() {
    let mut looping = archive(&[]);
    looping[32..40].copy_from_slice(&28u64.to_le_bytes());
    assert_eq!(UopBuffer::try_from_backing(looping).err(), Some(ProtocolError::InvalidValue));
}

#[test]
fn mul_file_from_archive_blocks() {
    let p0 = mul_block_path_bytes(b"map0", 0);
    assert_eq!(p0, b"build/map0legacymul/00000000.dat".to_vec());
    let p1 = mul_block_path_bytes(b"map0", 1);
    let bytes = archive(&[(p0.as_slice(), vec![1, 2], false), (p1.as_slice(), vec![3], true)]);
    let uop = UopBuffer::try_from_backing(bytes).unwrap();
    let mut reader = MulReader::from_uop(&uop, "map0").unwrap();
    let mut buf = [0u8; 5];
    assert_eq!(reader.read(&mut buf), 3);
    assert_eq!(&buf[..3], &[1, 2, 3]);
    assert_eq!(reader.read(&mut buf), 0);
}

#[test]
fn plain_mul_file_reads_in_pieces() {
    let mut reader = MulReader::from_raw(vec![9, 8, 7]);
    let mut buf = [0u8; 2];
    assert_eq!(reader.read(&mut buf), 2);
    assert_eq!(buf, [9, 8]);
    assert_eq!(reader.read(&mut buf), 1);
    assert_eq!(buf[0], 7);
}

#[test]
fn tile_data_reads_names_and_flags() {
    let mut s = Vec::new();
    for i in 0..NUM_LAND_TILES {
        if i % 32 == 0 {
            s.extend_from_slice(&[0, 0, 0, 0]);
        }
        s.extend_from_slice(&(0x1_0000_0040u64).to_le_bytes());
        s.extend_from_slice(&(i as u16).to_le_bytes());
        let mut name = [0u8; 20];
        name[..4].copy_from_slice(b"land");
        s.extend_from_slice(&name);
    }
    for i in 0..NUM_ITEMS {
        if i % 32 == 0 {
            s.extend_from_slice(&[0, 0, 0, 0]);
        }
        s.extend_from_slice(&(0x200u64).to_le_bytes());
        s.extend_from_slice(&[1, 2]);
        s.extend_from_slice(&7u16.to_le_bytes());
        s.extend_from_slice(&[0, 3, 0, 0, 0, 0, 0, 4, 5]);
        let mut name = [0u8; 20];
        name[..4].copy_from_slice(b"item");
        s.extend_from_slice(&name);
    }
    let data = read_tile_data(&s).unwrap();
    assert_eq!(data.land.len(), NUM_LAND_TILES);
    assert_eq!(data.items.len(), NUM_ITEMS);
    assert_eq!(data.land[5].name, "land");
    assert_eq!(data.land[5].texture_id, 5);
    assert_eq!(data.land[5].flags.bits(), TileFlags::IMPASSABLE);
    let item = &data.items[100];
    assert_eq!((item.weight, item.quality, item.animation, item.quantity, item.value, item.height), (1, 2, 7, 3, 4, 5));
    assert!(item.flags.contains(TileFlags::SURFACE));
    assert_eq!(read_tile_data(&s[..s.len() - 1]).err(), Some(ProtocolError::UnexpectedEof));
    let mut bad = s.clone();
    bad[4 + 10] = 0xff;
    assert_eq!(read_tile_data(&bad).err(), Some(ProtocolError::InvalidUtf8));
}

fn prefab_bytes() -> Vec<u8> {
    let mut s = Vec::new();
    s.extend_from_slice(&0u32.to_le_bytes());
    s.extend_from_slice(&1u32.to_le_bytes());
    s.extend_from_slice(&0x4000u16.to_le_bytes());
    s.extend_from_slice(&(-2i16).to_le_bytes());
    s.extend_from_slice(&3i16.to_le_bytes());
    s.extend_from_slice(&4i16.to_le_bytes());
    s.extend_from_slice(&1u16.to_le_bytes());
    s.extend_from_slice(&2u32.to_le_bytes());
    s.extend_from_slice(&10u32.to_le_bytes());
    s.extend_from_slice(&11u32.to_le_bytes());
    s
}

#[test]
fn multi_prefab_components() {
    let p = read_multi_prefab(&prefab_bytes()).unwrap();
    assert_eq!(p.components.len(), 1);
    let c = &p.components[0];
    assert_eq!((c.graphic, c.position.x, c.position.y, c.position.z, c.component_flags), (0x4000, -2, 3, 4, 1));
    assert_eq!(c.tooltip_ids, vec![10, 11]);
    assert_eq!(c.tile_flags.bits(), 0);
    let b = prefab_bytes();
    assert_eq!(read_multi_prefab(&b[..b.len() - 1]).err(), Some(ProtocolError::UnexpectedEof));
}

#[test]
fn multi_collection_skips_missing_numbers() {
    let bytes = archive(&[(b"build/multicollection/000003.bin".as_slice(), prefab_bytes(), true)]);
    let uop = UopBuffer::try_from_backing(bytes).unwrap();
    let data = load_multi_data(&uop).unwrap();
    assert_eq!(data.prefabs.len(), 1);
    assert_eq!(data.prefabs[0].components[0].tooltip_ids, vec![10, 11]);
}

#[test]
fn map_chunks_in_file_order() {
    assert_eq!(map_chunk_count(17, 8), (3, 1));
    let mut s = Vec::new();
    for k in 0..3u16 {
        s.extend_from_slice(&[0, 0, 0, 0]);
        for t in 0..64u16 {
            s.extend_from_slice(&(k * 100 + t).to_le_bytes());
            s.push((t as i8 - 10) as u8);
        }
    }
    let chunks = read_map_chunks(&s, 17, 8).unwrap();
    assert_eq!(chunks.len(), 3);
    let (x, y, chunk) = &chunks[2];
    assert_eq!((*x, *y), (2, 0));
    assert_eq!(chunk.get(1, 1), MapTile { tile_id: 209, height: -1 });
    assert_eq!(MapChunk::default().get(7, 7), MapTile { tile_id: 0, height: 0 });
    assert_eq!(read_map_chunks(&s[..100], 17, 8).err(), Some(ProtocolError::UnexpectedEof));
}

#[test]
fn static_blocks() {
    let mut index = Vec::new();
    index.extend_from_slice(&0u32.to_le_bytes());
    index.extend_from_slice(&7u32.to_le_bytes());
    index.extend_from_slice(&0u32.to_le_bytes());
    index.extend_from_slice(&0xffffffffu32.to_le_bytes());
    index.extend_from_slice(&0u32.to_le_bytes());
    index.extend_from_slice(&0u32.to_le_bytes());
    let data = vec![0x34, 0x12, 2, 0xff, 5, 0x21, 0x43];
    let statics = read_static_block(&index, &data, 0, 1, 2).unwrap().unwrap();
    assert_eq!(statics.len(), 1);
    let st = statics[0];
    assert_eq!((st.position.x, st.position.y, st.position.z, st.graphic_id, st.hue), (10, 15, 5, 0x1234, 0x4321));
    assert!(read_static_block(&index, &data, 1, 0, 0).unwrap().is_none());
    assert_eq!(read_static_block(&index, &data, 2, 0, 0).err(), Some(ProtocolError::UnexpectedEof));
}

#[test]
fn file_position_counts_lines_and_characters() {
    let contents = "ab\ncdé\nxyz";
    let remaining = &contents[contents.len() - 2..];
    let p = FilePosition::from_file_and_str("f.fab".to_string(), contents, remaining);
    assert_eq!((p.line, p.offset), (3, 1));
    assert_eq!(p.address(), "f.fab:3:1");
    let q = FilePosition::from_file_and_str("g".to_string(), contents, &contents[7..]);
    assert_eq!((q.line, q.offset), (2, 3));
}

#[test]
fn client_version_texts() {
    let v = ExtendedClientVersion::parse("7.0.15.1").unwrap();
    assert_eq!(v.client_version, ClientVersion::new(7, 0, 15, 1));
    assert_eq!(v.suffix, "");
    let v = ExtendedClientVersion::parse("5.0.9a").unwrap();
    assert_eq!(v.client_version, ClientVersion::new(5, 0, 9, 0));
    let v = ExtendedClientVersion::parse("4.0.11c").unwrap();
    assert_eq!((v.client_version, v.suffix.as_str()), (ClientVersion::new(4, 0, 11, 0), ""));
    let v = ExtendedClientVersion::parse("4.0.11 c").unwrap();
    assert_eq!((v.client_version, v.suffix.as_str()), (ClientVersion::new(4, 0, 11, 2), ""));
    let v = ExtendedClientVersion::parse("7.0.3.2 beta").unwrap();
    assert_eq!((v.client_version, v.suffix.as_str()), (ClientVersion::new(7, 0, 3, 2), "beta"));
    let v: ExtendedClientVersion = "6.0.1 test".parse().unwrap();
    assert_eq!((v.client_version, v.suffix.as_str()), (ClientVersion::new(6, 0, 1, 0), "test"));
    assert_eq!(ExtendedClientVersion::parse("7").err(), Some(ProtocolError::InvalidValue));
    assert_eq!(ExtendedClientVersion::parse("7.0.300.1").err(), Some(ProtocolError::InvalidValue));
    assert_eq!(ExtendedClientVersion::parse("7.0.15").err(), Some(ProtocolError::InvalidValue));
    assert_eq!(ClientVersion::new(7, 0, 15, 1).to_string(), "7.0.15.1");
}

#[test]
fn extended_version_reads_as_its_plain_version() {
    let v = ExtendedClientVersion::parse("7.0.15.1").unwrap();
    let plain: &ClientVersion = &v;
    assert_eq!(*plain, ClientVersion::new(7, 0, 15, 1));
    assert_eq!(v.to_string(), "7.0.15.1");
}

#[test]
fn later_archive_record_with_the_same_path_wins() {
    let bytes = archive(&[
        (b"build/multicollection/000000.bin".as_slice(), vec![1, 2, 3], false),
        (b"build/multicollection/000000.bin".as_slice(), vec![9, 8], true),
    ]);
    let uop = UopBuffer::try_from_backing(bytes).unwrap();
    assert_eq!(uop.len(), 1);
    assert_eq!(uop.iter_hashes(), vec![hash(b"build/multicollection/000000.bin")]);
    let e = uop.get("build/multicollection/000000.bin").unwrap();
    assert_eq!(e.len(), 2);
    assert_eq!(e.contents().unwrap(), vec![9, 8]);
}
