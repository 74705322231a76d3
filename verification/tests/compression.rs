use yewoh::protocol::{huffman_compress, BitWriter, HuffmanDecoder, HuffmanVecWriter};

#[test]
fn compressed_bytes_decode_back() {
    let src: Vec<u8> = (0u8..=255).chain([0x1c, 0x00, 0x7f].iter().copied()).collect();
    let mut packed = Vec::new();
    huffman_compress(&src, &mut packed);
    assert!(!packed.is_empty());
    let mut decoder = HuffmanDecoder::default();
    let (used, out) = decoder.write(&packed).unwrap();
    assert_eq!(used, packed.len());
    assert_eq!(out, src);
}

#[test]
fn empty_packet_is_only_the_end_code() {
    let mut packed = Vec::new();
    huffman_compress(&[], &mut packed);
    let mut decoder = HuffmanDecoder::default();
    let (used, out) = decoder.write(&packed).unwrap();
    assert_eq!(used, packed.len());
    assert!(out.is_empty());
}

#[test]
fn decoder_waits_for_the_rest_of_a_packet() {
    let src = vec![1u8, 2, 3, 4, 5, 6, 7, 8];
    let mut packed = Vec::new();
    huffman_compress(&src, &mut packed);
    let mut decoder = HuffmanDecoder::default();
    let cut = packed.len() / 2;
    assert!(decoder.write(&packed[..cut]).is_none());
    let (used, out) = decoder.write(&packed[cut..]).unwrap();
    assert_eq!(used, packed.len() - cut);
    assert_eq!(out, src);
}

#[test]
fn streaming_writer_matches_one_shot_compression() {
    let src = b"hello world, hello world".to_vec();
    let mut expected = Vec::new();
    huffman_compress(&src, &mut expected);
    let mut out = Vec::new();
    {
        let mut w = HuffmanVecWriter::new(&mut out);
        assert_eq!(w.write(&src[..5]), 5);
        assert_eq!(w.write(&src[5..]), src.len() - 5);
        w.finish();
    }
    assert_eq!(out, expected);
}

#[test]
fn bit_writer_flush_pads_with_zero_bits() {
    let mut s = Vec::new();
    let mut w = BitWriter::new(&mut s);
    w.write_bits(3, 0b101);
    w.flush();
    assert_eq!(s, vec![0b1010_0000]);
}

#[test]
fn bit_writer_stores_whole_bytes_as_written() {
    let mut s = Vec::new();
    let mut w = BitWriter::new(&mut s);
    w.write_bits(8, 0xab);
    w.flush();
    assert_eq!(s, vec![0xab]);
}

#[test]
fn bit_writer_appends_after_what_the_buffer_held() {
    let mut s = vec![7u8];
    let mut w = BitWriter::new(&mut s);
    w.write_bits(12, 0xabc);
    w.write_bits(1, 1);
    w.flush();
    assert_eq!(s, vec![7, 0xab, 0xc8]);
}
