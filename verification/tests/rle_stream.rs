use ecp5::rle::decompress;
use ecp5::rle::Decompressor;

fn one_call(stream: &[u8]) -> Vec<u8> {
    let mut d = Decompressor::default();
    decompress(&mut d, stream)
}

#[test]
fn literal_spans_pass_through() {
    // Control 0x02 announces three literal bytes.
    assert_eq!(one_call(&[0x02, 7, 8, 9]), vec![7, 8, 9]);
    // Control 0x00 announces a single literal byte.
    assert_eq!(one_call(&[0x00, 0x5a]), vec![0x5a]);
}

#[test]
fn runs_expand_exactly() {
    // Control 0x80 announces the shortest run: three copies.
    assert_eq!(one_call(&[0x80, 0xaa]), vec![0xaa, 0xaa, 0xaa]);
    // Control 0x81 announces four copies.
    assert_eq!(one_call(&[0x81, 0xab]), vec![0xab; 4]);
    // Control 0xff announces the longest run: 130 copies.
    assert_eq!(one_call(&[0xff, 0x01]), vec![0x01; 130]);
}

#[test]
fn mixed_stream_decodes_in_order() {
    let stream = [0x01, 0xde, 0xad, 0x82, 0x00, 0x00, 0xbe];
    let mut expected = vec![0xde, 0xad];
    expected.extend_from_slice(&[0x00; 5]);
    expected.push(0xbe);
    assert_eq!(one_call(&stream), expected);
}

#[test]
fn empty_input_emits_nothing_and_keeps_state() {
    let mut d = Decompressor::default();
    assert_eq!(decompress(&mut d, &[]), Vec::<u8>::new());
    assert_eq!(d, Decompressor::Ready);
}

#[test]
fn split_inside_run_header_produces_zero_bytes_then_the_run() {
    // The chunk ends between the run control byte and the repeated byte:
    // the first call legitimately produces no output, and the persisted
    // state finishes the run on the next call.
    let mut d = Decompressor::default();
    let first = decompress(&mut d, &[0x85]);
    assert_eq!(first, Vec::<u8>::new());
    let second = decompress(&mut d, &[0xcc]);
    assert_eq!(second, vec![0xcc; 8]);
}

#[test]
fn split_anywhere_equals_one_call() {
    let stream = [0x03, 1, 2, 3, 4, 0x9b, 0x55, 0x00, 0xee, 0xff, 0x42, 0x80, 0x42];
    let whole = one_call(&stream);
    for cut in 0..=stream.len() {
        let mut d = Decompressor::default();
        let mut split_output = decompress(&mut d, &stream[..cut]);
        split_output.extend(decompress(&mut d, &stream[cut..]));
        assert_eq!(split_output, whole, "split at {cut}");
        let mut d_whole = Decompressor::default();
        decompress(&mut d_whole, &stream);
        assert_eq!(d, d_whole, "state after split at {cut}");
    }
}

#[test]
fn three_way_split_equals_one_call() {
    let stream = [0xff, 0x11, 0x02, 9, 8, 7, 0x84, 0x33];
    let whole = one_call(&stream);
    for a in 0..=stream.len() {
        for b in a..=stream.len() {
            let mut d = Decompressor::default();
            let mut out = decompress(&mut d, &stream[..a]);
            out.extend(decompress(&mut d, &stream[a..b]));
            out.extend(decompress(&mut d, &stream[b..]));
            assert_eq!(out, whole, "splits at {a},{b}");
        }
    }
}
