use fm_network::client::PeerAddr;
use fm_network::decoders::DecoderMap;
use fm_network::jpeg_decoder::{FragmentError, JPEGDecoder, JPEGHeader};
use std::io::Write;

fn header(id: i32, length: i32, offset: i32, gzip: bool) -> JPEGHeader {
    JPEGHeader { label: 0, id, length, offset, gzip, color_reduction: 0 }
}

fn gzip_of(data: &[u8]) -> Vec<u8> {
    let mut e = flate2::write::GzEncoder::new(Vec::new(), flate2::Compression::default());
    e.write_all(data).unwrap();
    e.finish().unwrap()
}

#[test]
fn new_decoder_is_zero_filled() {
    let d = JPEGDecoder::new(header(7, 4, 0, false));
    assert_eq!(d.buffer(), &vec![0u8; 4]);
    assert_eq!(d.byte_received(), 0);
    assert_eq!(d.header().id, 7);
}

#[test]
fn negative_length_gives_an_empty_buffer() {
    let mut d = JPEGDecoder::new(header(7, -5, 0, false));
    assert!(d.buffer().is_empty());
    assert_eq!(
        d.append_data(header(7, -5, 0, false), &vec![]),
        Err(FragmentError::FragmentOutOfBounds)
    );
}

#[test]
fn two_fragments_complete_an_image() {
    let mut d = JPEGDecoder::new(header(7, 10, 0, false));
    assert_eq!(d.append_data(header(7, 10, 0, false), &vec![0, 1, 2, 3, 4]), Ok(None));
    assert_eq!(d.byte_received(), 5);
    assert_eq!(
        d.append_data(header(7, 10, 5, false), &vec![5, 6, 7, 8, 9]),
        Ok(Some(vec![0, 1, 2, 3, 4, 5, 6, 7, 8, 9]))
    );
    assert_eq!(d.byte_received(), 10);
    // a fragment of the next image starts afresh
    assert_eq!(d.append_data(header(8, 4, 0, false), &vec![1, 2]), Ok(None));
    assert_eq!(d.header().id, 8);
    assert_eq!(d.byte_received(), 2);
    assert_eq!(d.buffer(), &vec![1, 2, 0, 0]);
}

#[test]
fn tiles_complete_in_any_order() {
    let mut d = JPEGDecoder::new(header(1, 9, 6, false));
    assert_eq!(d.append_data(header(1, 9, 6, false), &vec![6, 7, 8]), Ok(None));
    assert_eq!(d.append_data(header(1, 9, 0, false), &vec![0, 1]), Ok(None));
    assert_eq!(
        d.append_data(header(1, 9, 2, false), &vec![2, 3, 4, 5]),
        Ok(Some(vec![0, 1, 2, 3, 4, 5, 6, 7, 8]))
    );
}

#[test]
fn single_fragment_completes() {
    let mut d = JPEGDecoder::new(header(3, 3, 0, false));
    assert_eq!(d.append_data(header(3, 3, 0, false), &vec![9, 9, 9]), Ok(Some(vec![9, 9, 9])));
}

#[test]
fn fragment_past_the_end_is_refused() {
    let mut d = JPEGDecoder::new(header(7, 10, 0, false));
    assert_eq!(d.append_data(header(7, 10, 0, false), &vec![1, 2, 3]), Ok(None));
    assert_eq!(
        d.append_data(header(7, 10, 8, false), &vec![1, 2, 3]),
        Err(FragmentError::FragmentOutOfBounds)
    );
    assert_eq!(d.byte_received(), 3);
    assert_eq!(d.buffer(), &vec![1, 2, 3, 0, 0, 0, 0, 0, 0, 0]);
    // one that ends exactly at the end is taken
    assert_eq!(d.append_data(header(7, 10, 8, false), &vec![1, 2]), Ok(None));
    assert_eq!(d.byte_received(), 5);
}

#[test]
fn negative_offset_is_refused() {
    let mut d = JPEGDecoder::new(header(7, 10, 0, false));
    assert_eq!(
        d.append_data(header(7, 10, -1, false), &vec![1]),
        Err(FragmentError::FragmentOutOfBounds)
    );
    assert_eq!(d.byte_received(), 0);
}

#[test]
fn fragment_is_held_to_both_total_lengths() {
    let mut d = JPEGDecoder::new(header(7, 10, 0, false));
    // same image, but the fragment claims a shorter total
    assert_eq!(
        d.append_data(header(7, 4, 0, false), &vec![1, 2, 3, 4, 5]),
        Err(FragmentError::FragmentOutOfBounds)
    );
    // same image, but the fragment claims a longer total
    assert_eq!(
        d.append_data(header(7, 20, 8, false), &vec![1, 2, 3]),
        Err(FragmentError::FragmentOutOfBounds)
    );
    assert_eq!(d.byte_received(), 0);
    assert_eq!(d.buffer().len(), 10);
}

#[test]
fn refused_fragment_of_another_image_still_resets() {
    let mut d = JPEGDecoder::new(header(7, 10, 0, false));
    assert_eq!(d.append_data(header(7, 10, 0, false), &vec![1, 2, 3, 4, 5]), Ok(None));
    assert_eq!(
        d.append_data(header(8, 10, 0, false), &vec![0; 11]),
        Err(FragmentError::FragmentOutOfBounds)
    );
    assert_eq!(d.header().id, 8);
    assert_eq!(d.byte_received(), 0);
    assert_eq!(d.buffer(), &vec![0u8; 10]);
}

#[test]
fn new_image_discards_progress() {
    let mut d = JPEGDecoder::new(header(7, 10, 0, false));
    assert_eq!(d.append_data(header(7, 10, 0, false), &vec![1, 2, 3, 4, 5, 6]), Ok(None));
    assert_eq!(d.append_data(header(9, 3, 1, false), &vec![8]), Ok(None));
    assert_eq!(d.header().id, 9);
    assert_eq!(d.buffer(), &vec![0, 8, 0]);
    assert_eq!(d.byte_received(), 1);
}

#[test]
fn completion_goes_by_count_not_coverage() {
    let mut d = JPEGDecoder::new(header(7, 4, 0, false));
    assert_eq!(d.append_data(header(7, 4, 0, false), &vec![1, 2]), Ok(None));
    assert_eq!(d.append_data(header(7, 4, 0, false), &vec![3, 4]), Ok(Some(vec![3, 4, 0, 0])));
    // the count is not reset: another fragment completes again
    assert_eq!(d.append_data(header(7, 4, 3, false), &vec![5]), Ok(Some(vec![3, 4, 0, 5])));
    assert_eq!(d.byte_received(), 5);
}

#[test]
fn empty_image_completes_at_once() {
    let mut d = JPEGDecoder::new(header(7, 0, 0, false));
    assert_eq!(d.append_data(header(7, 0, 0, false), &vec![]), Ok(Some(vec![])));
}

#[test]
fn gzip_image_is_decoded() {
    let plain: Vec<u8> = (0..200u8).collect();
    let packed = gzip_of(&plain);
    assert_ne!(packed, plain);
    let total = packed.len() as i32;
    let cut = packed.len() / 2;
    let mut d = JPEGDecoder::new(header(5, total, 0, true));
    assert_eq!(d.append_data(header(5, total, 0, true), &packed[..cut].to_vec()), Ok(None));
    assert_eq!(
        d.append_data(header(5, total, cut as i32, true), &packed[cut..].to_vec()),
        Ok(Some(plain))
    );
    // the buffer keeps what was received
    assert_eq!(d.buffer(), &packed);
}

#[test]
fn broken_gzip_image_is_emitted_as_received() {
    let raw = vec![1u8, 2, 3, 4, 5, 6];
    let mut d = JPEGDecoder::new(header(5, 6, 0, true));
    assert_eq!(d.append_data(header(5, 6, 0, true), &raw), Ok(Some(raw.clone())));
}

#[test]
fn gzip_flag_off_leaves_a_gzip_stream_alone() {
    let packed = gzip_of(b"abc");
    let total = packed.len() as i32;
    let mut d = JPEGDecoder::new(header(5, total, 0, false));
    assert_eq!(d.append_data(header(5, total, 0, false), &packed), Ok(Some(packed.clone())));
}

#[test]
fn finish_image_picks_the_decoded_bytes() {
    let buffer = vec![1u8, 2, 3];
    assert_eq!(JPEGDecoder::finish_image(&buffer, true, Some(vec![9])), vec![9]);
    assert_eq!(JPEGDecoder::finish_image(&buffer, true, None), vec![1, 2, 3]);
    assert_eq!(JPEGDecoder::finish_image(&buffer, false, Some(vec![9])), vec![1, 2, 3]);
    assert_eq!(JPEGDecoder::finish_image(&buffer, false, None), vec![1, 2, 3]);
}

#[test]
fn fragment_error_has_a_message() {
    assert_eq!(FragmentError::FragmentOutOfBounds.message(), "Data exceeds header length");
}

#[test]
fn each_client_has_its_own_reassembler() {
    let a = PeerAddr::from_octets(10, 0, 0, 5, 4000);
    let b = PeerAddr::from_octets(10, 0, 0, 6, 4000);
    let mut m = DecoderMap::new();
    assert!(!m.contains(a));
    assert_eq!(m.accept(a, header(7, 4, 0, false), &vec![1, 2]), Ok(None));
    assert!(m.contains(a));
    assert!(!m.contains(b));
    assert_eq!(m.accept(b, header(7, 4, 2, false), &vec![7, 8]), Ok(None));
    assert_eq!(m.accept(a, header(7, 4, 2, false), &vec![3, 4]), Ok(Some(vec![1, 2, 3, 4])));
    assert_eq!(m.accept(b, header(7, 4, 0, false), &vec![5, 6]), Ok(Some(vec![5, 6, 7, 8])));
    m.clear();
    assert!(!m.contains(a));
    assert!(!m.contains(b));
}

#[test]
fn first_fragment_out_of_bounds_still_assigns_a_reassembler() {
    let a = PeerAddr::from_octets(10, 0, 0, 5, 4000);
    let mut m = DecoderMap::new();
    assert_eq!(
        m.accept(a, header(7, 2, 0, false), &vec![1, 2, 3]),
        Err(FragmentError::FragmentOutOfBounds)
    );
    assert!(m.contains(a));
}
