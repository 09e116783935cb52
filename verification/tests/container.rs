use webp_anim::Error;
use webp_anim::set_loop_count;

/// A minimal well-formed container: the RIFF header, a `VP8X` chunk, and
/// an `ANIM` chunk whose loop count starts at zero.
fn minimal_container() -> Vec<u8> {
    let mut b: Vec<u8> = Vec::new();
    b.extend_from_slice(b"RIFF");
    b.extend_from_slice(&[30, 0, 0, 0]);
    b.extend_from_slice(b"WEBP");
    b.extend_from_slice(b"VP8X");
    b.extend_from_slice(&[4, 0, 0, 0]);
    b.extend_from_slice(&[2, 0, 0, 0]);
    b.extend_from_slice(b"ANIM");
    b.extend_from_slice(&[6, 0, 0, 0]);
    b.extend_from_slice(&[255, 255, 255, 255]);
    b.extend_from_slice(&[0, 0]);
    b
}

#[test]
fn rewrites_only_the_loop_count_bytes() {
    let src = minimal_container();
    let out = set_loop_count(&src, 5).unwrap();
    assert_eq!(out.len(), src.len());
    for (i, (a, b)) in src.iter().zip(out.iter()).enumerate() {
        if i == 36 {
            assert_eq!(*b, 5);
        } else if i == 37 {
            assert_eq!(*b, 0);
        } else {
            assert_eq!(a, b, "byte {} must be untouched", i);
        }
    }
}

#[test]
fn rewrite_stores_little_endian_loop_count() {
    let out = set_loop_count(&minimal_container(), 0x1234).unwrap();
    assert_eq!(out[36], 0x34);
    assert_eq!(out[37], 0x12);
}

#[test]
fn rewrite_round_trips_to_the_same_bytes() {
    let once = set_loop_count(&minimal_container(), 5).unwrap();
    let twice = set_loop_count(&once, 5).unwrap();
    assert_eq!(once, twice);
}

#[test]
fn walker_handles_odd_chunks_and_trailing_frames() {
    let mut b: Vec<u8> = Vec::new();
    b.extend_from_slice(b"RIFF");
    b.extend_from_slice(&[54, 0, 0, 0]);
    b.extend_from_slice(b"WEBP");
    b.extend_from_slice(b"ICCP");
    b.extend_from_slice(&[3, 0, 0, 0]);
    b.extend_from_slice(&[9, 9, 9, 0]);
    b.extend_from_slice(b"ANIM");
    b.extend_from_slice(&[6, 0, 0, 0]);
    b.extend_from_slice(&[255, 255, 255, 255]);
    b.extend_from_slice(&[7, 0]);
    b.extend_from_slice(b"ANMF");
    b.extend_from_slice(&[16, 0, 0, 0]);
    b.extend_from_slice(&[0u8; 16]);
    assert_eq!(b.len(), 62);
    let out = set_loop_count(&b, 3).unwrap();
    assert_eq!(out[36], 3);
    assert_eq!(out[37], 0);
    for i in 0..b.len() {
        if i != 36 && i != 37 {
            assert_eq!(out[i], b[i]);
        }
    }
}

#[test]
fn truncated_buffer_is_a_mux_error() {
    assert_eq!(set_loop_count(&vec![0u8; 5], 1), Err(Error::Mux));
    let mut cut = minimal_container();
    cut.pop();
    assert_eq!(set_loop_count(&cut, 1), Err(Error::Mux));
}

#[test]
fn wrong_magic_is_a_mux_error() {
    let mut b = minimal_container();
    b[0] = b'X';
    assert_eq!(set_loop_count(&b, 1), Err(Error::Mux));
    let mut w = minimal_container();
    w[8] = b'X';
    assert_eq!(set_loop_count(&w, 1), Err(Error::Mux));
}

#[test]
fn wrong_riff_size_is_a_mux_error() {
    let mut b = minimal_container();
    b[4] = 29;
    assert_eq!(set_loop_count(&b, 1), Err(Error::Mux));
}

#[test]
fn container_without_animation_chunk_is_a_mux_error() {
    let mut b: Vec<u8> = Vec::new();
    b.extend_from_slice(b"RIFF");
    b.extend_from_slice(&[16, 0, 0, 0]);
    b.extend_from_slice(b"WEBP");
    b.extend_from_slice(b"VP8X");
    b.extend_from_slice(&[4, 0, 0, 0]);
    b.extend_from_slice(&[2, 0, 0, 0]);
    assert_eq!(set_loop_count(&b, 1), Err(Error::Mux));
}
