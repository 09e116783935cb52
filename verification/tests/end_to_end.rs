use webp_anim::set_loop_count;

fn encode_three_frames() -> Vec<u8> {
    let mut enc = webp_animation::Encoder::new((10, 10)).unwrap();
    // three visibly different frames, so none is merged away
    enc.add_frame(&vec![40u8; 10 * 10 * 4], 0).unwrap();
    enc.add_frame(&vec![140u8; 10 * 10 * 4], 100).unwrap();
    enc.add_frame(&vec![240u8; 10 * 10 * 4], 200).unwrap();
    enc.finalize(300).unwrap().to_vec()
}

#[test]
fn real_container_holds_three_frames_with_expected_timestamps() {
    let bytes = encode_three_frames();
    let ends: Vec<i32> = webp_animation::Decoder::new(&bytes)
        .unwrap()
        .into_iter()
        .map(|f| f.timestamp())
        .collect();
    // the decoder reports when each frame's interval ends: the frames
    // submitted at 0, 100 and 200 end at 100, 200 and the terminator 300
    assert_eq!(ends, vec![100, 200, 300]);
}

#[test]
fn rewriter_accepts_a_real_container_and_touches_only_the_loop_field() {
    let bytes = encode_three_frames();
    let out = set_loop_count(&bytes, 5).unwrap();
    assert_eq!(out.len(), bytes.len());
    let diff: Vec<usize> = (0..bytes.len()).filter(|&i| bytes[i] != out[i]).collect();
    // the loop count was zero, so only the low loop-count byte changes
    assert_eq!(diff.len(), 1);
    assert_eq!(out[diff[0]], 5);
    assert_eq!(bytes[diff[0]], 0);

    // rewriting again with the same count is a fixed point
    let again = set_loop_count(&out, 5).unwrap();
    assert_eq!(out, again);

    // the patched container still decodes to the same three frames
    let ends: Vec<i32> = webp_animation::Decoder::new(&out)
        .unwrap()
        .into_iter()
        .map(|f| f.timestamp())
        .collect();
    assert_eq!(ends, vec![100, 200, 300]);
}
