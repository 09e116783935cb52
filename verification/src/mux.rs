//! The loop-count rewriter: a pure, whole-buffer transformation that
//! parses the container's chunk structure, overwrites only the two
//! little-endian bytes of the animation chunk's loop-count field, and
//! leaves every other byte — in particular every frame payload —
//! untouched.

use vstd::prelude::*;

use crate::encoder::Error;

verus! {

/// The 32-bit little-endian value at offset `i`.
pub open spec fn le32_at(b: Seq<u8>, i: int) -> int {
    b[i] + 256 * (b[i + 1] + 256 * (b[i + 2] + 256 * b[i + 3]))
}

/// The chunk sequence starting at offset `i` tiles the buffer exactly:
/// each chunk is an eight-byte header followed by its payload, padded to
/// an even length.
pub open spec fn chunks_ok(b: Seq<u8>, i: int) -> bool
    decreases b.len() - i when 0 <= i <= b.len()
{
    if i == b.len() {
        true
    } else if i + 8 > b.len() {
        false
    } else {
        let sz = le32_at(b, i + 4);
        let next = i + 8 + sz + (sz % 2);
        next <= b.len() && chunks_ok(b, next)
    }
}

/// The four-character code `ANIM` stands at offset `i`.
pub open spec fn is_anim_at(b: Seq<u8>, i: int) -> bool {
    &&& b[i] == 0x41
    &&& b[i + 1] == 0x4e
    &&& b[i + 2] == 0x49
    &&& b[i + 3] == 0x4d
}

/// The offset of the loop-count field: four bytes into the payload of
/// the first animation chunk at or after offset `i`, if any.
pub open spec fn find_loop_off(b: Seq<u8>, i: int) -> Option<int>
    decreases b.len() - i when 0 <= i <= b.len()
{
    if i + 8 > b.len() {
        None
    } else if is_anim_at(b, i) && le32_at(b, i + 4) >= 6 && i + 14 <= b.len() {
        Some(i + 12)
    } else {
        let sz = le32_at(b, i + 4);
        let next = i + 8 + sz + (sz % 2);
        if next <= b.len() {
            find_loop_off(b, next)
        } else {
            None
        }
    }
}

/// A structurally valid container: the RIFF magic, a size field that
/// covers the buffer exactly, the WEBP form tag, and a well-formed chunk
/// sequence.
pub open spec fn valid_container(b: Seq<u8>) -> bool {
    &&& b.len() >= 12
    &&& b[0] == 0x52 && b[1] == 0x49 && b[2] == 0x46 && b[3] == 0x46
    &&& le32_at(b, 4) + 8 == b.len()
    &&& b[8] == 0x57 && b[9] == 0x45 && b[10] == 0x42 && b[11] == 0x50
    &&& chunks_ok(b, 12)
}

/// The container with the two loop-count bytes at `p` replaced by the
/// little-endian encoding of `lc`.
pub open spec fn rewrite_spec(b: Seq<u8>, p: int, lc: int) -> Seq<u8> {
    b.update(p, (lc % 256) as u8).update(p + 1, ((lc / 256) % 256) as u8)
}

/// Reads the 32-bit little-endian value at offset `i`.
fn read_le32(b: &Vec<u8>, i: usize) -> (v: u32)
    requires
        i + 4 <= b@.len(),
    ensures
        v as int == le32_at(b@, i as int),
{
    proof {
        vstd::std_specs::vec::axiom_spec_len(b);
    }
    (b[i] as u32) + 256 * ((b[i + 1] as u32) + 256 * ((b[i + 2] as u32) + 256 * (b[i + 3]
        as u32)))
}

/// Compares the four bytes at offset `i` against a four-character code.
fn check4(b: &Vec<u8>, i: usize, c0: u8, c1: u8, c2: u8, c3: u8) -> (r: bool)
    requires
        i + 4 <= b@.len(),
    ensures
        r == (b@[i as int] == c0 && b@[i + 1] == c1 && b@[i + 2] == c2 && b@[i + 3] == c3),
{
    proof {
        vstd::std_specs::vec::axiom_spec_len(b);
    }
    b[i] == c0 && b[i + 1] == c1 && b[i + 2] == c2 && b[i + 3] == c3
}

/// Overwrites the loop-count field of an already-assembled container.
/// Succeeds exactly on a valid container that has an animation chunk;
/// the result differs from the input only in the two loop-count bytes.
/// Fails with the container error on anything else, as a whole-buffer
/// transformation with no partial application.
#[verifier::loop_isolation(false)]
#[verifier::rlimit(100)]
#[verifier::spinoff_prover]
pub fn set_loop_count(data: &Vec<u8>, loop_count: i32) -> (r: Result<Vec<u8>, Error>)
    requires
        0 <= loop_count <= 0xffff,
    ensures
        r is Ok <==> valid_container(data@) && find_loop_off(data@, 12) is Some,
        r matches Ok(out) ==> out@ == rewrite_spec(
            data@,
            find_loop_off(data@, 12).unwrap(),
            loop_count as int,
        ),
        r matches Err(e) ==> e == Error::Mux,
{
    let len: usize = data.len();
    if len < 12 {
        return Err(Error::Mux);
    }
    if !check4(data, 0, 0x52, 0x49, 0x46, 0x46) {
        return Err(Error::Mux);
    }
    if !check4(data, 8, 0x57, 0x45, 0x42, 0x50) {
        return Err(Error::Mux);
    }
    let riff_size: u32 = read_le32(data, 4);
    if riff_size as u64 + 8 != len as u64 {
        return Err(Error::Mux);
    }
    let mut i: usize = 12;
    let mut found: bool = false;
    let mut p: usize = 0;
    while i < len
        invariant
            12 <= i <= len,
            chunks_ok(data@, 12) == chunks_ok(data@, i as int),
            found ==> find_loop_off(data@, 12) == Some(p as int) && p + 2 <= len,
            !found ==> find_loop_off(data@, 12) == find_loop_off(data@, i as int),
        decreases len - i,
    {
        if len - i < 8 {
            return Err(Error::Mux);
        }
        let sz: u32 = read_le32(data, i + 4);
        let pad: u32 = sz % 2;
        let remaining: u64 = (len - (i + 8)) as u64;
        if sz as u64 + pad as u64 > remaining {
            return Err(Error::Mux);
        }
        if !found && sz >= 6 && check4(data, i, 0x41, 0x4e, 0x49, 0x4d) {
            p = i + 12;
            found = true;
        }
        i = i + 8 + (sz as usize) + (pad as usize);
    }
    if !found {
        return Err(Error::Mux);
    }
    let lo: u8 = (loop_count % 256) as u8;
    let hi: u8 = ((loop_count / 256) % 256) as u8;
    let mut out: Vec<u8> = Vec::new();
    let mut k: usize = 0;
    while k < len
        invariant
            0 <= k <= len,
            out@.len() == k,
            p + 2 <= len,
            forall|j: int|
                0 <= j < k ==> #[trigger] out@[j] == (if j == p {
                    lo
                } else if j == p + 1 {
                    hi
                } else {
                    data@[j]
                }),
        decreases len - k,
    {
        if k == p {
            out.push(lo);
        } else if k == p + 1 {
            out.push(hi);
        } else {
            out.push(data[k]);
        }
        k = k + 1;
    }
    proof {
        assert(out@ =~= rewrite_spec(data@, p as int, loop_count as int));
    }
    Ok(out)
}

/// The chunk walk reads nothing before its starting offset: buffers
/// that agree from `i` on walk identically.
proof fn lemma_chunks_ok_same_suffix(b1: Seq<u8>, b2: Seq<u8>, i: int)
    requires
        b1.len() == b2.len(),
        0 <= i <= b1.len(),
        forall|j: int| i <= j < b1.len() ==> b1[j] == b2[j],
    ensures
        chunks_ok(b1, i) == chunks_ok(b2, i),
    decreases b1.len() - i,
{
    if i == b1.len() {
    } else if i + 8 > b1.len() {
    } else {
        assert(le32_at(b1, i + 4) == le32_at(b2, i + 4));
        let sz = le32_at(b1, i + 4);
        let next = i + 8 + sz + (sz % 2);
        if next <= b1.len() {
            lemma_chunks_ok_same_suffix(b1, b2, next);
        }
    }
}

/// The loop-field search reads nothing before its starting offset.
proof fn lemma_find_same_suffix(b1: Seq<u8>, b2: Seq<u8>, i: int)
    requires
        b1.len() == b2.len(),
        0 <= i <= b1.len(),
        forall|j: int| i <= j < b1.len() ==> b1[j] == b2[j],
    ensures
        find_loop_off(b1, i) == find_loop_off(b2, i),
    decreases b1.len() - i,
{
    if i + 8 > b1.len() {
    } else {
        assert(le32_at(b1, i + 4) == le32_at(b2, i + 4));
        assert(is_anim_at(b1, i) == is_anim_at(b2, i));
        if is_anim_at(b1, i) && le32_at(b1, i + 4) >= 6 && i + 14 <= b1.len() {
        } else {
            let sz = le32_at(b1, i + 4);
            let next = i + 8 + sz + (sz % 2);
            if next <= b1.len() {
                lemma_find_same_suffix(b1, b2, next);
            }
        }
    }
}

/// A found loop-count field lies at least twelve bytes past the search
/// start and two bytes before the buffer's end.
proof fn lemma_find_bounds(b: Seq<u8>, i: int)
    requires
        0 <= i <= b.len(),
        find_loop_off(b, i) is Some,
    ensures
        i + 12 <= find_loop_off(b, i).unwrap(),
        find_loop_off(b, i).unwrap() + 2 <= b.len(),
    decreases b.len() - i,
{
    if i + 8 > b.len() {
    } else if is_anim_at(b, i) && le32_at(b, i + 4) >= 6 && i + 14 <= b.len() {
    } else {
        let sz = le32_at(b, i + 4);
        let next = i + 8 + sz + (sz % 2);
        if next <= b.len() {
            lemma_find_bounds(b, next);
        }
    }
}

/// Patching the two loop-count bytes changes neither the chunk
/// structure nor where the loop-count field is found: the patched bytes
/// sit strictly inside the animation chunk's payload, which no chunk
/// header overlaps.
proof fn lemma_rewrite_structure(b: Seq<u8>, i: int, p: int, lc: int)
    requires
        0 <= i <= b.len(),
        find_loop_off(b, i) == Some(p),
    ensures
        p >= i + 12,
        p + 2 <= b.len(),
        find_loop_off(rewrite_spec(b, p, lc), i) == Some(p),
        chunks_ok(rewrite_spec(b, p, lc), i) == chunks_ok(b, i),
    decreases b.len() - i,
{
    lemma_find_bounds(b, i);
    let rw = rewrite_spec(b, p, lc);
    assert(rw.len() == b.len());
    assert(i + 8 <= b.len());
    if is_anim_at(b, i) && le32_at(b, i + 4) >= 6 && i + 14 <= b.len() {
        assert(p == i + 12);
        assert(forall|j: int| 0 <= j < b.len() && j != p && j != p + 1 ==> rw[j] == b[j]);
        assert(le32_at(rw, i + 4) == le32_at(b, i + 4));
        assert(is_anim_at(rw, i));
        assert(find_loop_off(rw, i) == Some(p));
        let sz = le32_at(b, i + 4);
        let next = i + 8 + sz + (sz % 2);
        assert(next >= p + 2);
        if i == b.len() {
        } else if next <= b.len() {
            lemma_chunks_ok_same_suffix(b, rw, next);
        }
    } else {
        let sz = le32_at(b, i + 4);
        let next = i + 8 + sz + (sz % 2);
        assert(next <= b.len() && find_loop_off(b, next) == Some(p));
        lemma_rewrite_structure(b, next, p, lc);
        assert(p >= next + 12 >= i + 20);
        assert(forall|j: int| 0 <= j < b.len() && j != p && j != p + 1 ==> rw[j] == b[j]);
        assert(le32_at(rw, i + 4) == le32_at(b, i + 4));
        assert(is_anim_at(rw, i) == is_anim_at(b, i));
        assert(find_loop_off(rw, i) == find_loop_off(rw, next));
        assert(chunks_ok(rw, i) == chunks_ok(rw, next));
        assert(chunks_ok(b, i) == chunks_ok(b, next));
    }
}

/// Rewriting the loop count of a valid container yields a valid
/// container with the loop-count field in the same place; every byte
/// outside that field — every frame payload — is unchanged; and
/// rewriting again with the same count changes nothing at all.
pub proof fn lemma_rewrite_round_trip(b: Seq<u8>, lc: int)
    requires
        valid_container(b),
        find_loop_off(b, 12) is Some,
        0 <= lc <= 0xffff,
    ensures
        ({
            let p = find_loop_off(b, 12).unwrap();
            let rw = rewrite_spec(b, p, lc);
            &&& valid_container(rw)
            &&& find_loop_off(rw, 12) == Some(p)
            &&& forall|j: int| 0 <= j < b.len() && j != p && j != p + 1 ==> rw[j] == b[j]
            &&& rewrite_spec(rw, p, lc) == rw
        }),
{
    let p = find_loop_off(b, 12).unwrap();
    let rw = rewrite_spec(b, p, lc);
    lemma_rewrite_structure(b, 12, p, lc);
    assert(le32_at(rw, 4) == le32_at(b, 4));
    assert(valid_container(rw));
    assert(rewrite_spec(rw, p, lc) =~= rw);
}

} // verus!
