use lpc541xx::checksum::{checksum, patch_image, read_word, update, write_word, PatchError};

fn image(words: &[u32]) -> Vec<u8> {
    let mut v = Vec::new();
    for w in words {
        v.extend_from_slice(&w.to_le_bytes());
    }
    v
}

fn sum8(v: &[u8], start: usize) -> u32 {
    let mut s = 0u32;
    for k in 0..8 {
        let b = &v[start + 4 * k..start + 4 * k + 4];
        s = s.wrapping_add(u32::from_le_bytes([b[0], b[1], b[2], b[3]]));
    }
    s
}

#[test]
fn checksum_exact_value() {
    let v = image(&[1, 2, 3, 4, 5, 6, 7, 0]);
    assert_eq!(checksum(&v, 0), 0u32.wrapping_sub(28));
    assert_eq!(checksum(&v, 0), 0xFFFF_FFE4);
}

#[test]
fn update_writes_word_seven_and_zero_sum() {
    let mut v = image(&[0x2000_8000, 0x0000_0101, 0xDEAD_BEEF, 0xFFFF_FFFF, 0, 9, 0x1234_5678, 0xAAAA_AAAA, 77]);
    let c = update(&mut v, 0);
    assert_eq!(read_word(&v, 28), c);
    assert_eq!(sum8(&v, 0), 0);
    assert_eq!(read_word(&v, 32), 77);
    assert_eq!(read_word(&v, 8), 0xDEAD_BEEF);
}

#[test]
fn zero_words_give_zero_checksum() {
    let mut v = image(&[0, 0, 0, 0, 0, 0, 0, 5]);
    assert_eq!(update(&mut v, 0), 0);
    assert_eq!(v, vec![0u8; 32]);
}

#[test]
fn patching_twice_is_byte_identical() {
    let mut v = image(&[11, 22, 33, 44, 55, 66, 77, 88, 99]);
    update(&mut v, 4);
    let once = v.clone();
    update(&mut v, 4);
    assert_eq!(v, once);
    assert_eq!(sum8(&v, 4), 0);
}

#[test]
fn patch_image_at_section_offset() {
    let mut v = vec![0xEEu8; 8];
    v.extend(image(&[1, 1, 1, 1, 1, 1, 1, 0]));
    v.extend(vec![0xEEu8; 4]);
    let r = patch_image(&mut v, Some((8, 32)));
    assert_eq!(r, Ok(0xFFFF_FFF9));
    assert_eq!(read_word(&v, 36), 0xFFFF_FFF9);
    assert_eq!(&v[0..8], &[0xEEu8; 8]);
    assert_eq!(&v[40..44], &[0xEEu8; 4]);
    assert_eq!(sum8(&v, 8), 0);
}

#[test]
fn patch_image_errors_leave_image_untouched() {
    let orig = image(&[1, 2, 3, 4, 5, 6, 7, 8]);
    let mut v = orig.clone();
    assert_eq!(patch_image(&mut v, None), Err(PatchError::MissingSection));
    assert_eq!(patch_image(&mut v, Some((4, 32))), Err(PatchError::SectionOutOfBounds));
    assert_eq!(patch_image(&mut v, Some((u64::MAX, 2))), Err(PatchError::SectionOutOfBounds));
    assert_eq!(patch_image(&mut v, Some((0, 28))), Err(PatchError::SectionTooSmall));
    assert_eq!(v, orig);
}

#[test]
fn write_word_is_little_endian() {
    let mut v = vec![0u8; 6];
    write_word(&mut v, 1, 0x0403_0201);
    assert_eq!(v, vec![0, 1, 2, 3, 4, 0]);
    assert_eq!(read_word(&v, 1), 0x0403_0201);
}
