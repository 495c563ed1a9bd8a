use ncm_decoder::key_box::decrypt_chunk;
use ncm_decoder::key_box::decrypt_file_data;
use ncm_decoder::key_box::generate_key_box;
use ncm_decoder::key_box::KeyBox;

fn expected_box() -> Vec<u8> {
    vec![
        136, 98, 150, 204, 121, 133, 122, 33, 21, 73, 165, 145, 61, 198, 101, 218, 141, 60, 153,
        223, 47, 227, 146, 18, 91, 45, 28, 10, 30, 234, 206, 0, 229, 55, 111, 225, 57, 41, 59, 85,
        154, 79, 135, 24, 163, 40, 182, 107, 140, 230, 99, 11, 173, 131, 38, 53, 138, 100, 137, 29,
        250, 102, 208, 117, 72, 174, 168, 3, 185, 7, 175, 114, 63, 144, 180, 5, 16, 209, 116, 252,
        167, 216, 126, 118, 157, 9, 179, 96, 187, 151, 108, 130, 214, 112, 178, 213, 237, 105, 156,
        217, 202, 74, 222, 26, 190, 203, 14, 44, 219, 228, 19, 166, 194, 90, 200, 143, 78, 42, 244,
        162, 115, 4, 177, 70, 142, 139, 124, 71, 164, 35, 65, 211, 97, 62, 77, 32, 48, 192, 183, 2,
        149, 76, 241, 110, 58, 160, 246, 109, 255, 113, 188, 193, 176, 251, 34, 239, 159, 56, 248,
        134, 25, 82, 88, 15, 220, 155, 247, 22, 181, 243, 242, 172, 184, 196, 215, 8, 186, 94, 66,
        231, 170, 75, 199, 81, 169, 205, 232, 12, 52, 93, 86, 69, 50, 129, 95, 68, 23, 92, 106,
        171, 46, 104, 148, 221, 87, 235, 103, 226, 254, 240, 233, 13, 201, 123, 36, 67, 39, 161,
        17, 80, 119, 152, 245, 89, 120, 249, 189, 64, 253, 83, 238, 212, 54, 236, 27, 31, 127, 49,
        84, 210, 20, 224, 37, 158, 195, 128, 207, 125, 51, 1, 197, 191, 147, 6, 132, 43,
    ]
}

fn keystream(table: &[u8], offset: u64) -> u8 {
    let j = ((offset % 256) as usize + 1) % 256;
    let a = table[j] as usize;
    let b = table[(a + j) % 256] as usize;
    table[(a + b) % 256]
}

#[test]
fn key_box_of_a_known_key() {
    let key_box = generate_key_box(b"0123456789abcdef");
    assert_eq!(key_box.table, expected_box());
    assert_eq!(key_box.as_slice(), expected_box().as_slice());
}

#[test]
fn key_box_of_a_short_key_wraps_around() {
    let key_box = generate_key_box(&[1, 2, 3]);
    assert_eq!(
        &key_box.table[..16],
        &[173, 3, 237, 9, 183, 213, 60, 39, 76, 45, 32, 74, 151, 162, 46, 121]
    );
}

#[test]
fn key_box_is_a_permutation() {
    let keys: [&[u8]; 5] = [b"k", &[0u8], &[255u8; 300], b"0123456789abcdef", &[1, 2, 3]];
    for key in keys {
        let key_box = generate_key_box(key);
        assert_eq!(key_box.table.len(), 256);
        let mut seen = [false; 256];
        for &b in &key_box.table {
            assert!(!seen[b as usize]);
            seen[b as usize] = true;
        }
        assert!(seen.iter().all(|&s| s));
    }
}

#[test]
fn key_box_is_the_same_for_the_same_key() {
    let a = generate_key_box(b"the same master key");
    let b = generate_key_box(b"the same master key");
    assert_eq!(a.table, b.table);
    assert_ne!(a.table, generate_key_box(b"another master key").table);
}

#[test]
fn key_box_ignores_key_bytes_past_the_table() {
    let mut long = vec![9u8; 256];
    let a = generate_key_box(&long);
    long.push(77);
    let b = generate_key_box(&long);
    assert_eq!(a.table, b.table);
}

#[test]
fn keystream_of_a_known_key() {
    let key_box = generate_key_box(b"0123456789abcdef");
    let out = decrypt_chunk(&key_box, 0, &[0u8; 10]);
    assert_eq!(out, vec![29, 175, 215, 121, 250, 206, 12, 43, 171, 196]);
    assert_eq!(decrypt_chunk(&key_box, 255, &[0]), vec![169]);
    assert_eq!(decrypt_chunk(&key_box, 256, &[0]), vec![29]);
    assert_eq!(decrypt_chunk(&key_box, 300, &[0]), vec![230]);
}

#[test]
fn audio_of_known_bytes() {
    let key_box = generate_key_box(b"0123456789abcdef");
    let audio = [10u8, 20, 30, 40, 50, 60, 70, 80, 90, 100];
    assert_eq!(
        decrypt_file_data(&key_box, &audio),
        vec![23, 187, 201, 81, 200, 242, 74, 123, 241, 160]
    );
}

#[test]
fn transform_follows_the_formula() {
    let key_box = generate_key_box(&[200, 13, 7, 99, 250]);
    let data: Vec<u8> = (0..1000u32).map(|i| (i * 7 + 3) as u8).collect();
    let out = decrypt_file_data(&key_box, &data);
    assert_eq!(out.len(), data.len());
    for i in 0..data.len() {
        assert_eq!(out[i], data[i] ^ keystream(&key_box.table, i as u64));
    }
}

#[test]
fn transform_twice_gives_the_input_back() {
    let key_box = generate_key_box(b"involution");
    let data: Vec<u8> = (0..700u32).map(|i| (i * 31) as u8).collect();
    for offset in [0u64, 1, 255, 256, 0x8000, u64::MAX] {
        let once = decrypt_chunk(&key_box, offset, &data);
        assert_ne!(once, data);
        assert_eq!(decrypt_chunk(&key_box, offset, &once), data);
    }
}

#[test]
fn chunk_boundaries_do_not_matter() {
    let key_box = generate_key_box(b"chunks");
    let data: Vec<u8> = (0..70_000u32).map(|i| (i % 251) as u8).collect();
    let whole = decrypt_file_data(&key_box, &data);
    for size in [1usize, 7, 255, 256, 1000, 0x8000] {
        let mut joined = Vec::new();
        let mut offset = 0usize;
        while offset < data.len() {
            let end = (offset + size).min(data.len());
            joined.extend(decrypt_chunk(&key_box, offset as u64, &data[offset..end]));
            offset = end;
        }
        assert_eq!(joined, whole);
    }
}

#[test]
fn offsets_near_the_top_do_not_wrap_wrongly() {
    let key_box = generate_key_box(b"0123456789abcdef");
    // Position 2^64 - 1 is 255 modulo 256; the positions after it continue the period.
    assert_eq!(decrypt_chunk(&key_box, u64::MAX, &[0, 0, 0]), vec![169, 29, 175]);
}

#[test]
fn empty_chunk_stays_empty() {
    let key_box = KeyBox { table: (0..=255u8).collect() };
    assert_eq!(decrypt_chunk(&key_box, 5, &[]), Vec::<u8>::new());
}

#[test]
fn identity_table_keystream() {
    let key_box = KeyBox { table: (0..=255u8).collect() };
    // With the identity table the keystream at position i is 3 * (i + 1) modulo 256.
    assert_eq!(decrypt_chunk(&key_box, 0, &[0, 0, 0]), vec![3, 6, 9]);
    assert_eq!(decrypt_chunk(&key_box, 85, &[0]), vec![2]);
}
