use undetected_chromedriver::patch::{patch_chromedriver, patch_with, patchable};

#[test]
fn letters_replace_the_name_behind_a_marker() {
    let mut content = b"ab cdc_adoQpoasnfa76pfcZLmcfl_Array".to_vec();
    let draws: Vec<usize> = (0..18).collect();
    let (patched, count) = patch_with(&content, &draws);
    content[7..25].copy_from_slice(b"abcdefghijklmnopqr");
    assert_eq!(patched, content);
    assert_eq!(count, 1);
}

#[test]
fn letters_are_small_and_capital() {
    let content = b"cdc_..................".to_vec();
    let draws = vec![0, 25, 26, 51, 1, 27, 0, 0, 0, 0, 0, 0, 0, 0, 0, 0, 0, 0];
    let (patched, _) = patch_with(&content, &draws);
    assert_eq!(&patched[..10], b"cdc_azAZbB");
}

#[test]
fn the_last_of_two_markers_decides() {
    let content = b"cdc_cdc_..................x".to_vec();
    let mut draws = vec![0; 18];
    draws.extend(vec![1; 18]);
    let (patched, count) = patch_with(&content, &draws);
    assert_eq!(patched, b"cdc_aaaabbbbbbbbbbbbbbbbbbx".to_vec());
    assert_eq!(count, 2);
}

#[test]
fn binary_without_markers_stays() {
    let content = b"nothing to see here, cdc only".to_vec();
    assert!(patchable(&content));
    assert_eq!(patch_chromedriver(&content), (content, 0));
}

#[test]
fn short_binary_stays() {
    let content = b"cdc".to_vec();
    assert!(patchable(&content));
    assert_eq!(patch_chromedriver(&content), (content, 0));
}

#[test]
fn marker_without_room_cannot_be_patched() {
    assert!(!patchable(&b"cdc_12345678901234567".to_vec()));
    assert!(patchable(&b"cdc_123456789012345678".to_vec()));
    assert!(!patchable(&b"xcdc_".to_vec()));
}

#[test]
fn random_patch_overwrites_names_only() {
    let content = b"head cdc_adoQpoasnfa76pfcZLmcfl_tail and cdc_adoQpoasnfa76pfcZLmcfl_".to_vec();
    let (patched, count) = patch_chromedriver(&content);
    assert_eq!(count, 2);
    assert_eq!(patched.len(), content.len());
    for i in 0..content.len() {
        if (9..27).contains(&i) || (45..63).contains(&i) {
            assert!(patched[i].is_ascii_alphabetic());
        } else {
            assert_eq!(patched[i], content[i]);
        }
    }
    assert_ne!(patched, content);
}
