use ocr_batch::sniff::sniff_head;

#[test]
fn sniff_accepts_exact_signature() {
    assert!(sniff_head(&[0x25, 0x50, 0x44, 0x46]));
}

#[test]
fn sniff_accepts_signature_with_more_bytes() {
    assert!(sniff_head(b"%PDF-1.7\n%rest of the file"));
}

#[test]
fn sniff_rejects_empty() {
    assert!(!sniff_head(&[]));
}

#[test]
fn sniff_rejects_short_heads() {
    assert!(!sniff_head(&[0x25]));
    assert!(!sniff_head(&[0x25, 0x50]));
    assert!(!sniff_head(&[0x25, 0x50, 0x44]));
}

#[test]
fn sniff_rejects_other_signatures() {
    assert!(!sniff_head(b"PDF%"));
    assert!(!sniff_head(b"%PDX-1.7"));
    assert!(!sniff_head(b"hello world"));
    assert!(!sniff_head(&[0x25, 0x50, 0x44, 0x47]));
    assert!(!sniff_head(&[0x00, 0x50, 0x44, 0x46]));
}
