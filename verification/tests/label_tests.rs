use fdisk::label::DiskLabel;

#[test]
fn label_kinds_have_canonical_names() {
    assert_eq!(DiskLabel::Dos.as_ref(), "dos");
    assert_eq!(DiskLabel::Sun.as_ref(), "sun");
    assert_eq!(DiskLabel::Sgi.as_ref(), "sgi");
    assert_eq!(DiskLabel::Bsd.as_ref(), "bsd");
    assert_eq!(DiskLabel::Gpt.as_ref(), "gpt");
    assert_eq!(DiskLabel::Gpt.to_string(), "gpt");
}

#[test]
fn label_kinds_have_entry_maxima() {
    assert_eq!(DiskLabel::Dos.max_entries(), 4);
    assert_eq!(DiskLabel::Sun.max_entries(), 8);
    assert_eq!(DiskLabel::Sgi.max_entries(), 16);
    assert_eq!(DiskLabel::Bsd.max_entries(), 16);
    assert_eq!(DiskLabel::Gpt.max_entries(), 128);
}
