use packable::variant::{LayoutError, TagWidth, UnionLayout};
use packable::SliceUnpacker;
use packable::UnknownTag;
use packable::UnpackError;

#[test]
fn distinct_tags_assemble() {
    let layout = UnionLayout::new(TagWidth::One, vec![0, 1, 2]).unwrap();
    assert_eq!(layout.tag_count(), 3);
    assert_eq!(layout.width(), TagWidth::One);
}

#[test]
fn duplicate_tags_are_rejected_at_assembly() {
    let err = UnionLayout::new(TagWidth::One, vec![0, 1, 1]).unwrap_err();
    assert_eq!(err, LayoutError::DuplicateTag { tag: 1 });
}

#[test]
fn duplicate_tags_are_rejected_even_far_apart() {
    let err = UnionLayout::new(TagWidth::Eight, vec![9, 4, 7, 2, 9]).unwrap_err();
    assert_eq!(err, LayoutError::DuplicateTag { tag: 9 });
}

#[test]
fn oversized_tag_is_rejected_at_assembly() {
    let err = UnionLayout::new(TagWidth::One, vec![0, 256]).unwrap_err();
    assert_eq!(err, LayoutError::OversizedTag { tag: 256 });
    let err = UnionLayout::new(TagWidth::Two, vec![0x1_0000]).unwrap_err();
    assert_eq!(err, LayoutError::OversizedTag { tag: 0x1_0000 });
}

#[test]
fn wide_widths_accept_large_tags() {
    assert!(UnionLayout::new(TagWidth::Four, vec![0xFFFF_FFFF]).is_ok());
    assert!(UnionLayout::new(TagWidth::Eight, vec![u64::MAX]).is_ok());
}

#[test]
fn empty_union_assembles() {
    let layout = UnionLayout::new(TagWidth::One, vec![]).unwrap();
    assert_eq!(layout.tag_count(), 0);
}

#[test]
fn pack_tag_writes_little_endian_tag_bytes() {
    let layout = UnionLayout::new(TagWidth::Two, vec![10, 300]).unwrap();
    let mut sink: Vec<u8> = Vec::new();
    layout.pack_tag(1, &mut sink).unwrap();
    assert_eq!(sink, vec![0x2C, 0x01]);
}

#[test]
fn unpack_index_dispatches_on_the_tag_read() {
    let layout = UnionLayout::new(TagWidth::Two, vec![10, 300]).unwrap();
    let bytes = [0x2Cu8, 0x01];
    let mut source = SliceUnpacker::new(&bytes);
    assert_eq!(layout.unpack_index(&mut source), Ok(1));
    let bytes = [0x0Au8, 0x00];
    let mut source = SliceUnpacker::new(&bytes);
    assert_eq!(layout.unpack_index(&mut source), Ok(0));
}

#[test]
fn unpack_index_rejects_an_undeclared_tag() {
    let layout = UnionLayout::new(TagWidth::Two, vec![10, 300]).unwrap();
    let bytes = [0x28u8, 0x00];
    let mut source = SliceUnpacker::new(&bytes);
    let err = layout.unpack_index(&mut source).unwrap_err();
    assert_eq!(err, UnpackError::Packable(UnknownTag { tag: 40, width: 2 }));
}

#[test]
fn unpack_index_reports_a_short_source_as_transport() {
    let layout = UnionLayout::new(TagWidth::Four, vec![1]).unwrap();
    let bytes = [0x01u8, 0x00];
    let mut source = SliceUnpacker::new(&bytes);
    let err = layout.unpack_index(&mut source).unwrap_err();
    assert!(matches!(err, UnpackError::Unpacker(_)));
}

#[test]
fn lookup_finds_each_declared_tag() {
    let layout = UnionLayout::new(TagWidth::Two, vec![10, 20, 30]).unwrap();
    assert_eq!(layout.lookup(10), Some(0));
    assert_eq!(layout.lookup(20), Some(1));
    assert_eq!(layout.lookup(30), Some(2));
    assert_eq!(layout.lookup(40), None);
}
