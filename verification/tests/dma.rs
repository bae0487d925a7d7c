use vm_devices::dma::{DmaError, DmaRegion, DmaRegionBuilder, PAGE_SIZE64};

#[test]
fn builder_assembles_multi_message_region() {
    let page = |i: u64| i * PAGE_SIZE64;
    let mut builder = DmaRegionBuilder::new(vec![page(10)], 0, 3 * PAGE_SIZE64, 3)
        .ok()
        .unwrap();
    assert!(!builder.is_complete());
    assert!(builder.build().is_err());

    builder.add_pages(&[page(11)]).unwrap();
    assert!(!builder.is_complete());

    builder.add_pages(&[page(12)]).unwrap();
    assert!(builder.is_complete());

    let region = builder.build().ok().unwrap();
    assert_eq!(region.len(), (3 * PAGE_SIZE64) as usize);
    assert_eq!(region.range().gpns(), &[10, 11, 12]);
}

#[test]
fn builder_rejects_overflow_and_misorder() {
    let page = |i: u64| i * PAGE_SIZE64;
    // Initial chunk larger than the declared total.
    assert!(DmaRegionBuilder::new(vec![page(1), page(2)], 0, PAGE_SIZE64, 1).is_err());

    // Adding more pages than the region declares.
    let mut builder = DmaRegionBuilder::new(vec![page(1)], 0, 2 * PAGE_SIZE64, 2)
        .ok()
        .unwrap();
    assert!(builder.add_pages(&[page(2), page(3)]).is_err());
    // The valid remainder still completes the region.
    builder.add_pages(&[page(2)]).unwrap();
    assert!(builder.is_complete());
}

#[test]
fn region_refusals_are_told_apart() {
    let err = |gpas: Vec<u64>, start: u32, len: u64| DmaRegion::new(gpas, start, len).err();
    assert_eq!(err(vec![4097], 0, 1), Some(DmaError::UnalignedPage));
    assert_eq!(err(vec![4096], 0, 0), Some(DmaError::EmptyRegion));
    assert_eq!(err(vec![4096], 4096, 1), Some(DmaError::StartTooLarge));
    assert_eq!(err(vec![4096], 1, 4096), Some(DmaError::NotEnoughPages));
    assert_eq!(err(vec![4096], 1, 4095), None);
    // The alignment of every page is looked at before anything else.
    assert_eq!(err(vec![4096, 1], 9999, 0), Some(DmaError::UnalignedPage));
}

#[test]
fn builder_refusals_are_told_apart() {
    assert_eq!(
        DmaRegionBuilder::new(vec![], 0, 4096, 0).err(),
        Some(DmaError::NoPages)
    );
    assert_eq!(
        DmaRegionBuilder::new(vec![0, 4096], 0, 4096, 1).err(),
        Some(DmaError::InitialListTooLong)
    );
    let mut builder = DmaRegionBuilder::new(vec![0], 0, 8192, 2).ok().unwrap();
    assert_eq!(builder.add_pages(&[]), Err(DmaError::EmptyPageList));
    assert_eq!(
        builder.add_pages(&[4096, 8192]),
        Err(DmaError::TooManyPages)
    );
    assert_eq!(builder.build().err(), Some(DmaError::Incomplete));
}

#[test]
fn alignment_covers_start_and_length() {
    let region = DmaRegion::new(vec![0, 4096], 64, 4096).ok().unwrap();
    assert!(region.is_aligned_to(1));
    assert!(region.is_aligned_to(64));
    assert!(!region.is_aligned_to(128));
    assert!(!region.is_aligned_to(0));
    assert_eq!(region.range().offset(), 64);
    assert_eq!(region.range().len(), 4096);
}

#[test]
fn doubling_maps_the_pages_twice() {
    let mut region = DmaRegion::new(vec![4096, 20480], 0, 8192).ok().unwrap();
    region.double();
    assert_eq!(region.byte_len(), 16384);
    assert_eq!(region.range().gpns(), &[1, 5, 1, 5]);
    assert_eq!(region.clone().range().gpns(), &[1, 5, 1, 5]);
}
