use frame_transport::stage::{
    stage, PlaneBacking, PlaneHandle, RawPlane, SealedRegion, StageError,
};

#[test]
fn descriptor_planes_pass_through_unchanged() {
    let frame = vec![
        RawPlane { backing: PlaneBacking::Descriptor(5), offset: 0, stride: 7680 },
        RawPlane { backing: PlaneBacking::Descriptor(9), offset: 64, stride: 3840 },
    ];
    let out = stage(&frame).expect("descriptor-backed planes must stage");
    assert_eq!(out.len(), 2);
    assert!(matches!(out[0].handle, PlaneHandle::Borrowed(5)));
    assert_eq!(out[0].offset, 0);
    assert_eq!(out[0].stride, 7680);
    assert!(matches!(out[1].handle, PlaneHandle::Borrowed(9)));
    assert_eq!(out[1].offset, 64);
    assert_eq!(out[1].stride, 3840);
}

#[test]
fn mapped_planes_are_copied_and_sealed() {
    let frame = vec![
        RawPlane { backing: PlaneBacking::Mapped(vec![1, 2, 3, 4]), offset: 8, stride: 4 },
        RawPlane { backing: PlaneBacking::Mapped(vec![250, 251]), offset: 0, stride: 2 },
    ];
    let out = stage(&frame).expect("mapped planes must stage");
    assert_eq!(out.len(), 2);
    match &out[0].handle {
        PlaneHandle::Staged(region) => {
            assert_eq!(region.bytes(), &vec![1, 2, 3, 4]);
            assert!(region.is_fully_sealed());
        },
        PlaneHandle::Borrowed(_) => panic!("a mapped plane must get a staged region"),
    }
    match &out[1].handle {
        PlaneHandle::Staged(region) => {
            assert_eq!(region.bytes(), &vec![250, 251]);
            assert!(region.is_fully_sealed());
        },
        PlaneHandle::Borrowed(_) => panic!("a mapped plane must get a staged region"),
    }
    assert_eq!(out[0].offset, 8);
    assert_eq!(out[1].stride, 2);
}

#[test]
fn zero_length_mapped_plane_stages_to_empty_sealed_region() {
    let frame = vec![RawPlane { backing: PlaneBacking::Mapped(vec![]), offset: 0, stride: 0 }];
    let out = stage(&frame).expect("a zero-length mapping must still stage");
    match &out[0].handle {
        PlaneHandle::Staged(region) => {
            assert_eq!(region.len(), 0);
            assert!(region.is_fully_sealed());
        },
        PlaneHandle::Borrowed(_) => panic!("a mapped plane must get a staged region"),
    }
}

#[test]
fn mixed_frame_stages_both_paths() {
    let frame = vec![
        RawPlane { backing: PlaneBacking::Descriptor(11), offset: 0, stride: 100 },
        RawPlane { backing: PlaneBacking::Mapped(vec![42]), offset: 4, stride: 1 },
    ];
    let out = stage(&frame).expect("a mixed frame must stage");
    assert!(matches!(out[0].handle, PlaneHandle::Borrowed(11)));
    assert!(matches!(out[1].handle, PlaneHandle::Staged(_)));
}

#[test]
fn stub_descriptor_fails_the_whole_frame() {
    let frame = vec![
        RawPlane { backing: PlaneBacking::Mapped(vec![1]), offset: 0, stride: 1 },
        RawPlane { backing: PlaneBacking::Descriptor(0), offset: 0, stride: 4 },
    ];
    assert_eq!(stage(&frame), Err(StageError::InvalidDescriptor));
}

#[test]
fn negative_descriptor_fails_the_whole_frame() {
    let frame = vec![RawPlane { backing: PlaneBacking::Descriptor(-1), offset: 0, stride: 4 }];
    assert_eq!(stage(&frame), Err(StageError::InvalidDescriptor));
}

#[test]
fn empty_frame_stages_to_nothing() {
    let out = stage(&vec![]).expect("an empty frame must stage");
    assert!(out.is_empty());
}

#[test]
fn region_is_write_once_then_sealed() {
    let mut region = SealedRegion::allocate(3);
    assert_eq!(region.len(), 3);
    assert_eq!(region.bytes(), &vec![0, 0, 0]);
    assert!(!region.is_fully_sealed());
    region.write(&vec![7, 8, 9]);
    region.seal_shrink();
    region.seal_grow();
    region.seal_seals();
    assert!(region.is_fully_sealed());
    assert_eq!(region.bytes(), &vec![7, 8, 9]);
}
