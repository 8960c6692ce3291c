//! Planes and sub-chain names.

use fluxframe::plane::{FramePlane, MaskPlane, SubchainKind};
use std::str::FromStr;

#[test]
fn mask_plane_new_round_trips_dimensions() {
    let mut buf = vec![0_u32; 6];
    let plane = MaskPlane::new(&mut buf, 3, 2);
    assert_eq!(plane.width, 3);
    assert_eq!(plane.height, 2);
    assert_eq!(plane.data.len(), 6);
}

#[test]
fn frame_plane_new_round_trips_dimensions() {
    let mut buf = vec![0_u8; 12];
    let plane = FramePlane::new(&mut buf, 2, 2);
    assert_eq!(plane.width, 2);
    assert_eq!(plane.height, 2);
    assert_eq!(plane.data.len(), 12);
}

#[test]
fn subchain_kind_round_trips_through_str() {
    for k in [
        SubchainKind::Mask,
        SubchainKind::Background,
        SubchainKind::Foreground,
        SubchainKind::Post,
    ] {
        assert_eq!(SubchainKind::from_str(k.as_str()).unwrap(), k);
        assert_eq!(k.to_string(), k.as_str());
    }
}

#[test]
fn subchain_kind_from_str_rejects_unknown() {
    let err = SubchainKind::from_str("unknown").expect_err("unknown rejected");
    assert!(err.contains("unknown"), "got: {err}");
}
