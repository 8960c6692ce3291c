//! Control-socket answers, set paths and the socket path.

use fluxframe::plane::SubchainKind;
use fluxframe::protocol::{parse_set_path, resolve_socket_path, JsonValue, Response};

#[test]
fn parse_set_path_happy() {
    let p = parse_set_path("background.blur.radius").expect("ok");
    assert_eq!(p.section, SubchainKind::Background);
    assert_eq!(p.effect, "blur");
    assert_eq!(p.field, "radius");
}

#[test]
fn parse_set_path_rejects_wrong_component_count() {
    assert!(parse_set_path("background.blur").is_err());
    assert!(parse_set_path("background.blur.radius.extra").is_err());
    assert!(parse_set_path("").is_err());
}

#[test]
fn parse_set_path_rejects_unknown_section() {
    let err = parse_set_path("nope.blur.radius").unwrap_err();
    assert!(err.contains("nope"), "got: {err}");
}

#[test]
fn parse_set_path_rejects_empty_component() {
    assert!(parse_set_path("background..radius").is_err());
    assert!(parse_set_path(".blur.radius").is_err());
    assert!(parse_set_path("background.blur.").is_err());
}

#[test]
fn every_section_can_be_addressed() {
    for k in [
        SubchainKind::Mask,
        SubchainKind::Background,
        SubchainKind::Foreground,
        SubchainKind::Post,
    ] {
        let path = format!("{}.some-effect.a_field", k.as_str());
        let p = parse_set_path(&path).expect("ok");
        assert_eq!(p.section, k);
        assert_eq!(p.effect, "some-effect");
        assert_eq!(p.field, "a_field");
    }
}

#[test]
fn resolve_socket_path_uses_xdg_when_present() {
    assert_eq!(
        resolve_socket_path(Some("/run/user/1000")),
        "/run/user/1000/fluxframe.sock"
    );
}

#[test]
fn resolve_socket_path_falls_back_to_tmp_for_empty_xdg() {
    assert_eq!(resolve_socket_path(Some("")), "/tmp/fluxframe.sock");
    assert_eq!(resolve_socket_path(None), "/tmp/fluxframe.sock");
}

#[test]
fn responses_carry_payload_or_reason() {
    assert_eq!(
        Response::ok(),
        Response::Success {
            data: JsonValue::Null
        }
    );
    assert_eq!(
        Response::ok_with(JsonValue::Boolean(true)),
        Response::Success {
            data: JsonValue::Boolean(true)
        }
    );
    match Response::err("nope", Some("fix it".to_string())) {
        Response::Failure { error, hint } => {
            assert_eq!(error, "nope");
            assert_eq!(hint.as_deref(), Some("fix it"));
        }
        other => panic!("expected a failure, got {other:?}"),
    }
}
