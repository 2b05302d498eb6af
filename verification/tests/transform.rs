use panehost::Policy;
use panehost::Rect;
use panehost::Scale;
use panehost::TransformError;
use panehost::to_logical;

fn rect(x: i64, y: i64, width: i64, height: i64) -> Rect {
    Rect { x, y, width, height }
}

#[test]
fn logical_policy_is_identity() {
    let r = rect(0, 0, 800, 600);
    let out = to_logical(r, Policy::Logical, None).unwrap();
    assert_eq!(out, r);
}

#[test]
fn logical_policy_ignores_scale() {
    let r = rect(13, -7, 320, 240);
    let out = to_logical(r, Policy::Logical, Some(Scale { hundredths: 250 })).unwrap();
    assert_eq!(out, r);
}

#[test]
fn physical_policy_divides_by_scale() {
    let r = rect(100, 200, 800, 600);
    let out = to_logical(r, Policy::Physical, Some(Scale { hundredths: 200 })).unwrap();
    assert_eq!(out, rect(50, 100, 400, 300));
}

#[test]
fn physical_policy_rounds_toward_zero() {
    let r = rect(800, 600, 799, -101);
    let out = to_logical(r, Policy::Physical, Some(Scale { hundredths: 150 })).unwrap();
    // 800 * 100 / 150 = 533.33, 600 * 100 / 150 = 400, 799 * 100 / 150 = 532.66
    assert_eq!(out, rect(533, 400, 532, -67));
}

#[test]
fn physical_policy_without_scale_fails() {
    let r = rect(0, 0, 800, 600);
    let out = to_logical(r, Policy::Physical, None);
    assert_eq!(out, Err(TransformError::ScaleUnavailable));
}

#[test]
fn physical_policy_with_zero_scale_fails() {
    let r = rect(0, 0, 800, 600);
    let out = to_logical(r, Policy::Physical, Some(Scale { hundredths: 0 }));
    assert_eq!(out, Err(TransformError::ScaleUnavailable));
}

#[test]
fn round_trip_recovers_within_tolerance() {
    // Transform at scale 1.5x and multiply back: each coordinate is recovered
    // within h / 100 + 1 = 2 units and never overshoots.
    let h: i64 = 150;
    let r = rect(800, 601, 799, 267);
    let out = to_logical(r, Policy::Physical, Some(Scale { hundredths: h as u32 })).unwrap();
    for (orig, logical) in [
        (r.x, out.x),
        (r.y, out.y),
        (r.width, out.width),
        (r.height, out.height),
    ] {
        let recovered = logical * h / 100;
        assert!(recovered <= orig);
        assert!(100 * (orig - recovered) <= h + 98);
    }
}
