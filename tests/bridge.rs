use maplibre_native::{EventSeverity, Height, Size, Width};

#[test]
fn size_keeps_dimensions() {
    let s = Size::new(Width(512), Height(384));
    assert_eq!((s.width(), s.height()), (512, 384));
}

#[test]
fn severity_codes() {
    assert_eq!(EventSeverity::from_code(0), Some(EventSeverity::Debug));
    assert_eq!(EventSeverity::from_code(3), Some(EventSeverity::Error));
    assert_eq!(EventSeverity::from_code(4), None);
}
