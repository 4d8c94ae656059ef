use movy::tracer::SimpleTracer;

#[test]
fn test_simple_tracer() {
    let tracer = SimpleTracer { enabled: true };
    assert_eq!(tracer.enabled, true);
    assert!(tracer.is_enabled());
}

#[test]
fn disabled_tracer_reports_disabled() {
    let tracer = SimpleTracer::default();
    assert!(!tracer.is_enabled());
}
