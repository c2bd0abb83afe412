use pyruvate::globals::WSGIGlobals;

#[test]
fn test_creation() {
    let sn = "127.0.0.1";
    let sp = "7878";
    let script = "/foo";
    let got = WSGIGlobals::new(sn, sp, script);
    assert!(got.server_name == sn);
    assert!(got.server_port == sp);
    assert!(got.script_name == script);
}
