use vstd::prelude::*;

verus! {

/// Per-worker request context, built once at worker startup and immutable
/// afterwards: the server coordinates every handler invocation on this
/// worker sees.
pub struct WSGIGlobals {
    /// The server's host name or address.
    pub server_name: String,
    /// The server's port, empty for Unix domain listeners.
    pub server_port: String,
    /// The script name prefix handed to the handler.
    pub script_name: String,
}

impl WSGIGlobals {
    /// Builds the context from the server coordinates.
    pub fn new(server_name: &str, server_port: &str, script_name: &str) -> (r: WSGIGlobals)
        ensures
            r.server_name@ == server_name@,
            r.server_port@ == server_port@,
            r.script_name@ == script_name@,
    {
        WSGIGlobals {
            server_name: server_name.to_owned(),
            server_port: server_port.to_owned(),
            script_name: script_name.to_owned(),
        }
    }
}

} // verus!
