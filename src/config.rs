use vstd::prelude::*;

verus! {

/// The client's saved settings.
pub struct Config {
    pub server_url: Option<String>,
    pub shared_secret: Option<String>,
    pub autostart: bool,
    pub start_minimized: bool,
}

impl Default for Config {
    /// No server, no secret, both flags off.
    fn default() -> (r: Config)
        ensures
            r.server_url is None,
            r.shared_secret is None,
            !r.autostart,
            !r.start_minimized,
    {
        Config { server_url: None, shared_secret: None, autostart: false, start_minimized: false }
    }
}

} // verus!
