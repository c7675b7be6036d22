//! Settings of the HTTP front end.
use vstd::prelude::*;
use crate::text::{concat, decimal, usize_to_string};

verus! {

/// Where the HTTP server listens.
#[derive(Debug, Clone)]
pub struct ServeArgs {
    /// Port to bind to.
    pub port: u16,
    /// Address to bind to.
    pub bind: String,
}

impl Default for ServeArgs {
    /// Port 9100 on 127.0.0.1.
    fn default() -> (r: Self)
        ensures
            r.port == 9100,
            r.bind@ == "127.0.0.1"@,
    {
        ServeArgs { port: 9100, bind: "127.0.0.1".to_owned() }
    }
}

impl ServeArgs {
    /// The socket address to listen on, `<bind>:<port>`.
    pub fn listen_address(&self) -> (r: String)
        ensures
            r@ == self.bind@ + ":"@ + decimal(self.port as nat),
    {
        let prefix = concat(self.bind.as_str(), ":");
        concat(prefix.as_str(), usize_to_string(self.port as usize).as_str())
    }
}

} // verus!
