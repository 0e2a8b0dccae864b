use vstd::prelude::*;

use crate::request::handshake::Handshake;
use crate::request::login::Login;
use crate::request::ping::Ping;

verus! {

/// What a connection has received so far: at most one of each request kind.
#[derive(Debug)]
pub struct SlpHistory {
    handshake: Option<Handshake>,
    ping: Option<Ping>,
    login: Option<Login>,
}

impl SlpHistory {
    pub closed spec fn spec_handshake(&self) -> Option<Handshake> {
        self.handshake
    }

    pub closed spec fn spec_ping(&self) -> Option<Ping> {
        self.ping
    }

    pub closed spec fn spec_login(&self) -> Option<Login> {
        self.login
    }

    /// The recorded handshake, if any.
    pub fn handshake(&self) -> (r: &Option<Handshake>)
        ensures
            *r == self.spec_handshake(),
    {
        &self.handshake
    }

    /// The recorded ping, if any.
    pub fn ping(&self) -> (r: &Option<Ping>)
        ensures
            *r == self.spec_ping(),
    {
        &self.ping
    }

    /// The recorded login request, if any.
    pub fn login(&self) -> (r: &Option<Login>)
        ensures
            *r == self.spec_login(),
    {
        &self.login
    }

    /// A history with nothing received yet.
    pub fn new() -> (r: SlpHistory)
        ensures
            r.spec_handshake() is None,
            r.spec_ping() is None,
            r.spec_login() is None,
    {
        SlpHistory { handshake: None, ping: None, login: None }
    }

    /// The same history with the handshake recorded.
    pub fn with_handshake(self, handshake: Handshake) -> (r: SlpHistory)
        ensures
            r.spec_handshake() == Some(handshake),
            r.spec_ping() == self.spec_ping(),
            r.spec_login() == self.spec_login(),
    {
        SlpHistory { handshake: Some(handshake), ping: self.ping, login: self.login }
    }

    /// The same history with the ping recorded.
    pub fn with_ping(self, ping: Ping) -> (r: SlpHistory)
        ensures
            r.spec_handshake() == self.spec_handshake(),
            r.spec_ping() == Some(ping),
            r.spec_login() == self.spec_login(),
    {
        SlpHistory { handshake: self.handshake, ping: Some(ping), login: self.login }
    }

    /// The same history with the login request recorded.
    pub fn with_login(self, login: Login) -> (r: SlpHistory)
        ensures
            r.spec_handshake() == self.spec_handshake(),
            r.spec_ping() == self.spec_ping(),
            r.spec_login() == Some(login),
    {
        SlpHistory { handshake: self.handshake, ping: self.ping, login: Some(login) }
    }

    /// Combine two histories field by field, preferring what `self` holds.
    pub fn merge(self, other: SlpHistory) -> (r: SlpHistory)
        ensures
            r.spec_handshake() == if self.spec_handshake() is Some {
                self.spec_handshake()
            } else {
                other.spec_handshake()
            },
            r.spec_ping() == if self.spec_ping() is Some {
                self.spec_ping()
            } else {
                other.spec_ping()
            },
            r.spec_login() == if self.spec_login() is Some {
                self.spec_login()
            } else {
                other.spec_login()
            },
    {
        let handshake = match self.handshake {
            Some(h) => Some(h),
            None => other.handshake,
        };
        let ping = match self.ping {
            Some(p) => Some(p),
            None => other.ping,
        };
        let login = match self.login {
            Some(l) => Some(l),
            None => other.login,
        };
        SlpHistory { handshake, ping, login }
    }
}

} // verus!
