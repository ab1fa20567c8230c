//! The configuration of a server, put together step by step.

use crate::error::AnyErr;
use crate::http_server::router::Router;
use vstd::prelude::*;

verus! {

/// What a server needs before it can listen.
pub struct ServerConfig<H> {
    pub address: String,
    pub thread_count: usize,
    pub router: Router<H>,
}

/// Collects what a server needs, with defaults for address and workers.
pub struct ServerBuilder<H> {
    address: Option<String>,
    thread_count: Option<usize>,
    router: Option<Router<H>>,
}

impl<H> Default for ServerBuilder<H> {
    /// The address `127.0.0.1:8000`, two workers and no router.
    fn default() -> (r: Self)
        ensures
            r.address_set() == Some("127.0.0.1:8000"@),
            r.thread_count_set() == Some(2usize),
            r.router_set() is None,
    {
        ServerBuilder {
            address: Some("127.0.0.1:8000".to_owned()),
            thread_count: Some(2),
            router: None,
        }
    }
}

impl<H> ServerBuilder<H> {
    /// The address to listen on, if one is set.
    pub closed spec fn address_set(&self) -> Option<Seq<char>> {
        match self.address {
            Some(a) => Some(a@),
            None => None,
        }
    }

    /// The number of workers, if one is set.
    pub closed spec fn thread_count_set(&self) -> Option<usize> {
        self.thread_count
    }

    /// The router, if one is set.
    pub closed spec fn router_set(&self) -> Option<Router<H>> {
        self.router
    }

    /// A builder with the address `127.0.0.1:8000`, two workers and no
    /// router.
    pub fn new() -> (r: Self)
        ensures
            r.address_set() == Some("127.0.0.1:8000"@),
            r.thread_count_set() == Some(2usize),
            r.router_set() is None,
    {
        ServerBuilder::default()
    }

    /// Sets the address to listen on.
    pub fn address(self, address: &str) -> (r: Self)
        ensures
            r.address_set() == Some(address@),
            r.thread_count_set() == self.thread_count_set(),
            r.router_set() == self.router_set(),
    {
        ServerBuilder {
            address: Some(address.to_owned()),
            thread_count: self.thread_count,
            router: self.router,
        }
    }

    /// Sets the number of workers.
    pub fn thread_count(self, thread_count: usize) -> (r: Self)
        ensures
            r.address_set() == self.address_set(),
            r.thread_count_set() == Some(thread_count),
            r.router_set() == self.router_set(),
    {
        ServerBuilder {
            address: self.address,
            thread_count: Some(thread_count),
            router: self.router,
        }
    }

    /// Sets the router.
    pub fn router(self, router: Router<H>) -> (r: Self)
        ensures
            r.address_set() == self.address_set(),
            r.thread_count_set() == self.thread_count_set(),
            r.router_set() == Some(router),
    {
        ServerBuilder { address: self.address, thread_count: self.thread_count, router: Some(router) }
    }

    /// The configuration, where it is whole: an address, at least one
    /// worker, and a router. What is missing is named in the error.
    pub fn build(self) -> (r: Result<ServerConfig<H>, AnyErr>)
        ensures
            match r {
                Ok(config) => {
                    &&& self.address_set() == Some(config.address@)
                    &&& self.thread_count_set() == Some(config.thread_count)
                    &&& config.thread_count >= 1
                    &&& self.router_set() matches Some(router) && router.bindings()
                        == config.router.bindings() && router.fallback()
                        == config.router.fallback()
                },
                Err(e) => e.source is None && e.message@ == if self.address_set() is None {
                    "Address is missing"@
                } else if self.thread_count_set() is None {
                    "Thread count is missing"@
                } else if self.router_set() is None {
                    "Router is missing"@
                } else {
                    "Thread count must be at least one"@
                } && (self.address_set() is None || self.thread_count_set() is None
                    || self.router_set() is None || self.thread_count_set() == Some(0usize)),
            },
    {
        let address = match self.address {
            Some(address) => address,
            None => {
                return Err(AnyErr::new("Address is missing"));
            },
        };
        let thread_count = match self.thread_count {
            Some(thread_count) => thread_count,
            None => {
                return Err(AnyErr::new("Thread count is missing"));
            },
        };
        let router = match self.router {
            Some(router) => router,
            None => {
                return Err(AnyErr::new("Router is missing"));
            },
        };
        if thread_count == 0 {
            return Err(AnyErr::new("Thread count must be at least one"));
        }
        Ok(ServerConfig { address, thread_count, router })
    }
}

} // verus!
