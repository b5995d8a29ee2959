//! The server: its hosts, its connections and the rules of its event
//! loop. Waiting for events and using sockets are left to the program.
use vstd::prelude::*;
use crate::server::connection::Connection;
use crate::server::host::Host;
use crate::server::logger::{Logger, LogLevel};
use crate::server::session::SessionMiddleware;
use crate::server::uploader::Uploader;

verus! {

/// How long a connection may stay idle, in seconds.
pub const TIMEOUT_SECS: u64 = 30;

/// The hosts and connections of the server.
#[derive(Debug)]
pub struct Server {
    pub hosts: Vec<Host>,
    pub connections: Vec<Connection>,
    pub logger: Logger,
    pub uploader: Option<Uploader>,
    pub session_middleware: SessionMiddleware,
}

impl Server {
    /// A server without hosts or connections, logging at `DEBUG`.
    pub fn new(uploader: Option<Uploader>) -> (r: Self)
        ensures
            r.hosts@.len() == 0,
            r.connections@.len() == 0,
            r.logger.level == LogLevel::DEBUG,
            r.uploader == uploader,
    {
        Server {
            hosts: Vec::new(),
            connections: Vec::new(),
            logger: Logger::new(LogLevel::DEBUG),
            uploader,
            session_middleware: SessionMiddleware {},
        }
    }

    /// Adds a host after the others.
    pub fn add_host(&mut self, host: Host)
        ensures
            final(self).hosts@ == old(self).hosts@.push(host),
            final(self).connections == old(self).connections,
    {
        self.hosts.push(host);
    }

    /// The first host of the given server name.
    pub fn get_host_by_name(&self, name: &str) -> (r: Option<&Host>)
        ensures
            match r {
                Some(h) => h.server_name@ == name@ && exists|i: int|
                    0 <= i < self.hosts@.len() && self.hosts@[i] == *h && forall|j: int|
                        0 <= j < i ==> (#[trigger] self.hosts@[j]).server_name@ != name@,
                None => forall|j: int| 0 <= j < self.hosts@.len() ==> (#[trigger] self.hosts@[j]).server_name@ != name@,
            },
    {
        let mut i: usize = 0;
        while i < self.hosts.len()
            invariant
                i <= self.hosts@.len(),
                forall|j: int| 0 <= j < i ==> (#[trigger] self.hosts@[j]).server_name@ != name@,
            decreases self.hosts@.len() - i,
        {
            if crate::text::str_eq(self.hosts[i].server_name.as_str(), name) {
                return Some(&self.hosts[i]);
            }
            i = i + 1;
        }
        None
    }

    /// The position of the first host listening on descriptor `fd`.
    pub fn find_host_by_fd(&self, fd: i32) -> (r: Option<usize>)
        ensures
            match r {
                Some(i) => i < self.hosts@.len() && (exists|k: int|
                    0 <= k < self.hosts@[i as int].listeners@.len() && (#[trigger] self.hosts@[i as int].listeners@[k]).fd
                        == fd) && forall|j: int|
                    0 <= j < i ==> forall|k: int|
                        0 <= k < (#[trigger] self.hosts@[j]).listeners@.len() ==> self.hosts@[j].listeners@[k].fd != fd,
                None => forall|j: int|
                    0 <= j < self.hosts@.len() ==> forall|k: int|
                        0 <= k < (#[trigger] self.hosts@[j]).listeners@.len() ==> self.hosts@[j].listeners@[k].fd != fd,
            },
    {
        let mut i: usize = 0;
        while i < self.hosts.len()
            invariant
                i <= self.hosts@.len(),
                forall|j: int|
                    0 <= j < i ==> forall|k: int|
                        0 <= k < (#[trigger] self.hosts@[j]).listeners@.len() ==> self.hosts@[j].listeners@[k].fd != fd,
            decreases self.hosts@.len() - i,
        {
            if self.hosts[i].match_listener(fd) {
                return Some(i);
            }
            i = i + 1;
        }
        None
    }

    /// The position of the connection of descriptor `fd`.
    pub fn connection_index(&self, fd: i32) -> (r: Option<usize>)
        ensures
            match r {
                Some(i) => i < self.connections@.len() && self.connections@[i as int].client_fd == fd,
                None => forall|j: int| 0 <= j < self.connections@.len() ==> (#[trigger] self.connections@[j]).client_fd != fd,
            },
    {
        let mut i: usize = 0;
        while i < self.connections.len()
            invariant
                i <= self.connections@.len(),
                forall|j: int| 0 <= j < i ==> (#[trigger] self.connections@[j]).client_fd != fd,
            decreases self.connections@.len() - i,
        {
            if self.connections[i].client_fd == fd {
                return Some(i);
            }
            i = i + 1;
        }
        None
    }

    /// Removes the connection of descriptor `fd`, if there is one: it is
    /// found exactly when a connection has that descriptor.
    pub fn remove_connection(&mut self, fd: i32) -> (r: Option<Connection>)
        ensures
            final(self).hosts == old(self).hosts,
            match r {
                Some(c) => c.client_fd == fd && exists|i: int|
                    0 <= i < old(self).connections@.len() && old(self).connections@[i] == c
                        && final(self).connections@ == old(self).connections@.remove(i),
                None => final(self).connections == old(self).connections && forall|j: int|
                    0 <= j < old(self).connections@.len() ==> (#[trigger] old(self).connections@[j]).client_fd != fd,
            },
    {
        match self.connection_index(fd) {
            Some(i) => Some(self.connections.remove(i)),
            None => None,
        }
    }
}

/// Whether a connection idle for `secs` seconds and `nanos` nanoseconds
/// has timed out: idle longer than the timeout.
pub fn timed_out(secs: u64, nanos: u32) -> (r: bool)
    ensures
        r == (secs > TIMEOUT_SECS || (secs == TIMEOUT_SECS && nanos > 0)),
{
    secs > TIMEOUT_SECS || (secs == TIMEOUT_SECS && nanos > 0)
}

} // verus!
