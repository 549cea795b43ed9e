//! Transport selection for the controller context, as a state-tagged
//! builder: a fresh builder first picks serial or network transport, and
//! only a builder that holds a complete transport choice will hand out
//! the settings needed to open it. Opening the port or socket itself is
//! I/O and belongs to the embedding program, which turns the settings
//! into a [`crate::channel::Channel`] and wraps it in a context.

use vstd::prelude::*;
use vstd::string::StringExecFns;

use crate::error::Error;

verus! {

/// The fixed TCP port the controller listens on.
pub const TCP_PORT: u16 = 2000;

/// The baud rate assumed until a caller overrides it.
pub const DEFAULT_BAUD: u32 = 115_200;

/// Builder state: no transport chosen yet.
pub struct Init;

/// Builder state: synchronous serial transport chosen.
pub struct Serial;

/// Builder state: synchronous network transport chosen.
pub struct Network;

/// Builder state: serial transport chosen for an asynchronous runtime.
pub struct SerialAsync;

/// Builder state: network transport chosen for an asynchronous runtime.
pub struct NetworkAsync;

/// State-tagged builder for the controller context. The tag records
/// which transport has been chosen; the settings methods demand a
/// complete choice and report an error instead of trusting it blindly.
pub struct BaseContextBuilder<T> {
    /// The validated IPv4 host, on the network path.
    pub host: Option<String>,
    /// The serial port name, on the serial path.
    pub com_port: Option<String>,
    /// The serial baud rate, on the serial path.
    pub baud_rate: Option<u32>,
    /// The transport-state tag.
    pub marker: core::marker::PhantomData<T>,
}

impl BaseContextBuilder<Init> {
    /// Starts the builder with no transport chosen.
    pub fn new() -> (r: BaseContextBuilder<Init>)
        ensures
            r.host is None,
            r.com_port is None,
            r.baud_rate is None,
    {
        BaseContextBuilder {
            host: None,
            com_port: None,
            baud_rate: None,
            marker: core::marker::PhantomData,
        }
    }

    /// Chooses serial transport (USB or RS-422) on the given port, with
    /// the default baud rate until overridden.
    pub fn with_serial(self, com_port: &str) -> (r: BaseContextBuilder<Serial>)
        ensures
            r.com_port matches Some(p) && p@ == com_port@,
            r.baud_rate == Some(DEFAULT_BAUD),
            r.host is None,
    {
        BaseContextBuilder {
            host: None,
            com_port: Some(String::from_str(com_port)),
            baud_rate: Some(DEFAULT_BAUD),
            marker: core::marker::PhantomData,
        }
    }

    /// Chooses serial transport for an asynchronous runtime.
    pub fn with_serial_async(self, com_port: &str) -> (r: BaseContextBuilder<SerialAsync>)
        ensures
            r.com_port matches Some(p) && p@ == com_port@,
            r.baud_rate == Some(DEFAULT_BAUD),
            r.host is None,
    {
        BaseContextBuilder {
            host: None,
            com_port: Some(String::from_str(com_port)),
            baud_rate: Some(DEFAULT_BAUD),
            marker: core::marker::PhantomData,
        }
    }

    /// Chooses network transport to the given IPv4 host; the fixed TCP
    /// port is appended when the socket is opened. A host that is not
    /// dotted-quad IPv4 text is rejected here, before any connection
    /// attempt.
    pub fn with_network(self, v4_addr: &str) -> (r: Result<BaseContextBuilder<Network>, Error>)
        ensures
            crate::ipv4::is_ipv4(v4_addr@) ==> (r matches Ok(b) && b.host matches Some(h) && h@
                == v4_addr@ && b.com_port is None && b.baud_rate is None),
            !crate::ipv4::is_ipv4(v4_addr@) ==> (r matches Err(e) && e is InvalidParams),
    {
        if !crate::ipv4::validate_ipv4(v4_addr) {
            let mut m = String::from_str("Invalid IPv4 address: ");
            m.append(v4_addr);
            return Err(Error::InvalidParams(m));
        }
        Ok(
            BaseContextBuilder {
                host: Some(String::from_str(v4_addr)),
                com_port: None,
                baud_rate: None,
                marker: core::marker::PhantomData,
            },
        )
    }

    /// Chooses network transport for an asynchronous runtime.
    pub fn with_network_async(self, v4_addr: &str) -> (r: Result<
        BaseContextBuilder<NetworkAsync>,
        Error,
    >)
        ensures
            crate::ipv4::is_ipv4(v4_addr@) ==> (r matches Ok(b) && b.host matches Some(h) && h@
                == v4_addr@ && b.com_port is None && b.baud_rate is None),
            !crate::ipv4::is_ipv4(v4_addr@) ==> (r matches Err(e) && e is InvalidParams),
    {
        if !crate::ipv4::validate_ipv4(v4_addr) {
            let mut m = String::from_str("Invalid IPv4 address: ");
            m.append(v4_addr);
            return Err(Error::InvalidParams(m));
        }
        Ok(
            BaseContextBuilder {
                host: Some(String::from_str(v4_addr)),
                com_port: None,
                baud_rate: None,
                marker: core::marker::PhantomData,
            },
        )
    }
}

impl BaseContextBuilder<Serial> {
    /// Overrides the baud rate for the serial link.
    pub fn baud(self, baud: u32) -> (r: Self)
        ensures
            r.baud_rate == Some(baud),
            r.com_port == self.com_port,
            r.host == self.host,
    {
        BaseContextBuilder {
            host: self.host,
            com_port: self.com_port,
            baud_rate: Some(baud),
            marker: core::marker::PhantomData,
        }
    }

    /// The port name and baud rate to open the serial link with. A
    /// builder that somehow lacks either reports an error rather than
    /// aborting.
    pub fn serial_settings(&self) -> (r: Result<(String, u32), Error>)
        ensures
            self.com_port matches Some(p) ==> (self.baud_rate matches Some(b) ==> (r matches Ok(
            t) && t.0@ == p@ && t.1 == b)),
            (self.com_port is None || self.baud_rate is None) ==> (r matches Err(e) && e
                is InvalidParams),
    {
        match (&self.com_port, &self.baud_rate) {
            (Some(p), Some(b)) => Ok((p.clone(), *b)),
            _ => Err(
                Error::InvalidParams(String::from_str("Serial settings are incomplete")),
            ),
        }
    }
}

impl BaseContextBuilder<SerialAsync> {
    /// Overrides the baud rate for the serial link.
    pub fn baud(self, baud: u32) -> (r: Self)
        ensures
            r.baud_rate == Some(baud),
            r.com_port == self.com_port,
            r.host == self.host,
    {
        BaseContextBuilder {
            host: self.host,
            com_port: self.com_port,
            baud_rate: Some(baud),
            marker: core::marker::PhantomData,
        }
    }

    /// The port name and baud rate to open the serial link with.
    pub fn serial_settings(&self) -> (r: Result<(String, u32), Error>)
        ensures
            self.com_port matches Some(p) ==> (self.baud_rate matches Some(b) ==> (r matches Ok(
            t) && t.0@ == p@ && t.1 == b)),
            (self.com_port is None || self.baud_rate is None) ==> (r matches Err(e) && e
                is InvalidParams),
    {
        match (&self.com_port, &self.baud_rate) {
            (Some(p), Some(b)) => Ok((p.clone(), *b)),
            _ => Err(
                Error::InvalidParams(String::from_str("Serial settings are incomplete")),
            ),
        }
    }
}

impl BaseContextBuilder<Network> {
    /// The validated host to connect to on the fixed TCP port. A builder
    /// that somehow lacks it reports an error rather than aborting.
    pub fn network_host(&self) -> (r: Result<String, Error>)
        ensures
            self.host matches Some(h) ==> (r matches Ok(s) && s@ == h@),
            self.host is None ==> (r matches Err(e) && e is InvalidParams),
    {
        match &self.host {
            Some(h) => Ok(h.clone()),
            None => Err(
                Error::InvalidParams(String::from_str("Network settings are incomplete")),
            ),
        }
    }
}

impl BaseContextBuilder<NetworkAsync> {
    /// The validated host to connect to on the fixed TCP port.
    pub fn network_host(&self) -> (r: Result<String, Error>)
        ensures
            self.host matches Some(h) ==> (r matches Ok(s) && s@ == h@),
            self.host is None ==> (r matches Err(e) && e is InvalidParams),
    {
        match &self.host {
            Some(h) => Ok(h.clone()),
            None => Err(
                Error::InvalidParams(String::from_str("Network settings are incomplete")),
            ),
        }
    }
}

} // verus!
