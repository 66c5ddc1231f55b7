//! Where the telemetry interface is reached, and the addresses of what it
//! serves.

use std::time::Duration;
use vstd::prelude::*;

verus! {

/// What `Duration::as_millis` returns: the whole milliseconds that `d` spans.
pub uninterp spec fn duration_millis(d: Duration) -> nat;

/// `Duration::from_millis`. Trusted: as the standard library documents it,
/// the result spans `millis` milliseconds.
pub assume_specification[ Duration::from_millis ](millis: u64) -> (d: Duration)
    ensures
        duration_millis(d) == millis,
;

/// The host, the port and the vehicle that requests go to, with their limits.
pub struct RequestConfig {
    pub host: String,
    pub port: String,
    pub vehicle_name: String,
    pub timeout: Duration,
    pub debugging: bool,
}

impl RequestConfig {
    /// The interface on this machine, at its usual port, asked for the
    /// vehicle that the player drives, each request given 300 milliseconds.
    pub fn new() -> (config: Self)
        ensures
            config.host@ == "127.0.0.1"@,
            config.port@ == "37337"@,
            config.vehicle_name@ == "Current"@,
            duration_millis(config.timeout) == 300,
            !config.debugging,
    {
        Self {
            host: "127.0.0.1".to_owned(),
            port: "37337".to_owned(),
            vehicle_name: "Current".to_owned(),
            timeout: Duration::from_millis(300),
            debugging: false,
        }
    }

    /// The same settings, with requests going to `host`.
    pub fn host(self, host: String) -> (config: Self)
        ensures
            config == (Self { host, ..self }),
    {
        let mut config = self;
        config.host = host;
        config
    }

    /// The same settings, with requests going to `port`.
    pub fn port(self, port: String) -> (config: Self)
        ensures
            config == (Self { port, ..self }),
    {
        let mut config = self;
        config.port = port;
        config
    }

    /// The same settings, asking for the vehicle `vehicle_name`.
    pub fn vehicle_name(self, vehicle_name: String) -> (config: Self)
        ensures
            config == (Self { vehicle_name, ..self }),
    {
        let mut config = self;
        config.vehicle_name = vehicle_name;
        config
    }

    /// The same settings, each request given `timeout`.
    pub fn timeout(self, timeout: Duration) -> (config: Self)
        ensures
            config == (Self { timeout, ..self }),
    {
        let mut config = self;
        config.timeout = timeout;
        config
    }

    /// The same settings, with the requests shown on the terminal or not.
    pub fn debugging(self, debugging: bool) -> (config: Self)
        ensures
            config == (Self { debugging, ..self }),
    {
        let mut config = self;
        config.debugging = debugging;
        config
    }

    /// The address of `path` on the interface.
    pub open spec fn spec_url(self, path: Seq<char>) -> Seq<char> {
        "http://"@ + self.host@ + ":"@ + self.port@ + "/"@ + path
    }

    /// The path under which the interface describes the vehicle.
    pub open spec fn spec_vehicle_path(self) -> Seq<char> {
        "vehicles/"@ + self.vehicle_name@
    }

    /// The path under which the interface takes the command `cmd` for the
    /// vehicle.
    pub open spec fn spec_command_path(self, cmd: Seq<char>) -> Seq<char> {
        "vehicles/"@ + self.vehicle_name@ + "/"@ + cmd
    }

    /// The address of `path` on the interface.
    pub fn url(&self, path: &str) -> (address: String)
        ensures
            address@ == self.spec_url(path@),
    {
        let mut address: String = "http://".to_owned();
        address.append(self.host.as_str());
        address.append(":");
        address.append(self.port.as_str());
        address.append("/");
        address.append(path);
        address
    }

    /// The path under which the interface describes the vehicle.
    pub fn vehicle_path(&self) -> (path: String)
        ensures
            path@ == self.spec_vehicle_path(),
    {
        let mut path: String = "vehicles/".to_owned();
        path.append(self.vehicle_name.as_str());
        path
    }

    /// The path under which the interface takes the command `cmd` for the
    /// vehicle.
    pub fn command_path(&self, cmd: &str) -> (path: String)
        ensures
            path@ == self.spec_command_path(cmd@),
    {
        let mut path: String = "vehicles/".to_owned();
        path.append(self.vehicle_name.as_str());
        path.append("/");
        path.append(cmd);
        path
    }
}

} // verus!
