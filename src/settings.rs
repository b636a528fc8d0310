use vstd::prelude::*;
use vstd::string::StringExecFns;

verus! {

/// `host:port`, the address of a collector.
pub open spec fn host_port(ip: Seq<char>, port: Seq<char>) -> Seq<char> {
    ip + ":"@ + port
}

/// Where the camera's frames are sent.
#[derive(Debug)]
pub struct CameraSettings {
    pub ip: String,
    pub port: String,
}

/// Where the range scanner's frames are sent, and the scanner's serial device.
#[derive(Debug)]
pub struct LidarSettings {
    pub ip: String,
    pub port: String,
    pub device: String,
}

/// Where the position frames are sent, and the receiver's serial device.
#[derive(Debug)]
pub struct GpsSettings {
    pub ip: String,
    pub port: String,
    pub device: String,
}

/// The port on which operator input is received.
#[derive(Debug)]
pub struct ControllerSettings {
    pub port: String,
}

fn join_host_port(ip: &String, port: &String) -> (r: String)
    ensures
        r@ == host_port(ip@, port@),
{
    let with_colon = ip.clone().concat(":");
    with_colon.concat(port.as_str())
}

impl CameraSettings {
    /// The collector's address, `ip:port`.
    pub fn address(&self) -> (r: String)
        ensures
            r@ == host_port(self.ip@, self.port@),
    {
        join_host_port(&self.ip, &self.port)
    }
}

impl LidarSettings {
    /// The collector's address, `ip:port`.
    pub fn address(&self) -> (r: String)
        ensures
            r@ == host_port(self.ip@, self.port@),
    {
        join_host_port(&self.ip, &self.port)
    }
}

impl GpsSettings {
    /// The collector's address, `ip:port`.
    pub fn address(&self) -> (r: String)
        ensures
            r@ == host_port(self.ip@, self.port@),
    {
        join_host_port(&self.ip, &self.port)
    }
}

impl ControllerSettings {
    /// The address to listen on: every interface, at the configured port.
    pub fn listen_address(&self) -> (r: String)
        ensures
            r@ == host_port("0.0.0.0"@, self.port@),
    {
        let host = "0.0.0.0".to_owned().concat(":");
        host.concat(self.port.as_str())
    }
}

} // verus!
