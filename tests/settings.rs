use rover::settings::{CameraSettings, ControllerSettings, GpsSettings, LidarSettings};

#[test]
fn collector_addresses() {
    let cam = CameraSettings { ip: "192.168.1.20".to_string(), port: "5000".to_string() };
    assert_eq!(cam.address(), "192.168.1.20:5000");
    let lidar = LidarSettings {
        ip: "10.0.0.2".to_string(),
        port: "5001".to_string(),
        device: "/dev/ttyUSB0".to_string(),
    };
    assert_eq!(lidar.address(), "10.0.0.2:5001");
    let gps = GpsSettings {
        ip: "localhost".to_string(),
        port: "5002".to_string(),
        device: "/dev/ttyAMA0".to_string(),
    };
    assert_eq!(gps.address(), "localhost:5002");
}

#[test]
fn controller_listens_on_every_interface() {
    let c = ControllerSettings { port: "6000".to_string() };
    assert_eq!(c.listen_address(), "0.0.0.0:6000");
}
