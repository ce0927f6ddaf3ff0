use elevator_orders::config::{Config, HardwareConfig, NetworkConfig};

#[test]
fn test_config_display() {
    let config = Config {
        hardware: HardwareConfig {
            num_floors: 10,
            driver_address: "localhost".to_string(),
            driver_port: 15657,
            driver_channel_poll_timeout_milliseconds: 25,
        },
        network: NetworkConfig { address: "192.168.1.100".to_string(), port: 8080 },
    };

    println!("Debug: {:#?}", config);
    println!("Display:\n{}", config.describe());

    // Test individual components
    println!("Hardware only: {}", config.hardware.describe());
    println!("Network only: {}", config.network.describe());
}

#[test]
fn test_config_debug() {
    let config = Config {
        hardware: HardwareConfig {
            num_floors: 5,
            driver_address: "127.0.0.1".to_string(),
            driver_port: 9999,
            driver_channel_poll_timeout_milliseconds: 50,
        },
        network: NetworkConfig { address: "0.0.0.0".to_string(), port: 3000 },
    };

    // Debug output
    let debug_output = format!("{:?}", config);
    assert!(debug_output.contains("Config"));
    assert!(debug_output.contains("num_floors: 5"));

    // Pretty debug output
    let pretty_debug = format!("{:#?}", config);
    println!("Pretty Debug:\n{}", pretty_debug);
}

#[test]
fn test_config_text_exact() {
    let config = Config {
        hardware: HardwareConfig {
            num_floors: 10,
            driver_address: "localhost".to_string(),
            driver_port: 15657,
            driver_channel_poll_timeout_milliseconds: 25,
        },
        network: NetworkConfig { address: "192.168.1.100".to_string(), port: 8080 },
    };
    assert_eq!(
        config.hardware.describe(),
        "Hardware Config:\n  Floors: 10\n  Driver: localhost:15657\n  Poll Timeout: 25ms"
    );
    assert_eq!(config.network.describe(), "Network Config:\n  Address: 192.168.1.100:8080");
    assert_eq!(
        config.describe(),
        "Config:\nHardware Config:\n  Floors: 10\n  Driver: localhost:15657\n  Poll Timeout: 25ms\nNetwork Config:\n  Address: 192.168.1.100:8080"
    );
}

#[test]
fn test_config_text_edge_numbers() {
    let hardware = HardwareConfig {
        num_floors: 0,
        driver_address: String::new(),
        driver_port: u32::MAX,
        driver_channel_poll_timeout_milliseconds: u64::MAX,
    };
    assert_eq!(
        hardware.describe(),
        "Hardware Config:\n  Floors: 0\n  Driver: :4294967295\n  Poll Timeout: 18446744073709551615ms"
    );
    let network = NetworkConfig { address: "::1".to_string(), port: 0 };
    assert_eq!(network.describe(), "Network Config:\n  Address: ::1:0");
    let network = NetworkConfig { address: "h".to_string(), port: 1009 };
    assert_eq!(network.describe(), "Network Config:\n  Address: h:1009");
}
