use rokio::hwid::{get_machine_id, HardwareSource};

#[test]
fn test_machine_id_not_empty() {
    let hwid = get_machine_id(&HardwareSource::HostUser {
        hostname: None,
        user: None,
    });
    assert!(!hwid.is_empty());
    assert!(hwid.starts_with("ROKIO-"));
}

#[test]
fn machine_id_of_each_source() {
    assert_eq!(
        get_machine_id(&HardwareSource::MacAddress("AA:BB:CC:00:11:22".to_string())),
        "ROKIO-MAC-AABBCC001122"
    );
    assert_eq!(
        get_machine_id(&HardwareSource::MachineGuid(
            "0f1e2d3c-4b5a-6978-8796-a5b4c3d2e1f0".to_string()
        )),
        "ROKIO-WIN-0f1e2d3c4b5a69788796a5b4c3d2e1f0"
    );
    assert_eq!(
        get_machine_id(&HardwareSource::Fallback {
            hostname: Some("box".to_string()),
            user: None,
        }),
        "ROKIO-FALLBACK-box-user"
    );
    assert_eq!(
        get_machine_id(&HardwareSource::Fallback {
            hostname: None,
            user: Some("ann".to_string()),
        }),
        "ROKIO-FALLBACK-unknown-ann"
    );
    assert_eq!(
        get_machine_id(&HardwareSource::HostUser {
            hostname: Some("box".to_string()),
            user: Some("ann".to_string()),
        }),
        "ROKIO-LINUX-box-ann"
    );
    assert_eq!(
        get_machine_id(&HardwareSource::HostUser {
            hostname: None,
            user: None,
        }),
        "ROKIO-LINUX-unknown-user"
    );
}

#[test]
fn machine_id_is_stable() {
    let source = HardwareSource::MacAddress("::a::".to_string());
    assert_eq!(get_machine_id(&source), get_machine_id(&source));
    assert_eq!(get_machine_id(&source), "ROKIO-MAC-a");
}
