use hacksim::probe::{bruteforce_target, scan_target};

#[test]
fn scan_known_target_first() {
    let r = scan_target("192.168.1.100", false);
    assert_eq!(r.os_info(), "Ubuntu 20.04 LTS");
    assert_eq!(r.open_ports(), &vec![22u16, 80, 443]);
    assert_eq!(r.detection_level(), 20);
    let vulns = r.vulnerabilities();
    assert_eq!(vulns.len(), 1);
    assert_eq!(vulns[0].name(), "weak_password");
    assert_eq!(vulns[0].risk_level(), 2);
    assert_eq!(vulns[0].description(), "Weak SSH password");
    let services = r.services();
    assert_eq!(services.len(), 3);
    assert_eq!(services[0], (22u16, "ssh".to_string()));
    assert_eq!(services[1], (80u16, "http".to_string()));
    assert_eq!(services[2], (443u16, "https".to_string()));
}

#[test]
fn scan_known_target_second() {
    let r = scan_target("10.0.0.50", false);
    assert_eq!(r.os_info(), "Windows Server 2019");
    assert_eq!(r.open_ports(), &vec![1433u16, 3306]);
    let vulns = r.vulnerabilities();
    assert_eq!(vulns.len(), 2);
    assert_eq!(vulns[0].name(), "sql_injection");
    assert_eq!(vulns[1].name(), "outdated_software");
}

#[test]
fn scan_known_target_third() {
    let r = scan_target("172.16.0.25", true);
    assert_eq!(r.os_info(), "CentOS 8");
    assert_eq!(r.open_ports(), &vec![21u16, 2049]);
    assert_eq!(r.detection_level(), 5);
    let vulns = r.vulnerabilities();
    assert_eq!(vulns.len(), 2);
    assert_eq!(vulns[0].name(), "misconfiguration");
    assert_eq!(vulns[1].name(), "default_credentials");
}

#[test]
fn scan_unknown_target_is_empty() {
    let r = scan_target("8.8.8.8", false);
    assert_eq!(r.os_info(), "Unknown OS");
    assert!(r.open_ports().is_empty());
    assert!(r.vulnerabilities().is_empty());
    assert!(r.services().is_empty());
    assert_eq!(r.detection_level(), 20);
}

#[test]
fn scan_stealth_lowers_detection() {
    assert_eq!(scan_target("192.168.1.100", true).detection_level(), 5);
    assert_eq!(scan_target("192.168.1.100", false).detection_level(), 20);
}

#[test]
fn bruteforce_known_port_succeeds() {
    let r = bruteforce_target("192.168.1.100", 22, false);
    assert!(r.success());
    assert_eq!(r.password(), &Some("password123".to_string()));
    assert_eq!(r.attempts(), 128);
    assert_eq!(r.time_elapsed_hundredths(), 350);
    assert_eq!(r.method_used(), "brute_force");
    assert_eq!(r.detection_level(), 40);
}

#[test]
fn bruteforce_other_known_ports() {
    let r = bruteforce_target("10.0.0.50", 1433, true);
    assert!(r.success());
    assert_eq!(r.password(), &Some("admin2019".to_string()));
    assert_eq!(r.method_used(), "dictionary_attack");
    assert_eq!(r.detection_level(), 15);
    let r = bruteforce_target("172.16.0.25", 21, false);
    assert!(r.success());
    assert_eq!(r.password(), &Some("anonymous".to_string()));
}

#[test]
fn bruteforce_wrong_port_fails() {
    let r = bruteforce_target("192.168.1.100", 80, false);
    assert!(!r.success());
    assert_eq!(r.password(), &None);
    assert_eq!(r.attempts(), 500);
    assert_eq!(r.time_elapsed_hundredths(), 1000);
    assert_eq!(r.detection_level(), 40);
}
