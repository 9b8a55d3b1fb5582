//! Standalone read-only probes: a reconnaissance scan and a bruteforce probe
//! against a small table of demo targets, keyed by the target's address.
//! Both return their own result records and need no full execution context.

use vstd::prelude::*;
use crate::text::str_eq;

verus! {

/// Model of one discovered vulnerability.
#[verifier::ext_equal]
pub struct VulnModel {
    pub name: Seq<char>,
    pub risk_level: u32,
    pub description: Seq<char>,
}

/// A vulnerability found on a target.
pub struct Vulnerability {
    name: String,
    risk_level: u32,
    description: String,
}

impl View for Vulnerability {
    type V = VulnModel;

    closed spec fn view(&self) -> VulnModel {
        VulnModel { name: self.name@, risk_level: self.risk_level, description: self.description@ }
    }
}

impl Vulnerability {
    pub fn new(name: &str, risk_level: u32, description: &str) -> (v: Self)
        ensures
            v@ == (VulnModel { name: name@, risk_level, description: description@ }),
    {
        Self { name: name.to_owned(), risk_level, description: description.to_owned() }
    }

    pub fn name(&self) -> (r: &String)
        ensures
            r@ == self@.name,
    {
        &self.name
    }

    pub fn risk_level(&self) -> (r: u32)
        ensures
            r == self@.risk_level,
    {
        self.risk_level
    }

    pub fn description(&self) -> (r: &String)
        ensures
            r@ == self@.description,
    {
        &self.description
    }
}

/// Model of a scan probe's outcome.
#[verifier::ext_equal]
pub struct ScanModel {
    pub open_ports: Seq<u16>,
    pub os_info: Seq<char>,
    pub vulnerabilities: Seq<VulnModel>,
    pub services: Seq<(u16, Seq<char>)>,
    pub detection_level: u32,
}

/// Outcome of a reconnaissance scan probe.
pub struct ScanResult {
    open_ports: Vec<u16>,
    os_info: String,
    vulnerabilities: Vec<Vulnerability>,
    services: Vec<(u16, String)>,
    detection_level: u32,
}

impl View for ScanResult {
    type V = ScanModel;

    closed spec fn view(&self) -> ScanModel {
        ScanModel {
            open_ports: self.open_ports@,
            os_info: self.os_info@,
            vulnerabilities: self.vulnerabilities@.map_values(|v: Vulnerability| v@),
            services: self.services@.map_values(|p: (u16, String)| (p.0, p.1@)),
            detection_level: self.detection_level,
        }
    }
}

impl ScanResult {
    pub fn open_ports(&self) -> (r: &Vec<u16>)
        ensures
            r@ == self@.open_ports,
    {
        &self.open_ports
    }

    pub fn os_info(&self) -> (r: &String)
        ensures
            r@ == self@.os_info,
    {
        &self.os_info
    }

    pub fn vulnerabilities(&self) -> (r: &Vec<Vulnerability>)
        ensures
            r@.map_values(|v: Vulnerability| v@) == self@.vulnerabilities,
    {
        &self.vulnerabilities
    }

    pub fn services(&self) -> (r: &Vec<(u16, String)>)
        ensures
            r@.map_values(|p: (u16, String)| (p.0, p.1@)) == self@.services,
    {
        &self.services
    }

    pub fn detection_level(&self) -> (r: u32)
        ensures
            r == self@.detection_level,
    {
        self.detection_level
    }
}

/// Model of a bruteforce probe's outcome. The elapsed time is held in
/// hundredths of a second.
#[verifier::ext_equal]
pub struct BruteforceModel {
    pub success: bool,
    pub password: Option<Seq<char>>,
    pub attempts: u32,
    pub time_elapsed_hundredths: u32,
    pub method_used: Seq<char>,
    pub detection_level: u32,
}

/// Outcome of a bruteforce probe.
pub struct BruteforceResult {
    success: bool,
    password: Option<String>,
    attempts: u32,
    time_elapsed_hundredths: u32,
    method_used: String,
    detection_level: u32,
}

impl View for BruteforceResult {
    type V = BruteforceModel;

    closed spec fn view(&self) -> BruteforceModel {
        BruteforceModel {
            success: self.success,
            password: match self.password {
                Option::Some(p) => Option::Some(p@),
                Option::None => Option::None,
            },
            attempts: self.attempts,
            time_elapsed_hundredths: self.time_elapsed_hundredths,
            method_used: self.method_used@,
            detection_level: self.detection_level,
        }
    }
}

impl BruteforceResult {
    pub fn success(&self) -> (r: bool)
        ensures
            r == self@.success,
    {
        self.success
    }

    pub fn password(&self) -> (r: &Option<String>)
        ensures
            r matches Some(p) ==> self@.password matches Some(q) && p@ == q,
            r is None <==> self@.password is None,
    {
        &self.password
    }

    pub fn attempts(&self) -> (r: u32)
        ensures
            r == self@.attempts,
    {
        self.attempts
    }

    pub fn time_elapsed_hundredths(&self) -> (r: u32)
        ensures
            r == self@.time_elapsed_hundredths,
    {
        self.time_elapsed_hundredths
    }

    pub fn method_used(&self) -> (r: &String)
        ensures
            r@ == self@.method_used,
    {
        &self.method_used
    }

    pub fn detection_level(&self) -> (r: u32)
        ensures
            r == self@.detection_level,
    {
        self.detection_level
    }
}

/// The scan probe's whole lookup table, as a function of the target address
/// and the stealth flag.
pub open spec fn scan_probe_spec(ip: Seq<char>, stealth: bool) -> ScanModel {
    let detection: u32 = if stealth {
        5
    } else {
        20
    };
    if ip == "192.168.1.100"@ {
        ScanModel {
            open_ports: seq![22u16, 80u16, 443u16],
            os_info: "Ubuntu 20.04 LTS"@,
            vulnerabilities: seq![
                VulnModel {
                    name: "weak_password"@,
                    risk_level: 2,
                    description: "Weak SSH password"@,
                },
            ],
            services: seq![(22u16, "ssh"@), (80u16, "http"@), (443u16, "https"@)],
            detection_level: detection,
        }
    } else if ip == "10.0.0.50"@ {
        ScanModel {
            open_ports: seq![1433u16, 3306u16],
            os_info: "Windows Server 2019"@,
            vulnerabilities: seq![
                VulnModel {
                    name: "sql_injection"@,
                    risk_level: 3,
                    description: "SQL Injection vulnerability"@,
                },
                VulnModel {
                    name: "outdated_software"@,
                    risk_level: 2,
                    description: "Outdated DBMS version"@,
                },
            ],
            services: seq![(1433u16, "mssql"@), (3306u16, "mysql"@)],
            detection_level: detection,
        }
    } else if ip == "172.16.0.25"@ {
        ScanModel {
            open_ports: seq![21u16, 2049u16],
            os_info: "CentOS 8"@,
            vulnerabilities: seq![
                VulnModel {
                    name: "misconfiguration"@,
                    risk_level: 2,
                    description: "FTP anonymous access enabled"@,
                },
                VulnModel {
                    name: "default_credentials"@,
                    risk_level: 3,
                    description: "Default admin credentials in use"@,
                },
            ],
            services: seq![(21u16, "ftp"@), (2049u16, "nfs"@)],
            detection_level: detection,
        }
    } else {
        ScanModel {
            open_ports: Seq::empty(),
            os_info: "Unknown OS"@,
            vulnerabilities: Seq::empty(),
            services: Seq::empty(),
            detection_level: detection,
        }
    }
}

/// Scans a target: a pure lookup over a small table of demo machines, plus a
/// fixed detection level that is lower under stealth.
pub fn scan_target(target_ip: &str, stealth_mode: bool) -> (r: ScanResult)
    ensures
        r@ == scan_probe_spec(target_ip@, stealth_mode),
{
    let detection_level: u32 = if stealth_mode {
        5
    } else {
        20
    };
    let r = if str_eq(target_ip, "192.168.1.100") {
        ScanResult {
            open_ports: vec![22, 80, 443],
            os_info: String::from_str("Ubuntu 20.04 LTS"),
            vulnerabilities: vec![Vulnerability::new("weak_password", 2, "Weak SSH password")],
            services: vec![
                (22, String::from_str("ssh")),
                (80, String::from_str("http")),
                (443, String::from_str("https")),
            ],
            detection_level,
        }
    } else if str_eq(target_ip, "10.0.0.50") {
        ScanResult {
            open_ports: vec![1433, 3306],
            os_info: String::from_str("Windows Server 2019"),
            vulnerabilities: vec![
                Vulnerability::new("sql_injection", 3, "SQL Injection vulnerability"),
                Vulnerability::new("outdated_software", 2, "Outdated DBMS version"),
            ],
            services: vec![(1433, String::from_str("mssql")), (3306, String::from_str("mysql"))],
            detection_level,
        }
    } else if str_eq(target_ip, "172.16.0.25") {
        ScanResult {
            open_ports: vec![21, 2049],
            os_info: String::from_str("CentOS 8"),
            vulnerabilities: vec![
                Vulnerability::new("misconfiguration", 2, "FTP anonymous access enabled"),
                Vulnerability::new("default_credentials", 3, "Default admin credentials in use"),
            ],
            services: vec![(21, String::from_str("ftp")), (2049, String::from_str("nfs"))],
            detection_level,
        }
    } else {
        ScanResult {
            open_ports: Vec::new(),
            os_info: String::from_str("Unknown OS"),
            vulnerabilities: Vec::new(),
            services: Vec::new(),
            detection_level,
        }
    };
    proof {
        assert(r@ =~~= scan_probe_spec(target_ip@, stealth_mode));
    }
    r
}

/// The bruteforce probe's whole lookup table, as a function of the target
/// address, the port and the stealth flag.
pub open spec fn bruteforce_probe_spec(ip: Seq<char>, port: u16, stealth: bool) -> BruteforceModel {
    let success = (ip == "192.168.1.100"@ && port == 22) || (ip == "10.0.0.50"@ && port == 1433) || (
    ip == "172.16.0.25"@ && port == 21);
    BruteforceModel {
        success,
        password: if ip == "192.168.1.100"@ && port == 22 {
            Option::Some("password123"@)
        } else if ip == "10.0.0.50"@ && port == 1433 {
            Option::Some("admin2019"@)
        } else if ip == "172.16.0.25"@ && port == 21 {
            Option::Some("anonymous"@)
        } else {
            Option::None
        },
        attempts: if success {
            128
        } else {
            500
        },
        time_elapsed_hundredths: if success {
            350
        } else {
            1000
        },
        method_used: if stealth {
            "dictionary_attack"@
        } else {
            "brute_force"@
        },
        detection_level: if stealth {
            15
        } else {
            40
        },
    }
}

/// Probes a target's port with a bruteforce attack: a pure lookup over the
/// demo table, with a fixed detection level that is lower under stealth.
pub fn bruteforce_target(target_ip: &str, port: u16, stealth_mode: bool) -> (r: BruteforceResult)
    ensures
        r@ == bruteforce_probe_spec(target_ip@, port, stealth_mode),
{
    let detection_level: u32 = if stealth_mode {
        15
    } else {
        40
    };
    let is_first = str_eq(target_ip, "192.168.1.100") && port == 22;
    let is_second = str_eq(target_ip, "10.0.0.50") && port == 1433;
    let is_third = str_eq(target_ip, "172.16.0.25") && port == 21;
    let success = is_first || is_second || is_third;
    let password = if is_first {
        Option::Some(String::from_str("password123"))
    } else if is_second {
        Option::Some(String::from_str("admin2019"))
    } else if is_third {
        Option::Some(String::from_str("anonymous"))
    } else {
        Option::None
    };
    let attempts: u32 = if success {
        128
    } else {
        500
    };
    let time_elapsed_hundredths: u32 = if success {
        350
    } else {
        1000
    };
    let method_used = if stealth_mode {
        String::from_str("dictionary_attack")
    } else {
        String::from_str("brute_force")
    };
    let r = BruteforceResult {
        success,
        password,
        attempts,
        time_elapsed_hundredths,
        method_used,
        detection_level,
    };
    proof {
        assert(r@ =~~= bruteforce_probe_spec(target_ip@, port, stealth_mode));
    }
    r
}

} // verus!
