use hacksim::catalog::{ExecutionContext, Program, Reward, Target};
use hacksim::resolve::{
    execute_bruteforce, execute_command, execute_crypto, execute_firewall, execute_scan,
    resolve_bruteforce, resolve_crypto, resolve_firewall, resolve_scan, success_chance_percent,
    ActionKind,
};
use hacksim::state::GameState;

fn demo_target() -> Target {
    Target {
        name: "Training Server".to_string(),
        ip: "192.168.1.100".to_string(),
        difficulty: 1,
        description: "A vulnerable training machine".to_string(),
        reward: Reward { xp: 100, money: 500 },
        systems: vec![],
        os: "Linux".to_string(),
        vulnerabilities: vec!["weak_password".to_string()],
    }
}

fn demo_program(name: &str) -> Program {
    Program {
        name: name.to_string(),
        description: "A tool".to_string(),
        price: 100,
        level: 1,
        program_type: "tool".to_string(),
        commands: vec![],
        success_rate: 85,
    }
}

fn demo_ctx(program_name: &str, stealth: bool, detection: u32) -> ExecutionContext {
    let mut game_state = GameState::new();
    if stealth {
        game_state.toggle_stealth_mode();
    }
    game_state.set_detection(detection);
    ExecutionContext {
        program: demo_program(program_name),
        target: demo_target(),
        game_state,
        args: vec![],
    }
}

#[test]
fn chance_formula_bruteforce() {
    assert_eq!(success_chance_percent(ActionKind::Bruteforce, 1, false, false), 75);
    assert_eq!(success_chance_percent(ActionKind::Bruteforce, 1, true, false), 55);
    assert_eq!(success_chance_percent(ActionKind::Bruteforce, 1, false, true), 90);
    assert_eq!(success_chance_percent(ActionKind::Bruteforce, 0, true, false), 50);
}

#[test]
fn chance_formula_firewall_and_crypto() {
    assert_eq!(success_chance_percent(ActionKind::Firewall, 1, false, false), 65);
    assert_eq!(success_chance_percent(ActionKind::Firewall, 1, true, true), 90);
    assert_eq!(success_chance_percent(ActionKind::Crypto, 1, false, false), 55);
    assert_eq!(success_chance_percent(ActionKind::Crypto, 1, true, true), 75);
}

#[test]
fn chance_is_clamped() {
    assert_eq!(success_chance_percent(ActionKind::Bruteforce, 100, false, true), 90);
    assert_eq!(success_chance_percent(ActionKind::Crypto, 0, true, false), 40);
}

#[test]
fn bruteforce_forced_success_scenario() {
    let ctx = demo_ctx("BruteForcer", false, 0);
    let pwd_rolls: Vec<u8> = vec![0, 1, 2, 3, 4, 5, 6, 7, 8, 9, 10, 11];
    let r = resolve_bruteforce(&ctx, 0, &pwd_rolls);
    assert!(r.success);
    assert_eq!(r.experience, Some(100));
    assert_eq!(r.money, Some(500));
    assert_eq!(r.detection, Some(25));
    let message = r.message.unwrap();
    let password = message.strip_prefix("Password cracked: ").unwrap();
    assert_eq!(password.chars().count(), 12);
    assert!(!password.is_empty());
    for c in password.chars() {
        assert!(c.is_ascii_alphanumeric() || "!@#$%^&*".contains(c));
    }
    assert_eq!(password, "abcdefghijkl");
}

#[test]
fn bruteforce_forced_failure_scenario() {
    let ctx = demo_ctx("BruteForcer", false, 0);
    let pwd_rolls: Vec<u8> = vec![0; 12];
    let r = resolve_bruteforce(&ctx, 99, &pwd_rolls);
    assert!(!r.success);
    assert_eq!(r.experience, Some(25));
    assert_eq!(r.money, Some(0));
    assert_eq!(r.detection, Some(25));
    assert_eq!(r.message.unwrap(), "Failed to crack password");
}

#[test]
fn bruteforce_pro_tool_raises_chance() {
    let pwd_rolls: Vec<u8> = vec![0; 12];
    let plain = demo_ctx("BruteForcer", false, 0);
    let r = resolve_bruteforce(&plain, 80, &pwd_rolls);
    assert!(!r.success);
    let pro = demo_ctx("BruteForcer Pro", false, 0);
    let r = resolve_bruteforce(&pro, 80, &pwd_rolls);
    assert!(r.success);
}

#[test]
fn scan_discovers_everything_on_low_rolls() {
    let ctx = demo_ctx("Scanner", false, 0);
    let rolls: Vec<u8> = vec![0];
    let r = resolve_scan(&ctx, &rolls);
    assert!(r.success);
    assert_eq!(r.experience, Some(50));
    assert_eq!(r.money, None);
    assert_eq!(r.detection, Some(10));
    assert_eq!(
        r.message.unwrap(),
        "Scan complete!\n\nDiscovered vulnerabilities:\nweak_password\n\nOpen ports:\n22\n80\n443\nOS: Ubuntu 20.04 LTS\n"
    );
}

#[test]
fn scan_discovers_nothing_on_high_rolls() {
    let ctx = demo_ctx("Scanner", false, 0);
    let rolls: Vec<u8> = vec![99];
    let r = resolve_scan(&ctx, &rolls);
    assert!(r.success);
    assert_eq!(
        r.message.unwrap(),
        "Scan complete!\n\nDiscovered vulnerabilities:\n\n\nOpen ports:\n22\n80\n443\nOS: Ubuntu 20.04 LTS\n"
    );
}

#[test]
fn firewall_outcomes() {
    let ctx = demo_ctx("Breaker", false, 0);
    let r = resolve_firewall(&ctx, 0);
    assert!(r.success);
    assert_eq!(r.experience, Some(150));
    assert_eq!(r.money, Some(750));
    assert_eq!(r.detection, Some(20));
    assert_eq!(
        r.message.unwrap(),
        "Firewall successfully bypassed!\nInternal network access established."
    );
    let r = resolve_firewall(&ctx, 99);
    assert!(!r.success);
    assert_eq!(r.experience, Some(30));
    assert_eq!(r.money, Some(0));
    assert_eq!(r.message.unwrap(), "Failed to bypass firewall. Access denied.");
}

#[test]
fn crypto_outcomes() {
    let ctx = demo_ctx("Decryptor", false, 0);
    let r = resolve_crypto(&ctx, 0);
    assert!(r.success);
    assert_eq!(r.experience, Some(200));
    assert_eq!(r.money, Some(1000));
    assert_eq!(r.detection, Some(25));
    assert_eq!(
        r.message.unwrap(),
        "Database successfully decrypted!\nSensitive data access granted."
    );
    let r = resolve_crypto(&ctx, 99);
    assert!(!r.success);
    assert_eq!(r.experience, Some(40));
    assert_eq!(r.money, Some(0));
    assert_eq!(r.message.unwrap(), "Failed to decrypt database. Encryption remains intact.");
}

#[test]
fn stealth_lowers_every_detection_increment() {
    let pwd_rolls: Vec<u8> = vec![0; 12];
    let rolls: Vec<u8> = vec![0];
    for (kind_stealth, kind_normal) in [
        (
            resolve_scan(&demo_ctx("T", true, 0), &rolls).detection.unwrap(),
            resolve_scan(&demo_ctx("T", false, 0), &rolls).detection.unwrap(),
        ),
        (
            resolve_bruteforce(&demo_ctx("T", true, 0), 0, &pwd_rolls).detection.unwrap(),
            resolve_bruteforce(&demo_ctx("T", false, 0), 0, &pwd_rolls).detection.unwrap(),
        ),
        (
            resolve_firewall(&demo_ctx("T", true, 0), 0).detection.unwrap(),
            resolve_firewall(&demo_ctx("T", false, 0), 0).detection.unwrap(),
        ),
        (
            resolve_crypto(&demo_ctx("T", true, 0), 0).detection.unwrap(),
            resolve_crypto(&demo_ctx("T", false, 0), 0).detection.unwrap(),
        ),
    ] {
        assert!(kind_stealth < kind_normal);
    }
}

#[test]
fn detection_is_clamped_at_100() {
    let ctx = demo_ctx("T", false, 90);
    let pwd_rolls: Vec<u8> = vec![0; 12];
    let r = resolve_bruteforce(&ctx, 0, &pwd_rolls);
    assert_eq!(r.detection, Some(100));
    let ctx = demo_ctx("T", false, 100);
    let r = resolve_crypto(&ctx, 99);
    assert_eq!(r.detection, Some(100));
}

#[test]
fn detection_increments_by_action() {
    let pwd_rolls: Vec<u8> = vec![0; 12];
    let rolls: Vec<u8> = vec![0];
    assert_eq!(resolve_scan(&demo_ctx("T", true, 0), &rolls).detection, Some(5));
    assert_eq!(resolve_scan(&demo_ctx("T", false, 0), &rolls).detection, Some(10));
    assert_eq!(resolve_bruteforce(&demo_ctx("T", true, 0), 0, &pwd_rolls).detection, Some(15));
    assert_eq!(resolve_bruteforce(&demo_ctx("T", false, 0), 0, &pwd_rolls).detection, Some(25));
    assert_eq!(resolve_firewall(&demo_ctx("T", true, 0), 0).detection, Some(10));
    assert_eq!(resolve_firewall(&demo_ctx("T", false, 0), 0).detection, Some(20));
    assert_eq!(resolve_crypto(&demo_ctx("T", true, 0), 0).detection, Some(15));
    assert_eq!(resolve_crypto(&demo_ctx("T", false, 0), 0).detection, Some(25));
}

#[test]
fn unknown_action_kind_is_reported() {
    let ctx = demo_ctx("Teleporter", false, 0);
    let r = execute_command("teleport", &ctx);
    assert!(!r.success);
    assert_eq!(r.message.unwrap(), "Unknown program type: teleport");
    assert_eq!(r.experience, None);
    assert_eq!(r.money, None);
    assert_eq!(r.detection, None);
}

#[test]
fn execute_command_dispatches_scan() {
    let ctx = demo_ctx("Scanner", false, 0);
    let r = execute_command("scan", &ctx);
    assert!(r.success);
    assert_eq!(r.experience, Some(50));
    assert_eq!(r.money, None);
    assert_eq!(r.detection, Some(10));
}

#[test]
fn execute_functions_stay_in_detection_range() {
    let ctx = demo_ctx("Tool Pro", true, 95);
    for r in [
        execute_scan(&ctx),
        execute_bruteforce(&ctx),
        execute_firewall(&ctx),
        execute_crypto(&ctx),
    ] {
        let d = r.detection.unwrap();
        assert!(d <= 100);
        assert!(r.experience.unwrap() > 0);
    }
}

#[test]
fn execute_bruteforce_rewards_match_outcome() {
    let ctx = demo_ctx("BruteForcer", false, 0);
    let r = execute_bruteforce(&ctx);
    assert_eq!(r.detection, Some(25));
    if r.success {
        assert_eq!(r.experience, Some(100));
        assert_eq!(r.money, Some(500));
        assert!(r.message.unwrap().starts_with("Password cracked: "));
    } else {
        assert_eq!(r.experience, Some(25));
        assert_eq!(r.money, Some(0));
        assert_eq!(r.message.unwrap(), "Failed to crack password");
    }
}

#[test]
fn password_alphabet_sections() {
    let ctx = demo_ctx("BruteForcer", false, 0);
    let pwd_rolls: Vec<u8> = vec![62, 63, 64, 65, 66, 67, 68, 69, 52, 0, 25, 51];
    let r = resolve_bruteforce(&ctx, 0, &pwd_rolls);
    assert_eq!(r.message.unwrap(), "Password cracked: !@#$%^&*0azZ");
}

#[test]
fn execute_command_dispatches_all_kinds() {
    let ctx = demo_ctx("Tool", false, 0);
    assert_eq!(execute_command("scan", &ctx).detection, Some(10));
    assert_eq!(execute_command("bruteforce", &ctx).detection, Some(25));
    assert_eq!(execute_command("firewall", &ctx).detection, Some(20));
    assert_eq!(execute_command("crypto", &ctx).detection, Some(25));
}

