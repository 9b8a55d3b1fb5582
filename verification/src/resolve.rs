//! The action resolver: given an action kind and an execution context it
//! computes a success chance from a per-action formula, samples it, derives
//! the detection increase and the reward, and emits a result record.
//!
//! Randomness is expressed as explicit "rolls": whole-percent draws in
//! `0..100` compared against a chance in percent, and alphabet draws in
//! `0..70` picking password characters. The `resolve_*` functions are pure
//! in the rolls and carry exact contracts; the `execute_*` functions draw
//! the rolls and delegate to them.

use vstd::prelude::*;
use crate::catalog::ExecutionContext;
use crate::catalog::ctx_wf;
use crate::probe::scan_probe_spec;
use crate::probe::scan_target;
use crate::random::random_below;
use crate::text::ascii_to_string;
use crate::text::contains_substr;
use crate::text::dec_spec;
use crate::text::join_lines;
use crate::text::join_with;
use crate::text::str_contains;
use crate::text::str_eq;
use crate::text::u32_to_string;

verus! {

/// The four resolvable action kinds.
#[derive(Clone, Copy, PartialEq, Eq, Structural)]
pub enum ActionKind {
    Scan,
    Bruteforce,
    Firewall,
    Crypto,
}

/// Model of a resolver outcome record.
#[verifier::ext_equal]
pub struct ResultModel {
    pub success: bool,
    pub message: Option<Seq<char>>,
    pub experience: Option<u32>,
    pub money: Option<u32>,
    pub detection: Option<u32>,
}

/// The resolver's sole output: success flag, narrative message, and the
/// experience, money and detection deltas for the caller to apply.
/// `detection` is the new absolute detection value, already clamped.
pub struct CommandResult {
    pub success: bool,
    pub message: Option<String>,
    pub experience: Option<u32>,
    pub money: Option<u32>,
    pub detection: Option<u32>,
}

impl View for CommandResult {
    type V = ResultModel;

    open spec fn view(&self) -> ResultModel {
        ResultModel {
            success: self.success,
            message: match self.message {
                Option::Some(m) => Option::Some(m@),
                Option::None => Option::None,
            },
            experience: self.experience,
            money: self.money,
            detection: self.detection,
        }
    }
}

/// Per-item discovery rate of the scan, in percent.
pub open spec fn scan_rate_percent(stealth: bool) -> int {
    if stealth {
        70
    } else {
        90
    }
}

/// The success-chance formula shared by the bruteforce, firewall and crypto
/// actions: a fixed base rate, plus five percent per player level, plus a
/// stealth adjustment and a tool-tier bonus, clamped to 10..=90 percent.
pub open spec fn chance_percent(kind: ActionKind, level: nat, stealth: bool, pro: bool) -> int {
    let base: int = match kind {
        ActionKind::Scan => 0,
        ActionKind::Bruteforce => 70,
        ActionKind::Firewall => 60,
        ActionKind::Crypto => 50,
    };
    let adjust: int = if stealth {
        match kind {
            ActionKind::Scan => 0,
            ActionKind::Bruteforce => -20,
            ActionKind::Firewall => 10,
            ActionKind::Crypto => -10,
        }
    } else {
        0
    };
    let bonus: int = if pro {
        match kind {
            ActionKind::Scan => 0,
            ActionKind::Bruteforce => 20,
            ActionKind::Firewall => 20,
            ActionKind::Crypto => 30,
        }
    } else {
        0
    };
    let raw = base + 5 * level + adjust + bonus;
    if raw < 10 {
        10
    } else if raw > 90 {
        90
    } else {
        raw
    }
}

/// How much one action adds to the detection meter, before clamping.
pub open spec fn detection_increment(kind: ActionKind, stealth: bool) -> int {
    match kind {
        ActionKind::Scan => if stealth {
            5
        } else {
            10
        },
        ActionKind::Bruteforce => if stealth {
            15
        } else {
            25
        },
        ActionKind::Firewall => if stealth {
            10
        } else {
            20
        },
        ActionKind::Crypto => if stealth {
            15
        } else {
            25
        },
    }
}

/// The new absolute detection value: the prior value plus the action's
/// increment, clamped to 100.
pub open spec fn detection_after(prior: nat, kind: ActionKind, stealth: bool) -> u32 {
    let v = prior + detection_increment(kind, stealth);
    if v > 100 {
        100u32
    } else {
        v as u32
    }
}

/// Experience granted by an action.
pub open spec fn xp_reward(kind: ActionKind, success: bool) -> u32 {
    match kind {
        ActionKind::Scan => 50u32,
        ActionKind::Bruteforce => if success {
            100u32
        } else {
            25u32
        },
        ActionKind::Firewall => if success {
            150u32
        } else {
            30u32
        },
        ActionKind::Crypto => if success {
            200u32
        } else {
            40u32
        },
    }
}

/// Money granted by an action; the scan grants none.
pub open spec fn money_reward(kind: ActionKind, success: bool) -> Option<u32> {
    match kind {
        ActionKind::Scan => Option::None,
        ActionKind::Bruteforce => Option::Some(
            if success {
                500u32
            } else {
                0u32
            },
        ),
        ActionKind::Firewall => Option::Some(
            if success {
                750u32
            } else {
                0u32
            },
        ),
        ActionKind::Crypto => Option::Some(
            if success {
                1000u32
            } else {
                0u32
            },
        ),
    }
}

/// Law: for every action kind, stealth mode strictly reduces the detection
/// increment compared to non-stealth operation.
pub proof fn lemma_stealth_reduces_detection(kind: ActionKind)
    ensures
        detection_increment(kind, true) < detection_increment(kind, false),
{
}

/// Law: the new detection value is always within 0..=100, whatever the prior
/// value and the action.
pub proof fn lemma_detection_after_in_range(prior: nat, kind: ActionKind, stealth: bool)
    ensures
        0 <= detection_after(prior, kind, stealth) <= 100,
{
}

/// The password alphabet: lower-case letters, upper-case letters, digits,
/// then the eight symbols of `!@#$%^&*`, as ASCII codes.
pub open spec fn alphabet_spec(i: int) -> u8 {
    if i < 26 {
        (97 + i) as u8  // 'a'..='z'
    } else if i < 52 {
        (65 + (i - 26)) as u8  // 'A'..='Z'
    } else if i < 62 {
        (48 + (i - 52)) as u8  // '0'..='9'
    } else if i == 62 {
        33u8  // '!'
    } else if i == 63 {
        64u8  // '@'
    } else if i == 64 {
        35u8  // '#'
    } else if i == 65 {
        36u8  // '$'
    } else if i == 66 {
        37u8  // '%'
    } else if i == 67 {
        94u8  // '^'
    } else if i == 68 {
        38u8  // '&'
    } else {
        42u8  // '*'
    }
}

fn alphabet_byte(i: u8) -> (b: u8)
    requires
        i < 70,
    ensures
        b == alphabet_spec(i as int),
        b < 128,
{
    if i < 26 {
        97 + i
    } else if i < 52 {
        65 + (i - 26)
    } else if i < 62 {
        48 + (i - 52)
    } else if i == 62 {
        33
    } else if i == 63 {
        64
    } else if i == 64 {
        35
    } else if i == 65 {
        36
    } else if i == 66 {
        37
    } else if i == 67 {
        94
    } else if i == 68 {
        38
    } else {
        42
    }
}

/// The password the given alphabet rolls spell out.
pub open spec fn password_spec(rolls: Seq<u8>) -> Seq<char> {
    rolls.map_values(|r: u8| alphabet_spec(r as int) as char)
}

/// Rolls that drive one per-percent decision: each is a draw in 0..100.
pub open spec fn valid_percent_rolls(rolls: Seq<u8>) -> bool {
    forall|i: int| 0 <= i < rolls.len() ==> rolls[i] < 100
}

/// Rolls that drive password generation: twelve draws in 0..70.
pub open spec fn valid_password_rolls(rolls: Seq<u8>) -> bool {
    rolls.len() == 12 && forall|i: int| 0 <= i < rolls.len() ==> rolls[i] < 70
}

/// Builds the password the rolls spell out: one character per roll, drawn
/// from the 70-character alphabet.
pub fn generate_password(rolls: &Vec<u8>) -> (r: String)
    requires
        forall|i: int| 0 <= i < rolls@.len() ==> rolls@[i] < 70,
    ensures
        r@ == password_spec(rolls@),
{
    let mut bytes: Vec<u8> = Vec::new();
    let mut i: usize = 0;
    while i < rolls.len()
        invariant
            i <= rolls@.len(),
            forall|j: int| 0 <= j < rolls@.len() ==> rolls@[j] < 70,
            bytes@.len() == i,
            forall|j: int|
                0 <= j < i ==> bytes@[j] == alphabet_spec(rolls@[j] as int) && bytes@[j] < 128,
        decreases rolls@.len() - i,
    {
        bytes.push(alphabet_byte(rolls[i]));
        i = i + 1;
    }
    let r = ascii_to_string(bytes);
    proof {
        assert(r@ =~= password_spec(rolls@));
    }
    r
}

/// Whether the context's program is a higher-tier ("Pro") tool.
pub open spec fn pro_tool(ctx: &ExecutionContext) -> bool {
    contains_substr(ctx.program.name@, "Pro"@)
}

/// The vulnerabilities the scan discovers: the item at each position is kept
/// exactly when its roll falls below the discovery rate.
pub open spec fn discovered_spec(vulns: Seq<Seq<char>>, rolls: Seq<u8>, rate: int) -> Seq<
    Seq<char>,
>
    decreases vulns.len(),
{
    if vulns.len() == 0 {
        Seq::empty()
    } else {
        let prefix = discovered_spec(vulns.drop_last(), rolls.drop_last(), rate);
        if (rolls.last() as int) < rate {
            prefix.push(vulns.last())
        } else {
            prefix
        }
    }
}

/// The scan's narrative message: discovered vulnerabilities, open ports and
/// the operating system.
pub open spec fn scan_message(discovered: Seq<Seq<char>>, ports: Seq<u16>, os: Seq<char>) -> Seq<
    char,
> {
    "Scan complete!\n\nDiscovered vulnerabilities:\n"@ + join_with(discovered, seq!['\n'])
        + "\n\nOpen ports:\n"@ + join_with(
        ports.map_values(|p: u16| dec_spec(p as nat)),
        seq!['\n'],
    ) + "\nOS: "@ + os + "\n"@
}

/// Outcome of a scan under the given rolls, one per known vulnerability.
pub open spec fn resolve_scan_spec(ctx: &ExecutionContext, rolls: Seq<u8>) -> ResultModel {
    let s = ctx.game_state@;
    let discovered = discovered_spec(
        ctx.target.vulnerabilities.deep_view(),
        rolls,
        scan_rate_percent(s.stealth_mode),
    );
    let probe = scan_probe_spec(ctx.target.ip@, s.stealth_mode);
    ResultModel {
        success: true,
        message: Option::Some(scan_message(discovered, probe.open_ports, probe.os_info)),
        experience: Option::Some(xp_reward(ActionKind::Scan, true)),
        money: money_reward(ActionKind::Scan, true),
        detection: Option::Some(detection_after(s.detection, ActionKind::Scan, s.stealth_mode)),
    }
}

/// The bruteforce narrative: the cracked password, or a failure notice.
pub open spec fn bruteforce_message(success: bool, password: Seq<char>) -> Seq<char> {
    if success {
        "Password cracked: "@ + password
    } else {
        "Failed to crack password"@
    }
}

/// Outcome of a bruteforce attempt under the given rolls.
pub open spec fn resolve_bruteforce_spec(
    ctx: &ExecutionContext,
    roll: u8,
    pwd_rolls: Seq<u8>,
) -> ResultModel {
    let s = ctx.game_state@;
    let success = (roll as int) < chance_percent(
        ActionKind::Bruteforce,
        s.level,
        s.stealth_mode,
        pro_tool(ctx),
    );
    ResultModel {
        success,
        message: Option::Some(bruteforce_message(success, password_spec(pwd_rolls))),
        experience: Option::Some(xp_reward(ActionKind::Bruteforce, success)),
        money: money_reward(ActionKind::Bruteforce, success),
        detection: Option::Some(
            detection_after(s.detection, ActionKind::Bruteforce, s.stealth_mode),
        ),
    }
}

/// The firewall narrative: bypass confirmation or denial.
pub open spec fn firewall_message(success: bool) -> Seq<char> {
    if success {
        "Firewall successfully bypassed!\nInternal network access established."@
    } else {
        "Failed to bypass firewall. Access denied."@
    }
}

/// Outcome of a firewall bypass attempt under the given roll.
pub open spec fn resolve_firewall_spec(ctx: &ExecutionContext, roll: u8) -> ResultModel {
    let s = ctx.game_state@;
    let success = (roll as int) < chance_percent(
        ActionKind::Firewall,
        s.level,
        s.stealth_mode,
        pro_tool(ctx),
    );
    ResultModel {
        success,
        message: Option::Some(firewall_message(success)),
        experience: Option::Some(xp_reward(ActionKind::Firewall, success)),
        money: money_reward(ActionKind::Firewall, success),
        detection: Option::Some(detection_after(s.detection, ActionKind::Firewall, s.stealth_mode)),
    }
}

/// The crypto narrative: decryption confirmation or denial.
pub open spec fn crypto_message(success: bool) -> Seq<char> {
    if success {
        "Database successfully decrypted!\nSensitive data access granted."@
    } else {
        "Failed to decrypt database. Encryption remains intact."@
    }
}

/// Outcome of a decryption attempt under the given roll.
pub open spec fn resolve_crypto_spec(ctx: &ExecutionContext, roll: u8) -> ResultModel {
    let s = ctx.game_state@;
    let success = (roll as int) < chance_percent(
        ActionKind::Crypto,
        s.level,
        s.stealth_mode,
        pro_tool(ctx),
    );
    ResultModel {
        success,
        message: Option::Some(crypto_message(success)),
        experience: Option::Some(xp_reward(ActionKind::Crypto, success)),
        money: money_reward(ActionKind::Crypto, success),
        detection: Option::Some(detection_after(s.detection, ActionKind::Crypto, s.stealth_mode)),
    }
}

/// The reported outcome for an action kind outside the dispatch table.
pub open spec fn unknown_result_spec(tag: Seq<char>) -> ResultModel {
    ResultModel {
        success: false,
        message: Option::Some("Unknown program type: "@ + tag),
        experience: Option::None,
        money: Option::None,
        detection: Option::None,
    }
}

/// The success-chance formula, in whole percent.
pub fn success_chance_percent(kind: ActionKind, level: u32, stealth: bool, pro: bool) -> (r: u8)
    ensures
        r as int == chance_percent(kind, level as nat, stealth, pro),
        10 <= r <= 90,
{
    let base: i64 = match kind {
        ActionKind::Scan => 0,
        ActionKind::Bruteforce => 70,
        ActionKind::Firewall => 60,
        ActionKind::Crypto => 50,
    };
    let adjust: i64 = if stealth {
        match kind {
            ActionKind::Scan => 0,
            ActionKind::Bruteforce => -20,
            ActionKind::Firewall => 10,
            ActionKind::Crypto => -10,
        }
    } else {
        0
    };
    let bonus: i64 = if pro {
        match kind {
            ActionKind::Scan => 0,
            ActionKind::Bruteforce => 20,
            ActionKind::Firewall => 20,
            ActionKind::Crypto => 30,
        }
    } else {
        0
    };
    let raw: i64 = base + 5 * (level as i64) + adjust + bonus;
    if raw < 10 {
        10
    } else if raw > 90 {
        90
    } else {
        raw as u8
    }
}

/// The new absolute detection value after one action.
fn detection_after_exec(ctx: &ExecutionContext, kind: ActionKind) -> (r: u32)
    requires
        ctx_wf(ctx),
    ensures
        r == detection_after(ctx.game_state@.detection, kind, ctx.game_state@.stealth_mode),
        r <= 100,
{
    let stealth = ctx.game_state.stealth_mode();
    let d = ctx.game_state.detection();
    let inc: u32 = match kind {
        ActionKind::Scan => if stealth {
            5
        } else {
            10
        },
        ActionKind::Bruteforce => if stealth {
            15
        } else {
            25
        },
        ActionKind::Firewall => if stealth {
            10
        } else {
            20
        },
        ActionKind::Crypto => if stealth {
            15
        } else {
            25
        },
    };
    if d + inc > 100 {
        100
    } else {
        d + inc
    }
}

/// Resolves a scan: each known vulnerability is discovered exactly when its
/// roll falls below the discovery rate; the message lists the discoveries
/// and the probe's port and OS findings; detection rises by the scan's
/// fixed increment, clamped to 100.
pub fn resolve_scan(ctx: &ExecutionContext, rolls: &Vec<u8>) -> (r: CommandResult)
    requires
        ctx_wf(ctx),
        rolls@.len() == ctx.target.vulnerabilities@.len(),
        valid_percent_rolls(rolls@),
    ensures
        r@ == resolve_scan_spec(ctx, rolls@),
        r@.detection matches Some(d) && d <= 100,
{
    let stealth = ctx.game_state.stealth_mode();
    let rate: u8 = if stealth {
        70
    } else {
        90
    };
    let ghost dv = ctx.target.vulnerabilities.deep_view();
    let mut discovered: Vec<String> = Vec::new();
    let mut i: usize = 0;
    while i < ctx.target.vulnerabilities.len()
        invariant
            i <= ctx.target.vulnerabilities@.len(),
            dv == ctx.target.vulnerabilities.deep_view(),
            dv.len() == ctx.target.vulnerabilities@.len(),
            rolls@.len() == ctx.target.vulnerabilities@.len(),
            rate as int == scan_rate_percent(ctx.game_state@.stealth_mode),
            stealth == ctx.game_state@.stealth_mode,
            discovered.deep_view() == discovered_spec(
                dv.take(i as int),
                rolls@.take(i as int),
                rate as int,
            ),
        decreases ctx.target.vulnerabilities@.len() - i,
    {
        if rolls[i] < rate {
            discovered.push(ctx.target.vulnerabilities[i].clone());
        }
        proof {
            assert(dv.take(i + 1).drop_last() =~= dv.take(i as int));
            assert(rolls@.take(i + 1).drop_last() =~= rolls@.take(i as int));
            assert(discovered.deep_view() =~= discovered_spec(
                dv.take(i + 1),
                rolls@.take(i + 1),
                rate as int,
            ));
        }
        i = i + 1;
    }
    proof {
        assert(dv.take(dv.len() as int) =~= dv);
        assert(rolls@.take(dv.len() as int) =~= rolls@);
    }
    let probe = scan_target(ctx.target.ip.as_str(), stealth);
    let ports = probe.open_ports();
    let mut port_strs: Vec<String> = Vec::new();
    let mut i: usize = 0;
    while i < ports.len()
        invariant
            i <= ports@.len(),
            port_strs@.len() == i,
            forall|j: int| 0 <= j < i ==> #[trigger] port_strs@[j]@ == dec_spec(ports@[j] as nat),
        decreases ports@.len() - i,
    {
        port_strs.push(u32_to_string(ports[i] as u32));
        i = i + 1;
    }
    proof {
        let f = |p: u16| dec_spec(p as nat);
        assert forall|j: int|
            0 <= j < ports@.len() implies #[trigger] port_strs.deep_view()[j]
            == ports@.map_values(f)[j] by {
            assert(port_strs.deep_view()[j] == port_strs@[j]@);
            assert(ports@.map_values(f)[j] == f(ports@[j]));
        }
        assert(port_strs.deep_view() =~= ports@.map_values(f));
    }
    let mut message = String::from_str("Scan complete!\n\nDiscovered vulnerabilities:\n");
    message.append(join_lines(&discovered).as_str());
    message.append("\n\nOpen ports:\n");
    message.append(join_lines(&port_strs).as_str());
    message.append("\nOS: ");
    message.append(probe.os_info().as_str());
    message.append("\n");
    let detection = detection_after_exec(ctx, ActionKind::Scan);
    let r = CommandResult {
        success: true,
        message: Option::Some(message),
        experience: Option::Some(50),
        money: Option::None,
        detection: Option::Some(detection),
    };
    proof {
        assert(r@.message.unwrap() =~= resolve_scan_spec(ctx, rolls@).message.unwrap());
        assert(r@ =~~= resolve_scan_spec(ctx, rolls@));
    }
    r
}

/// Resolves a bruteforce attempt: success exactly when the roll falls below
/// the chance formula; on success the message carries a freshly generated
/// twelve-character password.
pub fn resolve_bruteforce(ctx: &ExecutionContext, roll: u8, pwd_rolls: &Vec<u8>) -> (r:
    CommandResult)
    requires
        ctx_wf(ctx),
        roll < 100,
        valid_password_rolls(pwd_rolls@),
    ensures
        r@ == resolve_bruteforce_spec(ctx, roll, pwd_rolls@),
        r@.detection matches Some(d) && d <= 100,
{
    let chance = success_chance_percent(
        ActionKind::Bruteforce,
        ctx.game_state.level(),
        ctx.game_state.stealth_mode(),
        str_contains(ctx.program.name.as_str(), "Pro"),
    );
    let success = roll < chance;
    let message = if success {
        let pwd = generate_password(pwd_rolls);
        let mut m = String::from_str("Password cracked: ");
        m.append(pwd.as_str());
        m
    } else {
        String::from_str("Failed to crack password")
    };
    let detection = detection_after_exec(ctx, ActionKind::Bruteforce);
    let r = CommandResult {
        success,
        message: Option::Some(message),
        experience: Option::Some(
            if success {
                100
            } else {
                25
            },
        ),
        money: Option::Some(
            if success {
                500
            } else {
                0
            },
        ),
        detection: Option::Some(detection),
    };
    proof {
        assert(r@.message.unwrap() =~= resolve_bruteforce_spec(
            ctx,
            roll,
            pwd_rolls@,
        ).message.unwrap());
        assert(r@ =~~= resolve_bruteforce_spec(ctx, roll, pwd_rolls@));
    }
    r
}

/// Resolves a firewall bypass attempt: success exactly when the roll falls
/// below the chance formula.
pub fn resolve_firewall(ctx: &ExecutionContext, roll: u8) -> (r: CommandResult)
    requires
        ctx_wf(ctx),
        roll < 100,
    ensures
        r@ == resolve_firewall_spec(ctx, roll),
        r@.detection matches Some(d) && d <= 100,
{
    let chance = success_chance_percent(
        ActionKind::Firewall,
        ctx.game_state.level(),
        ctx.game_state.stealth_mode(),
        str_contains(ctx.program.name.as_str(), "Pro"),
    );
    let success = roll < chance;
    let message = if success {
        String::from_str("Firewall successfully bypassed!\nInternal network access established.")
    } else {
        String::from_str("Failed to bypass firewall. Access denied.")
    };
    let detection = detection_after_exec(ctx, ActionKind::Firewall);
    let r = CommandResult {
        success,
        message: Option::Some(message),
        experience: Option::Some(
            if success {
                150
            } else {
                30
            },
        ),
        money: Option::Some(
            if success {
                750
            } else {
                0
            },
        ),
        detection: Option::Some(detection),
    };
    proof {
        assert(r@ =~~= resolve_firewall_spec(ctx, roll));
    }
    r
}

/// Resolves a decryption attempt: success exactly when the roll falls below
/// the chance formula.
pub fn resolve_crypto(ctx: &ExecutionContext, roll: u8) -> (r: CommandResult)
    requires
        ctx_wf(ctx),
        roll < 100,
    ensures
        r@ == resolve_crypto_spec(ctx, roll),
        r@.detection matches Some(d) && d <= 100,
{
    let chance = success_chance_percent(
        ActionKind::Crypto,
        ctx.game_state.level(),
        ctx.game_state.stealth_mode(),
        str_contains(ctx.program.name.as_str(), "Pro"),
    );
    let success = roll < chance;
    let message = if success {
        String::from_str("Database successfully decrypted!\nSensitive data access granted.")
    } else {
        String::from_str("Failed to decrypt database. Encryption remains intact.")
    };
    let detection = detection_after_exec(ctx, ActionKind::Crypto);
    let r = CommandResult {
        success,
        message: Option::Some(message),
        experience: Option::Some(
            if success {
                200
            } else {
                40
            },
        ),
        money: Option::Some(
            if success {
                1000
            } else {
                0
            },
        ),
        detection: Option::Some(detection),
    };
    proof {
        assert(r@ =~~= resolve_crypto_spec(ctx, roll));
    }
    r
}

/// Resolves a scan with freshly drawn rolls, one per known vulnerability.
pub fn execute_scan(ctx: &ExecutionContext) -> (r: CommandResult)
    requires
        ctx_wf(ctx),
    ensures
        exists|rolls: Seq<u8>|
            rolls.len() == ctx.target.vulnerabilities@.len() && valid_percent_rolls(rolls) && r@
                == #[trigger] resolve_scan_spec(ctx, rolls),
        r@.detection matches Some(d) && d <= 100,
{
    let n = ctx.target.vulnerabilities.len();
    let mut rolls: Vec<u8> = Vec::new();
    let mut i: usize = 0;
    while i < n
        invariant
            i <= n,
            rolls@.len() == i,
            valid_percent_rolls(rolls@),
        decreases n - i,
    {
        rolls.push(random_below(100));
        i = i + 1;
    }
    let r = resolve_scan(ctx, &rolls);
    proof {
        assert(rolls@.len() == ctx.target.vulnerabilities@.len() && valid_percent_rolls(rolls@)
            && r@ == resolve_scan_spec(ctx, rolls@));
    }
    r
}

/// Resolves a bruteforce attempt with a freshly drawn roll and password.
pub fn execute_bruteforce(ctx: &ExecutionContext) -> (r: CommandResult)
    requires
        ctx_wf(ctx),
    ensures
        exists|roll: u8, pwd_rolls: Seq<u8>|
            roll < 100 && valid_password_rolls(pwd_rolls) && r@
                == #[trigger] resolve_bruteforce_spec(ctx, roll, pwd_rolls),
        r@.detection matches Some(d) && d <= 100,
{
    let roll = random_below(100);
    let mut pwd_rolls: Vec<u8> = Vec::new();
    let mut i: usize = 0;
    while i < 12
        invariant
            i <= 12,
            pwd_rolls@.len() == i,
            forall|j: int| 0 <= j < i ==> pwd_rolls@[j] < 70,
        decreases 12 - i,
    {
        pwd_rolls.push(random_below(70));
        i = i + 1;
    }
    let r = resolve_bruteforce(ctx, roll, &pwd_rolls);
    proof {
        assert(roll < 100 && valid_password_rolls(pwd_rolls@) && r@ == resolve_bruteforce_spec(
            ctx,
            roll,
            pwd_rolls@,
        ));
    }
    r
}

/// Resolves a firewall bypass with a freshly drawn roll.
pub fn execute_firewall(ctx: &ExecutionContext) -> (r: CommandResult)
    requires
        ctx_wf(ctx),
    ensures
        exists|roll: u8| roll < 100 && r@ == #[trigger] resolve_firewall_spec(ctx, roll),
        r@.detection matches Some(d) && d <= 100,
{
    let roll = random_below(100);
    let r = resolve_firewall(ctx, roll);
    proof {
        assert(roll < 100 && r@ == resolve_firewall_spec(ctx, roll));
    }
    r
}

/// Resolves a decryption attempt with a freshly drawn roll.
pub fn execute_crypto(ctx: &ExecutionContext) -> (r: CommandResult)
    requires
        ctx_wf(ctx),
    ensures
        exists|roll: u8| roll < 100 && r@ == #[trigger] resolve_crypto_spec(ctx, roll),
        r@.detection matches Some(d) && d <= 100,
{
    let roll = random_below(100);
    let r = resolve_crypto(ctx, roll);
    proof {
        assert(roll < 100 && r@ == resolve_crypto_spec(ctx, roll));
    }
    r
}

/// The resolver's single entry point: dispatches on the action-kind tag.
/// A tag outside the table yields a reported failure record, never an error,
/// and supplies no deltas.
pub fn execute_command(program_type: &str, ctx: &ExecutionContext) -> (r: CommandResult)
    requires
        ctx_wf(ctx),
    ensures
        program_type@ == "scan"@ ==> exists|rolls: Seq<u8>|
            rolls.len() == ctx.target.vulnerabilities@.len() && valid_percent_rolls(rolls) && r@
                == #[trigger] resolve_scan_spec(ctx, rolls),
        program_type@ == "bruteforce"@ ==> exists|roll: u8, pwd_rolls: Seq<u8>|
            roll < 100 && valid_password_rolls(pwd_rolls) && r@
                == #[trigger] resolve_bruteforce_spec(ctx, roll, pwd_rolls),
        program_type@ == "firewall"@ ==> exists|roll: u8|
            roll < 100 && r@ == #[trigger] resolve_firewall_spec(ctx, roll),
        program_type@ == "crypto"@ ==> exists|roll: u8|
            roll < 100 && r@ == #[trigger] resolve_crypto_spec(ctx, roll),
        program_type@ == "scan"@ || program_type@ == "bruteforce"@ || program_type@ == "firewall"@
            || program_type@ == "crypto"@ ==> (r@.detection matches Some(d) && d <= 100),
        !(program_type@ == "scan"@ || program_type@ == "bruteforce"@ || program_type@
            == "firewall"@ || program_type@ == "crypto"@) ==> r@ == unknown_result_spec(
            program_type@,
        ),
{
    proof {
        reveal_strlit("scan");
        reveal_strlit("bruteforce");
        reveal_strlit("firewall");
        reveal_strlit("crypto");
    }
    if str_eq(program_type, "scan") {
        execute_scan(ctx)
    } else if str_eq(program_type, "bruteforce") {
        execute_bruteforce(ctx)
    } else if str_eq(program_type, "firewall") {
        execute_firewall(ctx)
    } else if str_eq(program_type, "crypto") {
        execute_crypto(ctx)
    } else {
        let mut message = String::from_str("Unknown program type: ");
        message.append(program_type);
        let r = CommandResult {
            success: false,
            message: Option::Some(message),
            experience: Option::None,
            money: Option::None,
            detection: Option::None,
        };
        proof {
            assert(r@ =~~= unknown_result_spec(program_type@));
        }
        r
    }
}


} // verus!
