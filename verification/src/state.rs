//! The player's progression state: level, experience, money, detection meter
//! and stealth toggle, together with the rules for levelling up, clamping
//! detection and toggling stealth.

use vstd::prelude::*;

verus! {

/// Mathematical model of a progression state.
pub struct StateModel {
    pub level: nat,
    pub experience: nat,
    pub money: nat,
    pub detection: nat,
    pub stealth_mode: bool,
}

/// The state a fresh session starts from.
pub open spec fn initial_state() -> StateModel {
    StateModel { level: 1, experience: 0, money: 1000, detection: 0, stealth_mode: false }
}

/// The detection meter is always clamped to 0..=100.
pub open spec fn state_wf(s: StateModel) -> bool {
    s.detection <= 100
}

/// Whether a call of `add_experience` with this amount levels the player up.
pub open spec fn levels_up(s: StateModel, amount: nat) -> bool {
    s.experience + amount >= 1000
}

/// Effect of `add_experience`: experience accumulates, and reaching 1000
/// within the call raises the level by one and resets experience to zero.
pub open spec fn add_experience_spec(s: StateModel, amount: nat) -> StateModel {
    if levels_up(s, amount) {
        StateModel { level: s.level + 1, experience: 0, ..s }
    } else {
        StateModel { experience: s.experience + amount, ..s }
    }
}

/// Effect of `add_money`: unconditional addition.
pub open spec fn add_money_spec(s: StateModel, amount: nat) -> StateModel {
    StateModel { money: s.money + amount, ..s }
}

/// Effect of `set_detection`: the stored value is `min(amount, 100)`.
pub open spec fn set_detection_spec(s: StateModel, amount: nat) -> StateModel {
    StateModel { detection: if amount > 100 { 100 } else { amount }, ..s }
}

/// Effect of `toggle_stealth_mode`: the stealth flag flips.
pub open spec fn toggle_stealth_spec(s: StateModel) -> StateModel {
    StateModel { stealth_mode: !s.stealth_mode, ..s }
}

pub struct GameState {
    level: u32,
    experience: u32,
    money: u32,
    detection: u32,
    stealth_mode: bool,
}

impl View for GameState {
    type V = StateModel;

    closed spec fn view(&self) -> StateModel {
        StateModel {
            level: self.level as nat,
            experience: self.experience as nat,
            money: self.money as nat,
            detection: self.detection as nat,
            stealth_mode: self.stealth_mode,
        }
    }
}

impl GameState {
    pub fn new() -> (s: Self)
        ensures
            s@ == initial_state(),
            state_wf(s@),
    {
        Self { level: 1, experience: 0, money: 1000, detection: 0, stealth_mode: false }
    }

    /// Rebuilds a progression snapshot from its plain values, clamping the
    /// detection meter to 0..=100 so the invariant holds from the start.
    pub fn from_parts(level: u32, experience: u32, money: u32, detection: u32, stealth_mode: bool) -> (s: Self)
        ensures
            s@ == (StateModel {
                level: level as nat,
                experience: experience as nat,
                money: money as nat,
                detection: if detection > 100 {
                    100nat
                } else {
                    detection as nat
                },
                stealth_mode,
            }),
            state_wf(s@),
    {
        Self {
            level,
            experience,
            money,
            detection: if detection > 100 {
                100
            } else {
                detection
            },
            stealth_mode,
        }
    }

    pub fn level(&self) -> (r: u32)
        ensures
            r as nat == self@.level,
    {
        self.level
    }

    pub fn experience(&self) -> (r: u32)
        ensures
            r as nat == self@.experience,
    {
        self.experience
    }

    pub fn money(&self) -> (r: u32)
        ensures
            r as nat == self@.money,
    {
        self.money
    }

    pub fn detection(&self) -> (r: u32)
        ensures
            r as nat == self@.detection,
    {
        self.detection
    }

    pub fn stealth_mode(&self) -> (r: bool)
        ensures
            r == self@.stealth_mode,
    {
        self.stealth_mode
    }

    /// Adds experience; reaching 1000 within the call raises the level by one,
    /// resets experience to zero and reports `true`.
    pub fn add_experience(&mut self, amount: u32) -> (leveled_up: bool)
        requires
            old(self)@.experience + amount <= u32::MAX,
            levels_up(old(self)@, amount as nat) ==> old(self)@.level < u32::MAX,
        ensures
            final(self)@ == add_experience_spec(old(self)@, amount as nat),
            leveled_up == levels_up(old(self)@, amount as nat),
            state_wf(old(self)@) ==> state_wf(final(self)@),
    {
        self.experience = self.experience + amount;
        if self.experience >= 1000 {
            self.level = self.level + 1;
            self.experience = 0;
            return true;
        }
        false
    }

    pub fn add_money(&mut self, amount: u32)
        requires
            old(self)@.money + amount <= u32::MAX,
        ensures
            final(self)@ == add_money_spec(old(self)@, amount as nat),
            state_wf(old(self)@) ==> state_wf(final(self)@),
    {
        self.money = self.money + amount;
    }

    /// Stores `min(amount, 100)` as the new detection value.
    pub fn set_detection(&mut self, amount: u32)
        ensures
            final(self)@ == set_detection_spec(old(self)@, amount as nat),
            final(self)@.detection == if amount > 100 { 100nat } else { amount as nat },
            state_wf(final(self)@),
    {
        self.detection = if amount > 100 { 100 } else { amount };
    }

    pub fn toggle_stealth_mode(&mut self)
        ensures
            final(self)@ == toggle_stealth_spec(old(self)@),
            state_wf(old(self)@) ==> state_wf(final(self)@),
    {
        self.stealth_mode = !self.stealth_mode;
    }
}

/// Law: adding a positive amount of experience never lowers the level, and
/// either strictly increases the experience or resets it to zero together
/// with a level increment.
pub proof fn lemma_add_experience_monotonic(s: StateModel, amount: nat)
    requires
        amount >= 1,
    ensures
        add_experience_spec(s, amount).level >= s.level,
        add_experience_spec(s, amount).experience > s.experience || (
        add_experience_spec(s, amount).experience == 0 && add_experience_spec(s, amount).level == s.level
            + 1),
{
}

/// Law: a call whose cumulative total reaches 1000 triggers exactly one level
/// increment and resets the experience, carrying no partial credit past the
/// reset; a call that stays below 1000 leaves the level alone and keeps the
/// full total.
pub proof fn lemma_add_experience_level_up(s: StateModel, amount: nat)
    ensures
        levels_up(s, amount) ==> add_experience_spec(s, amount) == (StateModel {
            level: s.level + 1,
            experience: 0,
            ..s
        }),
        !levels_up(s, amount) ==> add_experience_spec(s, amount) == (StateModel {
            experience: s.experience + amount,
            ..s
        }),
{
}

/// Law: toggling stealth twice restores the original state.
pub proof fn lemma_toggle_stealth_involutive(s: StateModel)
    ensures
        toggle_stealth_spec(toggle_stealth_spec(s)) == s,
{
}

} // verus!
