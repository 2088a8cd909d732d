//! The user's settings and the menu that changes them.

use vstd::prelude::*;

verus! {

/// A setting with several modes, which a click steps through in turn.
#[derive(Clone, Copy, Debug, PartialEq, Eq, Structural)]
pub struct ModeSetting {
    /// The mode that is on, counted from 0.
    pub mode: u8,
    /// How many modes there are.
    pub modes: u8,
}

impl ModeSetting {
    /// The next mode; after the last one comes the first.
    pub open spec fn cycled(self) -> ModeSetting {
        ModeSetting {
            mode: if self.mode + 1 < self.modes {
                (self.mode + 1) as u8
            } else {
                0
            },
            modes: self.modes,
        }
    }

    /// Step to the next mode; after the last one comes the first.
    pub fn cycle(self) -> (next: ModeSetting)
        ensures
            next == self.cycled(),
    {
        let mode: u8 = if self.mode < 255 && self.mode + 1 < self.modes {
            self.mode + 1
        } else {
            0
        };
        ModeSetting { mode, modes: self.modes }
    }

    /// `times` steps on.
    pub open spec fn cycled_times(self, times: nat) -> ModeSetting
        decreases times,
    {
        if times == 0 {
            self
        } else {
            self.cycled_times((times - 1) as nat).cycled()
        }
    }
}

/// The settings.
#[derive(Clone, Copy, Debug, PartialEq, Eq, Structural)]
pub struct Settings {
    /// When to send desktop notifications.
    pub notifications: ModeSetting,
    /// How a session that needs attention flashes.
    pub flash: ModeSetting,
    /// Show for how long a session has been at it.
    pub elapsed_time: bool,
    /// Show the input mode.
    pub mode_indicator: bool,
    /// Name tabs after their panes' titles.
    pub tab_titles: bool,
}

/// One of the settings, for the menu.
#[derive(Clone, Copy, Debug, PartialEq, Eq, Structural)]
pub enum SettingKey {
    Notifications,
    Flash,
    ElapsedTime,
    ModeIndicator,
    TabTitles,
}

/// What a click in the menu does.
#[derive(Clone, Copy, Debug, PartialEq, Eq, Structural)]
pub enum MenuAction {
    ToggleSetting(SettingKey),
    CloseMenu,
}

impl Settings {
    /// The settings after a click on `key` in the menu.
    pub open spec fn toggled(self, key: SettingKey) -> Settings {
        match key {
            SettingKey::Notifications => Settings {
                notifications: self.notifications.cycled(),
                ..self
            },
            SettingKey::Flash => Settings { flash: self.flash.cycled(), ..self },
            SettingKey::ElapsedTime => Settings { elapsed_time: !self.elapsed_time, ..self },
            SettingKey::ModeIndicator => Settings { mode_indicator: !self.mode_indicator, ..self },
            SettingKey::TabTitles => Settings { tab_titles: !self.tab_titles, ..self },
        }
    }

    /// Change the setting that was clicked: switch it over, or step to its next mode.
    pub fn toggle(&mut self, key: SettingKey)
        ensures
            *final(self) == old(self).toggled(key),
    {
        match key {
            SettingKey::Notifications => {
                self.notifications = self.notifications.cycle();
            },
            SettingKey::Flash => {
                self.flash = self.flash.cycle();
            },
            SettingKey::ElapsedTime => {
                self.elapsed_time = !self.elapsed_time;
            },
            SettingKey::ModeIndicator => {
                self.mode_indicator = !self.mode_indicator;
            },
            SettingKey::TabTitles => {
                self.tab_titles = !self.tab_titles;
            },
        }
    }
}

proof fn lemma_cycled_times(s: ModeSetting, times: nat)
    requires
        s.mode < s.modes,
    ensures
        s.cycled_times(times).modes == s.modes,
        s.cycled_times(times).mode == (s.mode + times) % (s.modes as int),
    decreases times,
{
    let m = s.modes as int;
    if times == 0 {
        assert(s.mode as int % m == s.mode as int) by (nonlinear_arith)
            requires
                0 <= s.mode < m,
        ;
    } else {
        lemma_cycled_times(s, (times - 1) as nat);
        let before = s.cycled_times((times - 1) as nat);
        let x = s.mode + times - 1;
        assert(before.mode == x % m);
        vstd::arithmetic::div_mod::lemma_mod_bound(x, m);
        if x % m + 1 < m {
            vstd::arithmetic::div_mod::lemma_fundamental_div_mod(x, m);
            assert(x + 1 == (x / m) * m + (x % m + 1)) by (nonlinear_arith)
                requires
                    x == m * (x / m) + x % m,
            ;
            vstd::arithmetic::div_mod::lemma_fundamental_div_mod_converse(
                x + 1,
                m,
                x / m,
                x % m + 1,
            );
        } else {
            vstd::arithmetic::div_mod::lemma_fundamental_div_mod(x, m);
            assert(x + 1 == (x / m + 1) * m + 0) by (nonlinear_arith)
                requires
                    x == m * (x / m) + x % m,
                    x % m == m - 1,
            ;
            vstd::arithmetic::div_mod::lemma_fundamental_div_mod_converse(x + 1, m, x / m + 1, 0);
        }
    }
}

/// Stepping through a setting's modes as often as there are modes comes back to
/// where it started, and every mode is reached on the way.
pub proof fn law_cycling_visits_every_mode_and_returns(s: ModeSetting, mode: u8)
    requires
        s.mode < s.modes,
        mode < s.modes,
    ensures
        s.cycled_times(s.modes as nat) == s,
        exists|times: nat| times < s.modes && (#[trigger] s.cycled_times(times)).mode == mode,
{
    let m = s.modes as int;
    lemma_cycled_times(s, s.modes as nat);
    vstd::arithmetic::div_mod::lemma_fundamental_div_mod_converse(s.mode + m, m, 1, s.mode as int);
    let times: nat = if mode >= s.mode {
        (mode - s.mode) as nat
    } else {
        (mode + m - s.mode) as nat
    };
    lemma_cycled_times(s, times);
    if mode >= s.mode {
        vstd::arithmetic::div_mod::lemma_fundamental_div_mod_converse(mode as int, m, 0, mode as int);
    } else {
        vstd::arithmetic::div_mod::lemma_fundamental_div_mod_converse(mode + m, m, 1, mode as int);
    }
    assert(s.cycled_times(times).mode == mode);
}

/// Switching an on/off setting twice leaves the settings as they were.
pub proof fn law_switching_twice_changes_nothing(s: Settings, key: SettingKey)
    requires
        key is ElapsedTime || key is ModeIndicator || key is TabTitles,
    ensures
        s.toggled(key).toggled(key) == s,
{
}

/// A click on a setting changes that one and no other: an on/off setting is switched, and
/// one with several modes goes to the next, or from the last to the first.
pub proof fn law_a_click_changes_one_setting(s: Settings, key: SettingKey)
    ensures
        ({
            let t = s.toggled(key);
            &&& t.elapsed_time == (if key == SettingKey::ElapsedTime {
                !s.elapsed_time
            } else {
                s.elapsed_time
            })
            &&& t.mode_indicator == (if key == SettingKey::ModeIndicator {
                !s.mode_indicator
            } else {
                s.mode_indicator
            })
            &&& t.tab_titles == (if key == SettingKey::TabTitles {
                !s.tab_titles
            } else {
                s.tab_titles
            })
            &&& t.notifications.modes == s.notifications.modes
            &&& t.notifications.mode == (if key != SettingKey::Notifications {
                s.notifications.mode as int
            } else if s.notifications.mode + 1 < s.notifications.modes {
                s.notifications.mode + 1
            } else {
                0
            })
            &&& t.flash.modes == s.flash.modes
            &&& t.flash.mode == (if key != SettingKey::Flash {
                s.flash.mode as int
            } else if s.flash.mode + 1 < s.flash.modes {
                s.flash.mode + 1
            } else {
                0
            })
        }),
{
}

} // verus!
