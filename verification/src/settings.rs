//! The application's persisted settings: audio device parameters, interface
//! theme and scale, keyboard shortcuts, and defaults for new projects.
//! Validation rejects out-of-range values with a descriptive error;
//! sanitization corrects them field by field and reports what it changed.
//! Volumes and interface scale are in thousandths, tempo in thousandths of a
//! beat per minute.

use vstd::prelude::*;
use vstd::string::StringExecFns;
use crate::text::{chars_of, is_blank, is_blank_str, is_space};

verus! {

/// Settings of the output stream.
#[derive(Debug, Clone)]
pub struct AudioSettings {
    pub sample_rate: u32,
    pub buffer_size: u32,
    pub master_volume: u32,
    pub preferred_device: Option<String>,
    pub device_monitoring_enabled: bool,
    pub auto_fallback_enabled: bool,
    pub last_known_good_device: Option<String>,
}

/// Rejection of out-of-range audio settings.
#[derive(Debug, Clone, Copy, PartialEq, Eq, Structural)]
pub enum AudioSettingsError {
    SampleRateOutOfRange,
    BufferSizeNotSupported,
    MasterVolumeOutOfRange,
}

/// A buffer size the stream accepts: a power of two from 64 to 4096.
pub open spec fn valid_buffer_size(b: int) -> bool {
    b == 64 || b == 128 || b == 256 || b == 512 || b == 1024 || b == 2048 || b == 4096
}

impl AudioSettings {
    /// All fields in range: rate 22050..=192000, a supported buffer size,
    /// volume at most double.
    pub open spec fn valid(self) -> bool {
        &&& 22_050 <= self.sample_rate <= 192_000
        &&& valid_buffer_size(self.buffer_size as int)
        &&& self.master_volume <= 2000
    }

    /// Accepts exactly the settings `valid` allows, naming the first field
    /// out of range (rate, then buffer size, then volume).
    pub fn validate(&self) -> (r: Result<(), AudioSettingsError>)
        ensures
            r is Ok <==> self.valid(),
            r == Err::<(), AudioSettingsError>(AudioSettingsError::SampleRateOutOfRange) <==> !(
            22_050 <= self.sample_rate <= 192_000),
            r == Err::<(), AudioSettingsError>(AudioSettingsError::BufferSizeNotSupported) <==> (
            22_050 <= self.sample_rate <= 192_000 && !valid_buffer_size(self.buffer_size as int)),
            r == Err::<(), AudioSettingsError>(AudioSettingsError::MasterVolumeOutOfRange) <==> (
            22_050 <= self.sample_rate <= 192_000 && valid_buffer_size(self.buffer_size as int)
                && self.master_volume > 2000),
    {
        if self.sample_rate < 22_050 || self.sample_rate > 192_000 {
            return Err(AudioSettingsError::SampleRateOutOfRange);
        }
        if !(self.buffer_size == 64 || self.buffer_size == 128 || self.buffer_size == 256
            || self.buffer_size == 512 || self.buffer_size == 1024 || self.buffer_size == 2048
            || self.buffer_size == 4096) {
            return Err(AudioSettingsError::BufferSizeNotSupported);
        }
        if self.master_volume > 2000 {
            return Err(AudioSettingsError::MasterVolumeOutOfRange);
        }
        Ok(())
    }
}

impl Default for AudioSettings {
    /// 44.1 kHz, 1024-sample buffers, unity volume, the default device, and
    /// monitoring with automatic fallback on.
    fn default() -> (r: AudioSettings)
        ensures
            r.sample_rate == 44_100,
            r.buffer_size == 1024,
            r.master_volume == 1000,
            r.preferred_device is None,
            r.device_monitoring_enabled,
            r.auto_fallback_enabled,
            r.last_known_good_device is None,
    {
        AudioSettings {
            sample_rate: 44_100,
            buffer_size: 1024,
            master_volume: 1000,
            preferred_device: None,
            device_monitoring_enabled: true,
            auto_fallback_enabled: true,
            last_known_good_device: None,
        }
    }
}

/// Settings of the interface.
#[derive(Debug, Clone)]
pub struct UISettings {
    pub theme: String,
    pub ui_scale: u32,
}

/// Rejection of out-of-range interface settings.
#[derive(Debug, Clone, Copy, PartialEq, Eq, Structural)]
pub enum UISettingsError {
    UnknownTheme,
    ScaleOutOfRange,
}

/// A theme name the interface knows.
pub open spec fn valid_theme(s: Seq<char>) -> bool {
    s == "dark"@ || s == "light"@ || s == "auto"@
}

impl UISettings {
    /// A known theme and a scale between half and triple size.
    pub open spec fn valid(self) -> bool {
        &&& valid_theme(self.theme@)
        &&& 500 <= self.ui_scale <= 3000
    }

    /// Accepts exactly the settings `valid` allows, theme first.
    pub fn validate(&self) -> (r: Result<(), UISettingsError>)
        ensures
            r is Ok <==> self.valid(),
            r == Err::<(), UISettingsError>(UISettingsError::UnknownTheme) <==> !valid_theme(
                self.theme@,
            ),
            r == Err::<(), UISettingsError>(UISettingsError::ScaleOutOfRange) <==> (valid_theme(
                self.theme@,
            ) && !(500 <= self.ui_scale <= 3000)),
    {
        if !self.theme_is_known() {
            return Err(UISettingsError::UnknownTheme);
        }
        if self.ui_scale < 500 || self.ui_scale > 3000 {
            return Err(UISettingsError::ScaleOutOfRange);
        }
        Ok(())
    }

    fn theme_is_known(&self) -> (r: bool)
        ensures
            r == valid_theme(self.theme@),
    {
        let dark = String::from_str("dark");
        let light = String::from_str("light");
        let auto_theme = String::from_str("auto");
        self.theme == dark || self.theme == light || self.theme == auto_theme
    }

    /// Corrects invalid fields in place: an unknown theme becomes dark, the
    /// scale is clamped to 500..=3000. One message per correction.
    pub fn sanitize(&mut self) -> (corrections: Vec<String>)
        ensures
            final(self).valid(),
            final(self).theme@ == if valid_theme(old(self).theme@) {
                old(self).theme@
            } else {
                "dark"@
            },
            final(self).ui_scale == if old(self).ui_scale < 500 {
                500int
            } else if old(self).ui_scale > 3000 {
                3000int
            } else {
                old(self).ui_scale as int
            },
            corrections@.len() == (if valid_theme(old(self).theme@) {
                0int
            } else {
                1
            }) + (if 500 <= old(self).ui_scale <= 3000 {
                0int
            } else {
                1
            }),
    {
        let mut corrections: Vec<String> = Vec::new();
        if !self.theme_is_known() {
            let mut msg = String::from_str("Theme '");
            msg.append(self.theme.as_str());
            msg.append("' is invalid, changed to 'dark'");
            corrections.push(msg);
            self.theme = String::from_str("dark");
        }
        if self.ui_scale < 500 {
            let mut msg = String::from_str("UI scale ");
            crate::text::append_milli(&mut msg, self.ui_scale as u64);
            msg.append(" is too small, changed to 0.5");
            corrections.push(msg);
            self.ui_scale = 500;
        } else if self.ui_scale > 3000 {
            let mut msg = String::from_str("UI scale ");
            crate::text::append_milli(&mut msg, self.ui_scale as u64);
            msg.append(" is too large, changed to 3.0");
            corrections.push(msg);
            self.ui_scale = 3000;
        }
        corrections
    }

    /// The system's theme, dark or light; an undecided probe reads as dark.
    pub fn detect_system_theme() -> (r: String)
        ensures
            r@ == "dark"@ || r@ == "light"@,
    {
        if probe_system_theme_is_light() {
            String::from_str("light")
        } else {
            String::from_str("dark")
        }
    }

    /// The theme to draw with: dark or light as set, or the system's choice
    /// under auto; anything unknown falls back to dark.
    pub fn resolve_theme(&self) -> (r: String)
        ensures
            self.theme@ == "auto"@ ==> (r@ == "dark"@ || r@ == "light"@),
            (self.theme@ == "dark"@ || self.theme@ == "light"@) ==> r@ == self.theme@,
            !valid_theme(self.theme@) ==> r@ == "dark"@,
    {
        proof {
            reveal_strlit("dark");
            reveal_strlit("light");
            reveal_strlit("auto");
        }
        let auto_theme = String::from_str("auto");
        if self.theme == auto_theme {
            let r = Self::detect_system_theme();
            proof {
                assert(self.theme@ == "auto"@);
                assert("auto"@[0] == 'a' && "dark"@[0] == 'd' && "light"@[0] == 'l');
                assert(self.theme@ != "dark"@ && self.theme@ != "light"@);
            }
            r
        } else if self.theme_is_known() {
            let r = self.theme.clone();
            proof {
                assert(r@ == self.theme@);
            }
            r
        } else {
            let r = String::from_str("dark");
            proof {
                assert(!valid_theme(self.theme@));
            }
            r
        }
    }
}

/// Relies on dark_light::detect: asks the system for its theme mode. The
/// answer depends on the machine; only a clear light mode reads as light,
/// and a dark, unspecified or failed probe reads as dark.
#[verifier::external_body]
fn probe_system_theme_is_light() -> bool {
    match dark_light::detect() {
        Ok(dark_light::Mode::Light) => true,
        Ok(dark_light::Mode::Dark) => false,
        Ok(dark_light::Mode::Unspecified) => false,
        Err(_) => false,
    }
}

impl Default for UISettings {
    /// Dark theme at unity scale.
    fn default() -> (r: UISettings)
        ensures
            r.theme@ == "dark"@,
            r.ui_scale == 1000,
    {
        UISettings { theme: String::from_str("dark"), ui_scale: 1000 }
    }
}

/// The number of `'+'` characters in a shortcut: one less than its parts.
pub open spec fn plus_count(s: Seq<char>) -> int
    decreases s.len(),
{
    if s.len() == 0 {
        0
    } else {
        plus_count(s.drop_last()) + if s.last() == '+' {
            1int
        } else {
            0
        }
    }
}

/// The range `[i, j)` is one `'+'`-delimited part of the shortcut.
pub open spec fn is_part(s: Seq<char>, i: int, j: int) -> bool {
    &&& 0 <= i <= j <= s.len()
    &&& (i == 0 || s[i - 1] == '+')
    &&& (j == s.len() || s[j] == '+')
    &&& forall|k: int| i <= k < j ==> s[k] != '+'
}

/// Every part of the shortcut holds something besides whitespace.
pub open spec fn parts_nonblank(s: Seq<char>) -> bool {
    forall|i: int, j: int| #[trigger] is_part(s, i, j) ==> !is_blank(s.subrange(i, j))
}

/// A well-formed shortcut: not blank, and when it combines keys with `'+'`,
/// at most three parts, none of them blank.
pub open spec fn valid_shortcut(s: Seq<char>) -> bool {
    &&& !is_blank(s)
    &&& (plus_count(s) > 0 ==> plus_count(s) <= 2 && parts_nonblank(s))
}

/// Whether a shortcut string is well formed; see `valid_shortcut`.
#[verifier::loop_isolation(false)]
pub fn check_shortcut(s: &str) -> (r: bool)
    ensures
        r == valid_shortcut(s@),
{
    if is_blank_str(s) {
        return false;
    }
    let cs = chars_of(s);
    let mut pluses: usize = 0;
    let mut part_start: usize = 0;
    let mut part_blank = true;
    let mut bad = false;
    let ghost view = s@;
    let mut i: usize = 0;
    proof {
        assert(view.take(0) =~= Seq::<char>::empty());
    }
    while i < cs.len()
        invariant
            i <= view.len(),
            cs@ == view,
            pluses == plus_count(view.take(i as int)),
            pluses <= i,
            part_start <= i,
            part_start == 0 || view[part_start - 1] == '+',
            forall|k: int| part_start <= k < i ==> view[k] != '+',
            part_blank == is_blank(view.subrange(part_start as int, i as int)),
            pluses == 0 ==> part_start == 0,
            bad ==> exists|a: int, b: int|
                #[trigger] is_part(view, a, b) && is_blank(view.subrange(a, b)),
            !bad ==> forall|a: int, b: int|
                #[trigger] is_part(view, a, b) && b < i ==> !is_blank(view.subrange(a, b)),
        decreases view.len() - i,
    {
        let c = cs[i];
        proof {
            assert(view.take(i as int + 1).drop_last() =~= view.take(i as int));
            assert(view.take(i as int + 1).last() == view[i as int]);
        }
        if c == '+' {
            if part_blank {
                proof {
                    assert(is_part(view, part_start as int, i as int));
                }
                bad = true;
            }
            proof {
                if !bad {
                    assert forall|a: int, b: int|
                        #[trigger] is_part(view, a, b) && b < i + 1 implies !is_blank(
                        view.subrange(a, b),
                    ) by {
                        if b == i as int {
                            assert(a == part_start as int) by {
                                if a < part_start as int {
                                    assert(view[part_start - 1] == '+');
                                } else if a > part_start as int {
                                    assert(view[a - 1] != '+');
                                }
                            }
                        }
                    }
                }
            }
            pluses = pluses + 1;
            part_start = i + 1;
            part_blank = true;
            proof {
                assert(view.subrange(part_start as int, i as int + 1) =~= Seq::<char>::empty());
            }
        } else {
            let sp = c == ' ' || c == '\t' || c == '\n' || c == '\r';
            if !sp {
                part_blank = false;
            }
            proof {
                assert(view.subrange(part_start as int, i as int + 1).drop_last() =~= view.subrange(
                    part_start as int,
                    i as int,
                ));
                assert(view.subrange(part_start as int, i as int + 1).last() == view[i as int]);
                if part_blank {
                    assert forall|k: int|
                        0 <= k < view.subrange(part_start as int, i as int + 1).len()
                            implies is_space(
                        #[trigger] view.subrange(part_start as int, i as int + 1)[k],
                    ) by {
                        if k < i - part_start {
                            assert(view.subrange(part_start as int, i as int)[k] == view.subrange(
                                part_start as int,
                                i as int + 1,
                            )[k]);
                        }
                    }
                } else {
                    if is_blank(view.subrange(part_start as int, i as int)) && !sp {
                        assert(!is_blank(view.subrange(part_start as int, i as int + 1))) by {
                            assert(view.subrange(part_start as int, i as int + 1)[i - part_start]
                                == view[i as int]);
                        }
                    } else if !is_blank(view.subrange(part_start as int, i as int)) {
                        let w = choose|k: int|
                            0 <= k < view.subrange(part_start as int, i as int).len() && !is_space(
                                view.subrange(part_start as int, i as int)[k],
                            );
                        assert(view.subrange(part_start as int, i as int + 1)[w] == view.subrange(
                            part_start as int,
                            i as int,
                        )[w]);
                    }
                }
            }
        }
        i = i + 1;
    }
    proof {
        assert(view.take(view.len() as int) =~= view);
    }
    if part_blank {
        proof {
            assert(is_part(view, part_start as int, view.len() as int));
        }
        bad = true;
    }
    if pluses == 0 {
        proof {
            assert(!is_blank(view));
            assert(is_part(view, part_start as int, view.len() as int));
            assert(view.subrange(part_start as int, view.len() as int) =~= view);
        }
        return true;
    }
    proof {
        if !bad {
            assert forall|a: int, b: int| #[trigger] is_part(view, a, b) implies !is_blank(
                view.subrange(a, b),
            ) by {
                if b == view.len() as int {
                    assert(a == part_start as int) by {
                        if a < part_start as int {
                            assert(view[part_start - 1] == '+');
                        } else if a > part_start as int {
                            assert(view[a - 1] != '+');
                        }
                    }
                    assert(!is_blank(view.subrange(part_start as int, view.len() as int)));
                }
            }
        }
    }
    pluses <= 2 && !bad
}


/// The application's keyboard shortcuts, each a key name with optional
/// `'+'`-joined modifiers.
#[derive(Debug, Clone)]
pub struct KeyboardSettings {
    pub play_pause: String,
    pub return_to_start: String,
    pub stop_escape: String,
    pub timeline_step_back: String,
    pub timeline_step_forward: String,
    pub timeline_jump_back: String,
    pub timeline_jump_forward: String,
    pub timeline_start: String,
    pub timeline_end: String,
    pub pattern_clear: String,
    pub pattern_select_all: String,
    pub new_project: String,
    pub open_project: String,
    pub save_project: String,
    pub save_project_as: String,
    pub open_settings: String,
}

/// Rejection of a malformed or clashing set of shortcuts.
#[derive(Debug, Clone, Copy, PartialEq, Eq, Structural)]
pub enum KeyboardSettingsError {
    MalformedShortcut,
    DuplicateShortcut,
}

/// The sixteen shortcut strings, in their fixed order.
pub open spec fn shortcut_views(k: KeyboardSettings) -> Seq<Seq<char>> {
    seq![
        k.play_pause@,
        k.return_to_start@,
        k.stop_escape@,
        k.timeline_step_back@,
        k.timeline_step_forward@,
        k.timeline_jump_back@,
        k.timeline_jump_forward@,
        k.timeline_start@,
        k.timeline_end@,
        k.pattern_clear@,
        k.pattern_select_all@,
        k.new_project@,
        k.open_project@,
        k.save_project@,
        k.save_project_as@,
        k.open_settings@,
    ]
}

impl KeyboardSettings {
    /// Every shortcut well formed and no two alike.
    pub open spec fn valid(self) -> bool {
        &&& forall|i: int|
            0 <= i < 16 ==> valid_shortcut(#[trigger] shortcut_views(self)[i])
        &&& forall|a: int, b: int|
            0 <= a < b < 16 ==> shortcut_views(self)[a] != shortcut_views(self)[b]
    }

    /// The sixteen shortcuts as a list, in their fixed order.
    fn shortcut_list(&self) -> (r: Vec<String>)
        ensures
            r@.len() == 16,
            forall|i: int| 0 <= i < 16 ==> (#[trigger] r@[i])@ == shortcut_views(*self)[i],
    {
        let mut r: Vec<String> = Vec::new();
        r.push(self.play_pause.clone());
        r.push(self.return_to_start.clone());
        r.push(self.stop_escape.clone());
        r.push(self.timeline_step_back.clone());
        r.push(self.timeline_step_forward.clone());
        r.push(self.timeline_jump_back.clone());
        r.push(self.timeline_jump_forward.clone());
        r.push(self.timeline_start.clone());
        r.push(self.timeline_end.clone());
        r.push(self.pattern_clear.clone());
        r.push(self.pattern_select_all.clone());
        r.push(self.new_project.clone());
        r.push(self.open_project.clone());
        r.push(self.save_project.clone());
        r.push(self.save_project_as.clone());
        r.push(self.open_settings.clone());
        proof {
            assert forall|i: int| 0 <= i < 16 implies (#[trigger] r@[i])@ == shortcut_views(
                *self,
            )[i] by {
            }
        }
        r
    }

    /// Accepts exactly the sets `valid` allows: malformed shortcuts are
    /// reported before clashes.
    #[verifier::loop_isolation(false)]
    pub fn validate(&self) -> (r: Result<(), KeyboardSettingsError>)
        ensures
            r is Ok <==> self.valid(),
            r == Err::<(), KeyboardSettingsError>(KeyboardSettingsError::MalformedShortcut)
                <==> !(forall|i: int|
                0 <= i < 16 ==> valid_shortcut(#[trigger] shortcut_views(*self)[i])),
            r == Err::<(), KeyboardSettingsError>(KeyboardSettingsError::DuplicateShortcut)
                <==> ((forall|i: int|
                0 <= i < 16 ==> valid_shortcut(#[trigger] shortcut_views(*self)[i])) && !(
            forall|a: int, b: int|
                0 <= a < b < 16 ==> shortcut_views(*self)[a] != shortcut_views(*self)[b])),
    {
        let list = self.shortcut_list();
        let mut i: usize = 0;
        while i < 16
            invariant
                i <= 16,
                list@.len() == 16,
                forall|j: int| 0 <= j < 16 ==> (#[trigger] list@[j])@ == shortcut_views(*self)[j],
                forall|j: int| 0 <= j < i ==> valid_shortcut(#[trigger] shortcut_views(*self)[j]),
            decreases 16 - i,
        {
            if !check_shortcut(list[i].as_str()) {
                return Err(KeyboardSettingsError::MalformedShortcut);
            }
            i = i + 1;
        }
        let mut a: usize = 0;
        while a < 16
            invariant
                a <= 16,
                list@.len() == 16,
                forall|j: int| 0 <= j < 16 ==> (#[trigger] list@[j])@ == shortcut_views(*self)[j],
                forall|j: int| 0 <= j < 16 ==> valid_shortcut(#[trigger] shortcut_views(*self)[j]),
                forall|x: int, y: int|
                    0 <= x < y < 16 && x < a ==> shortcut_views(*self)[x] != shortcut_views(
                        *self,
                    )[y],
            decreases 16 - a,
        {
            let mut b: usize = a + 1;
            while b < 16
                invariant
                    a < 16,
                    a + 1 <= b <= 16,
                    list@.len() == 16,
                    forall|j: int|
                        0 <= j < 16 ==> (#[trigger] list@[j])@ == shortcut_views(*self)[j],
                    forall|x: int, y: int|
                        0 <= x < y < 16 && x < a ==> shortcut_views(*self)[x] != shortcut_views(
                            *self,
                        )[y],
                    forall|y: int|
                        a < y < b ==> shortcut_views(*self)[a as int] != shortcut_views(*self)[y],
                decreases 16 - b,
            {
                if list[a] == list[b] {
                    return Err(KeyboardSettingsError::DuplicateShortcut);
                }
                b = b + 1;
            }
            a = a + 1;
        }
        Ok(())
    }

    /// Replaces every blank shortcut with its default, reporting one
    /// message per replacement.
    #[verifier::rlimit(100)]
    pub fn sanitize(&mut self) -> (corrections: Vec<String>)
        ensures
            forall|i: int|
                0 <= i < 16 ==> #[trigger] shortcut_views(*final(self))[i] == if is_blank(
                    shortcut_views(*old(self))[i],
                ) {
                    default_shortcut_views()[i]
                } else {
                    shortcut_views(*old(self))[i]
                },
            corrections@.len() <= 16,
            (forall|i: int| 0 <= i < 16 ==> !is_blank(#[trigger] shortcut_views(*old(self))[i]))
                ==> corrections@.len() == 0,
    {
        let defaults = KeyboardSettings::default();
        let mut corrections: Vec<String> = Vec::new();
        sanitize_one(&mut self.play_pause, &defaults.play_pause, "Play/Pause", &mut corrections);
        sanitize_one(
            &mut self.return_to_start,
            &defaults.return_to_start,
            "Return to Start",
            &mut corrections,
        );
        sanitize_one(&mut self.stop_escape, &defaults.stop_escape, "Stop/Escape", &mut corrections);
        sanitize_one(
            &mut self.timeline_step_back,
            &defaults.timeline_step_back,
            "Timeline Step Back",
            &mut corrections,
        );
        sanitize_one(
            &mut self.timeline_step_forward,
            &defaults.timeline_step_forward,
            "Timeline Step Forward",
            &mut corrections,
        );
        sanitize_one(
            &mut self.timeline_jump_back,
            &defaults.timeline_jump_back,
            "Timeline Jump Back",
            &mut corrections,
        );
        sanitize_one(
            &mut self.timeline_jump_forward,
            &defaults.timeline_jump_forward,
            "Timeline Jump Forward",
            &mut corrections,
        );
        sanitize_one(
            &mut self.timeline_start,
            &defaults.timeline_start,
            "Timeline Start",
            &mut corrections,
        );
        sanitize_one(
            &mut self.timeline_end,
            &defaults.timeline_end,
            "Timeline End",
            &mut corrections,
        );
        sanitize_one(
            &mut self.pattern_clear,
            &defaults.pattern_clear,
            "Pattern Clear",
            &mut corrections,
        );
        sanitize_one(
            &mut self.pattern_select_all,
            &defaults.pattern_select_all,
            "Pattern Select All",
            &mut corrections,
        );
        sanitize_one(&mut self.new_project, &defaults.new_project, "New Project", &mut corrections);
        sanitize_one(
            &mut self.open_project,
            &defaults.open_project,
            "Open Project",
            &mut corrections,
        );
        sanitize_one(
            &mut self.save_project,
            &defaults.save_project,
            "Save Project",
            &mut corrections,
        );
        sanitize_one(
            &mut self.save_project_as,
            &defaults.save_project_as,
            "Save Project As",
            &mut corrections,
        );
        sanitize_one(
            &mut self.open_settings,
            &defaults.open_settings,
            "Open Settings",
            &mut corrections,
        );
        proof {
            assert(shortcut_views(*old(self))[0] == old(self).play_pause@);
            assert(shortcut_views(*old(self))[1] == old(self).return_to_start@);
            assert(shortcut_views(*old(self))[2] == old(self).stop_escape@);
            assert(shortcut_views(*old(self))[3] == old(self).timeline_step_back@);
            assert(shortcut_views(*old(self))[4] == old(self).timeline_step_forward@);
            assert(shortcut_views(*old(self))[5] == old(self).timeline_jump_back@);
            assert(shortcut_views(*old(self))[6] == old(self).timeline_jump_forward@);
            assert(shortcut_views(*old(self))[7] == old(self).timeline_start@);
            assert(shortcut_views(*old(self))[8] == old(self).timeline_end@);
            assert(shortcut_views(*old(self))[9] == old(self).pattern_clear@);
            assert(shortcut_views(*old(self))[10] == old(self).pattern_select_all@);
            assert(shortcut_views(*old(self))[11] == old(self).new_project@);
            assert(shortcut_views(*old(self))[12] == old(self).open_project@);
            assert(shortcut_views(*old(self))[13] == old(self).save_project@);
            assert(shortcut_views(*old(self))[14] == old(self).save_project_as@);
            assert(shortcut_views(*old(self))[15] == old(self).open_settings@);
        }
        corrections
    }
}

/// The default shortcut strings, in the fixed field order.
pub open spec fn default_shortcut_views() -> Seq<Seq<char>> {
    seq![
        "Space"@,
        "Enter"@,
        "Escape"@,
        "Left"@,
        "Right"@,
        "Shift+Left"@,
        "Shift+Right"@,
        "Home"@,
        "End"@,
        "Delete"@,
        "Ctrl+A"@,
        "Ctrl+N"@,
        "Ctrl+O"@,
        "Ctrl+S"@,
        "Ctrl+Shift+S"@,
        "Ctrl+,"@,
    ]
}

impl Default for KeyboardSettings {
    /// Space to play, arrows to step, control-key chords for the
    /// application commands.
    fn default() -> (r: KeyboardSettings)
        ensures
            shortcut_views(r) == default_shortcut_views(),
            r.play_pause@ == "Space"@,
            r.return_to_start@ == "Enter"@,
            r.stop_escape@ == "Escape"@,
            r.timeline_step_back@ == "Left"@,
            r.timeline_step_forward@ == "Right"@,
            r.timeline_jump_back@ == "Shift+Left"@,
            r.timeline_jump_forward@ == "Shift+Right"@,
            r.timeline_start@ == "Home"@,
            r.timeline_end@ == "End"@,
            r.pattern_clear@ == "Delete"@,
            r.pattern_select_all@ == "Ctrl+A"@,
            r.new_project@ == "Ctrl+N"@,
            r.open_project@ == "Ctrl+O"@,
            r.save_project@ == "Ctrl+S"@,
            r.save_project_as@ == "Ctrl+Shift+S"@,
            r.open_settings@ == "Ctrl+,"@,
    {
        let r = KeyboardSettings {
            play_pause: String::from_str("Space"),
            return_to_start: String::from_str("Enter"),
            stop_escape: String::from_str("Escape"),
            timeline_step_back: String::from_str("Left"),
            timeline_step_forward: String::from_str("Right"),
            timeline_jump_back: String::from_str("Shift+Left"),
            timeline_jump_forward: String::from_str("Shift+Right"),
            timeline_start: String::from_str("Home"),
            timeline_end: String::from_str("End"),
            pattern_clear: String::from_str("Delete"),
            pattern_select_all: String::from_str("Ctrl+A"),
            new_project: String::from_str("Ctrl+N"),
            open_project: String::from_str("Ctrl+O"),
            save_project: String::from_str("Ctrl+S"),
            save_project_as: String::from_str("Ctrl+Shift+S"),
            open_settings: String::from_str("Ctrl+,"),
        };
        proof {
            assert(shortcut_views(r) =~= default_shortcut_views());
        }
        r
    }
}

/// Replaces one blank shortcut with its default and notes the change.
fn sanitize_one(
    field: &mut String,
    default_value: &String,
    label: &str,
    corrections: &mut Vec<String>,
)
    ensures
        final(field)@ == if is_blank(old(field)@) {
            default_value@
        } else {
            old(field)@
        },
        final(corrections)@.len() == old(corrections)@.len() + if is_blank(old(field)@) {
            1int
        } else {
            0
        },
        forall|i: int|
            0 <= i < old(corrections)@.len() ==> final(corrections)@[i] == old(corrections)@[i],
{
    if is_blank_str(field.as_str()) {
        let mut msg = String::from_str("Keyboard shortcut '");
        msg.append(label);
        msg.append("' was empty, changed to '");
        msg.append(default_value.as_str());
        msg.append("'");
        corrections.push(msg);
        *field = default_value.clone();
    }
}


/// Defaults a new project starts from.
#[derive(Debug, Clone, Copy)]
pub struct DefaultSettings {
    pub default_bpm: u32,
    pub default_time_signature: (u32, u32),
    pub default_pattern_length: usize,
}

/// Rejection of out-of-range project defaults.
#[derive(Debug, Clone, Copy, PartialEq, Eq, Structural)]
pub enum DefaultSettingsError {
    BpmOutOfRange,
    TimeSignatureNumeratorOutOfRange,
    TimeSignatureDenominatorNotSupported,
    PatternLengthOutOfRange,
}

/// A denominator new projects may default to.
pub open spec fn valid_default_denominator(d: int) -> bool {
    d == 1 || d == 2 || d == 4 || d == 8 || d == 16
}

impl DefaultSettings {
    /// Tempo 60..=300 beats per minute, numerator 1..=16, a power-of-two
    /// denominator up to 16, and 4..=64 steps.
    pub open spec fn valid(self) -> bool {
        &&& 60_000 <= self.default_bpm <= 300_000
        &&& 1 <= self.default_time_signature.0 <= 16
        &&& valid_default_denominator(self.default_time_signature.1 as int)
        &&& 4 <= self.default_pattern_length <= 64
    }

    /// Accepts exactly the settings `valid` allows: tempo, then numerator,
    /// then denominator, then pattern length.
    pub fn validate(&self) -> (r: Result<(), DefaultSettingsError>)
        ensures
            r is Ok <==> self.valid(),
            r == Err::<(), DefaultSettingsError>(DefaultSettingsError::BpmOutOfRange) <==> !(
            60_000 <= self.default_bpm <= 300_000),
            r == Err::<(), DefaultSettingsError>(
                DefaultSettingsError::TimeSignatureNumeratorOutOfRange,
            ) <==> (60_000 <= self.default_bpm <= 300_000 && !(1 <= self.default_time_signature.0
                <= 16)),
            r == Err::<(), DefaultSettingsError>(
                DefaultSettingsError::TimeSignatureDenominatorNotSupported,
            ) <==> (60_000 <= self.default_bpm <= 300_000 && 1 <= self.default_time_signature.0
                <= 16 && !valid_default_denominator(self.default_time_signature.1 as int)),
            r == Err::<(), DefaultSettingsError>(DefaultSettingsError::PatternLengthOutOfRange)
                <==> (60_000 <= self.default_bpm <= 300_000 && 1 <= self.default_time_signature.0
                <= 16 && valid_default_denominator(self.default_time_signature.1 as int) && !(4
                <= self.default_pattern_length <= 64)),
    {
        if self.default_bpm < 60_000 || self.default_bpm > 300_000 {
            return Err(DefaultSettingsError::BpmOutOfRange);
        }
        let (numerator, denominator) = self.default_time_signature;
        if numerator < 1 || numerator > 16 {
            return Err(DefaultSettingsError::TimeSignatureNumeratorOutOfRange);
        }
        if !(denominator == 1 || denominator == 2 || denominator == 4 || denominator == 8
            || denominator == 16) {
            return Err(DefaultSettingsError::TimeSignatureDenominatorNotSupported);
        }
        if self.default_pattern_length < 4 || self.default_pattern_length > 64 {
            return Err(DefaultSettingsError::PatternLengthOutOfRange);
        }
        Ok(())
    }

    /// Corrects out-of-range values in place: the tempo and pattern length
    /// are clamped, the numerator clamped, an unsupported denominator
    /// becomes 4. One message per correction.
    pub fn sanitize(&mut self) -> (corrections: Vec<String>)
        ensures
            final(self).valid(),
            final(self).default_bpm == if old(self).default_bpm < 60_000 {
                60_000int
            } else if old(self).default_bpm > 300_000 {
                300_000int
            } else {
                old(self).default_bpm as int
            },
            final(self).default_time_signature.0 == if old(self).default_time_signature.0 < 1 {
                1int
            } else if old(self).default_time_signature.0 > 16 {
                16int
            } else {
                old(self).default_time_signature.0 as int
            },
            final(self).default_time_signature.1 == if valid_default_denominator(
                old(self).default_time_signature.1 as int,
            ) {
                old(self).default_time_signature.1 as int
            } else {
                4int
            },
            final(self).default_pattern_length == if old(self).default_pattern_length < 4 {
                4int
            } else if old(self).default_pattern_length > 64 {
                64int
            } else {
                old(self).default_pattern_length as int
            },
            old(self).valid() ==> corrections@.len() == 0,
    {
        let mut corrections: Vec<String> = Vec::new();
        if self.default_bpm < 60_000 {
            let mut msg = String::from_str("Default BPM ");
            crate::text::append_milli(&mut msg, self.default_bpm as u64);
            msg.append(" is too slow, changed to 60");
            corrections.push(msg);
            self.default_bpm = 60_000;
        } else if self.default_bpm > 300_000 {
            let mut msg = String::from_str("Default BPM ");
            crate::text::append_milli(&mut msg, self.default_bpm as u64);
            msg.append(" is too fast, changed to 300");
            corrections.push(msg);
            self.default_bpm = 300_000;
        }
        let (numerator, denominator) = self.default_time_signature;
        let mut numerator = numerator;
        let mut denominator = denominator;
        if numerator < 1 {
            let mut msg = String::from_str("Time signature numerator ");
            crate::text::append_dec(&mut msg, numerator as u128);
            msg.append(" is too small, changed to 1");
            corrections.push(msg);
            numerator = 1;
        } else if numerator > 16 {
            let mut msg = String::from_str("Time signature numerator ");
            crate::text::append_dec(&mut msg, numerator as u128);
            msg.append(" is too large, changed to 16");
            corrections.push(msg);
            numerator = 16;
        }
        if !(denominator == 1 || denominator == 2 || denominator == 4 || denominator == 8
            || denominator == 16) {
            let mut msg = String::from_str("Time signature denominator ");
            crate::text::append_dec(&mut msg, denominator as u128);
            msg.append(" is invalid, changed to 4");
            corrections.push(msg);
            denominator = 4;
        }
        self.default_time_signature = (numerator, denominator);
        if self.default_pattern_length < 4 {
            let mut msg = String::from_str("Default pattern length ");
            crate::text::append_dec(&mut msg, self.default_pattern_length as u128);
            msg.append(" is too short, changed to 4");
            corrections.push(msg);
            self.default_pattern_length = 4;
        } else if self.default_pattern_length > 64 {
            let mut msg = String::from_str("Default pattern length ");
            crate::text::append_dec(&mut msg, self.default_pattern_length as u128);
            msg.append(" is too long, changed to 64");
            corrections.push(msg);
            self.default_pattern_length = 64;
        }
        corrections
    }
}

impl Default for DefaultSettings {
    /// 120 beats per minute, 4/4, sixteen steps.
    fn default() -> (r: DefaultSettings)
        ensures
            r.default_bpm == 120_000,
            r.default_time_signature.0 == 4,
            r.default_time_signature.1 == 4,
            r.default_pattern_length == 16,
    {
        DefaultSettings {
            default_bpm: 120_000,
            default_time_signature: (4, 4),
            default_pattern_length: 16,
        }
    }
}

/// Every persisted setting of the application.
#[derive(Debug, Clone)]
pub struct AppSettings {
    pub audio: AudioSettings,
    pub ui: UISettings,
    pub defaults: DefaultSettings,
    pub keyboard: KeyboardSettings,
}

/// The first settings group that failed validation.
#[derive(Debug, Clone, Copy, PartialEq, Eq, Structural)]
pub enum AppSettingsError {
    Audio(AudioSettingsError),
    Ui(UISettingsError),
    Defaults(DefaultSettingsError),
    Keyboard(KeyboardSettingsError),
}

impl AppSettings {
    /// Every group valid.
    pub open spec fn valid(self) -> bool {
        &&& self.audio.valid()
        &&& self.ui.valid()
        &&& self.defaults.valid()
        &&& self.keyboard.valid()
    }

    /// Accepts exactly the settings `valid` allows, group by group.
    pub fn validate(&self) -> (r: Result<(), AppSettingsError>)
        ensures
            r is Ok <==> self.valid(),
    {
        match self.audio.validate() {
            Ok(()) => {},
            Err(e) => {
                return Err(AppSettingsError::Audio(e));
            },
        }
        match self.ui.validate() {
            Ok(()) => {},
            Err(e) => {
                return Err(AppSettingsError::Ui(e));
            },
        }
        match self.defaults.validate() {
            Ok(()) => {},
            Err(e) => {
                return Err(AppSettingsError::Defaults(e));
            },
        }
        match self.keyboard.validate() {
            Ok(()) => {},
            Err(e) => {
                return Err(AppSettingsError::Keyboard(e));
            },
        }
        Ok(())
    }

    /// Brings loaded settings back into range: invalid audio settings reset
    /// wholesale to the defaults, the other groups are corrected field by
    /// field. Returns every correction message.
    pub fn sanitize_settings(settings: AppSettings) -> (r: AppSettings)
        ensures
            r.audio.valid(),
            r.ui.valid(),
            r.defaults.valid(),
            r.audio == if settings.audio.valid() {
                settings.audio
            } else {
                AudioSettings {
                    sample_rate: 44_100u32,
                    buffer_size: 1024u32,
                    master_volume: 1000u32,
                    preferred_device: None,
                    device_monitoring_enabled: true,
                    auto_fallback_enabled: true,
                    last_known_good_device: None,
                }
            },
            r.ui.theme@ == if valid_theme(settings.ui.theme@) {
                settings.ui.theme@
            } else {
                "dark"@
            },
            r.ui.ui_scale == if settings.ui.ui_scale < 500 {
                500int
            } else if settings.ui.ui_scale > 3000 {
                3000int
            } else {
                settings.ui.ui_scale as int
            },
            r.defaults.default_bpm == if settings.defaults.default_bpm < 60_000 {
                60_000int
            } else if settings.defaults.default_bpm > 300_000 {
                300_000int
            } else {
                settings.defaults.default_bpm as int
            },
            r.defaults.default_time_signature.0 == if settings.defaults.default_time_signature.0
                < 1 {
                1int
            } else if settings.defaults.default_time_signature.0 > 16 {
                16int
            } else {
                settings.defaults.default_time_signature.0 as int
            },
            r.defaults.default_time_signature.1 == if valid_default_denominator(
                settings.defaults.default_time_signature.1 as int,
            ) {
                settings.defaults.default_time_signature.1 as int
            } else {
                4int
            },
            r.defaults.default_pattern_length == if settings.defaults.default_pattern_length
                < 4 {
                4int
            } else if settings.defaults.default_pattern_length > 64 {
                64int
            } else {
                settings.defaults.default_pattern_length as int
            },
            forall|i: int|
                0 <= i < 16 ==> #[trigger] shortcut_views(r.keyboard)[i] == if is_blank(
                    shortcut_views(settings.keyboard)[i],
                ) {
                    default_shortcut_views()[i]
                } else {
                    shortcut_views(settings.keyboard)[i]
                },
    {
        let mut settings = settings;
        match settings.audio.validate() {
            Ok(()) => {},
            Err(_) => {
                settings.audio = AudioSettings::default();
            },
        }
        let _ui_corrections = settings.ui.sanitize();
        let _default_corrections = settings.defaults.sanitize();
        let _keyboard_corrections = settings.keyboard.sanitize();
        settings
    }
}

impl Default for AppSettings {
    /// The default of every group.
    fn default() -> (r: AppSettings)
        ensures
            r.audio.sample_rate == 44_100,
            r.audio.master_volume == 1000,
            r.ui.theme@ == "dark"@,
            r.defaults.default_bpm == 120_000,
            shortcut_views(r.keyboard) == default_shortcut_views(),
    {
        AppSettings {
            audio: AudioSettings::default(),
            ui: UISettings::default(),
            defaults: DefaultSettings::default(),
            keyboard: KeyboardSettings::default(),
        }
    }
}

} // verus!
