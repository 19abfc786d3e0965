//! Interface state with rules of its own: panel layout modes and resizing,
//! the mode the interface is in, loading progress, tooltips, and the timed
//! auto-dismissal decisions.
use vstd::prelude::*;
use vstd::string::*;

use crate::models::now_millis;
use crate::text::{dec_str, u64_to_string};

verus! {

/// How many panels the main view splits into.
#[derive(Debug, Clone, Copy, PartialEq, Eq, Structural)]
pub enum LayoutMode {
    /// Host list and details.
    TwoPanel,
    /// Host list, details, and metrics.
    ThreePanel,
    /// A full-width host list.
    SinglePanel,
}

/// Panel sizing: the mode and the three panel percentages, left to right;
/// unused panels hold zero.
#[derive(Debug, Clone, Copy)]
pub struct PanelLayout {
    pub mode: LayoutMode,
    pub panel_sizes: [u16; 3],
}

/// The percentages always account for the whole width, and panels the
/// mode does not show hold zero.
pub open spec fn layout_wf(l: PanelLayout) -> bool {
    &&& l.panel_sizes@[0] + l.panel_sizes@[1] + l.panel_sizes@[2] == 100
    &&& l.mode is TwoPanel ==> l.panel_sizes@[2] == 0
    &&& l.mode is SinglePanel ==> l.panel_sizes@[1] == 0 && l.panel_sizes@[2] == 0
}

/// Clamping to a closed interval.
pub open spec fn clamp_spec(x: int, lo: int, hi: int) -> int {
    if x < lo {
        lo
    } else if x > hi {
        hi
    } else {
        x
    }
}

impl Default for PanelLayout {
    fn default() -> (r: Self)
        ensures
            r.mode is ThreePanel,
            r.panel_sizes@ == seq![50u16, 25u16, 25u16],
            layout_wf(r),
    {
        let r = PanelLayout { mode: LayoutMode::ThreePanel, panel_sizes: [50, 25, 25] };
        proof {
            assert(r.panel_sizes@ =~= seq![50u16, 25u16, 25u16]);
        }
        r
    }
}

impl PanelLayout {
    /// Steps to the next layout mode and its stock sizes: two panels, then
    /// three, then the single full-width panel.
    pub fn cycle_layout(&mut self)
        ensures
            old(self).mode is TwoPanel ==> final(self).mode is ThreePanel && final(self).panel_sizes@ == seq![50u16, 25u16, 25u16],
            old(self).mode is ThreePanel ==> final(self).mode is SinglePanel && final(self).panel_sizes@ == seq![100u16, 0u16, 0u16],
            old(self).mode is SinglePanel ==> final(self).mode is TwoPanel && final(self).panel_sizes@ == seq![70u16, 30u16, 0u16],
            layout_wf(*final(self)),
    {
        self.mode = match self.mode {
            LayoutMode::TwoPanel => LayoutMode::ThreePanel,
            LayoutMode::ThreePanel => LayoutMode::SinglePanel,
            LayoutMode::SinglePanel => LayoutMode::TwoPanel,
        };
        self.panel_sizes = match self.mode {
            LayoutMode::SinglePanel => [100, 0, 0],
            LayoutMode::TwoPanel => [70, 30, 0],
            LayoutMode::ThreePanel => [50, 25, 25],
        };
        proof {
            assert(final(self).panel_sizes@ =~= match final(self).mode {
                LayoutMode::SinglePanel => seq![100u16, 0u16, 0u16],
                LayoutMode::TwoPanel => seq![70u16, 30u16, 0u16],
                LayoutMode::ThreePanel => seq![50u16, 25u16, 25u16],
            });
        }
    }

    /// Grows or shrinks the leftmost panel by `delta` percent, within
    /// bounds, giving the difference to the others: the second panel takes
    /// the rest in two-panel mode; in three-panel mode the rest is split
    /// between details and metrics. The single panel does not resize.
    pub fn resize_panels(&mut self, delta: i16)
        requires
            layout_wf(*old(self)),
        ensures
            final(self).mode == old(self).mode,
            old(self).mode is TwoPanel ==> {
                let new_left = clamp_spec(old(self).panel_sizes@[0] + delta, 20, 80);
                &&& final(self).panel_sizes@[0] == new_left
                &&& final(self).panel_sizes@[1] == 100 - new_left
                &&& final(self).panel_sizes@[2] == old(self).panel_sizes@[2]
            },
            old(self).mode is ThreePanel ==> {
                let new_left = clamp_spec(old(self).panel_sizes@[0] + delta, 20, 60);
                let remaining = 100 - new_left;
                &&& final(self).panel_sizes@[0] == new_left
                &&& final(self).panel_sizes@[1] == remaining / 2
                &&& final(self).panel_sizes@[2] == remaining - remaining / 2
            },
            old(self).mode is SinglePanel ==> *final(self) == *old(self),
            old(self).mode is TwoPanel || old(self).mode is ThreePanel ==> layout_wf(
                *final(self),
            ),
    {
        match self.mode {
            LayoutMode::TwoPanel => {
                let cur: i32 = self.panel_sizes[0] as i32 + delta as i32;
                let new_left: u16 = if cur < 20 {
                    20
                } else if cur > 80 {
                    80
                } else {
                    cur as u16
                };
                self.panel_sizes[0] = new_left;
                self.panel_sizes[1] = 100 - new_left;
            },
            LayoutMode::ThreePanel => {
                let cur: i32 = self.panel_sizes[0] as i32 + delta as i32;
                let new_left: u16 = if cur < 20 {
                    20
                } else if cur > 60 {
                    60
                } else {
                    cur as u16
                };
                let remaining: u16 = 100 - new_left;
                self.panel_sizes[0] = new_left;
                self.panel_sizes[1] = remaining / 2;
                self.panel_sizes[2] = remaining - remaining / 2;
            },
            LayoutMode::SinglePanel => {},
        }
    }
}

/// What a loading overlay is reporting on.
#[derive(Debug, Clone, Copy, PartialEq, Eq, Structural)]
pub enum LoadingContext {
    RefreshingHealth { total: usize, completed: usize },
}

impl LoadingContext {
    /// The `completed/total` progress rendering; an empty refresh shows as
    /// `0/0`.
    pub fn progress_display(&self) -> (r: String)
        ensures
            self matches LoadingContext::RefreshingHealth { total, completed } ==> ({
                &&& total > 0 ==> r@ == dec_str(completed as int) + "/"@ + dec_str(total as int)
                &&& total == 0 ==> r@ == "0/0"@
            }),
    {
        match self {
            LoadingContext::RefreshingHealth { total, completed } => {
                if *total > 0 {
                    let mut s = u64_to_string(*completed as u64);
                    s.append("/");
                    let t = u64_to_string(*total as u64);
                    s.append(t.as_str());
                    s
                } else {
                    String::from_str("0/0")
                }
            },
        }
    }
}

/// The mode the interface is in.
#[derive(Debug)]
pub enum AppMode {
    Normal,
    AddServer,
    EditServer(String),
    ConfirmDelete(String),
    Help,
    Connecting(String),
    Loading(LoadingContext),
    History,
    Analytics,
    Sessions,
}

/// Mathematical image of the interface mode.
#[verifier::ext_equal]
pub enum ModeView {
    Normal,
    AddServer,
    EditServer(Seq<char>),
    ConfirmDelete(Seq<char>),
    Help,
    Connecting(Seq<char>),
    Loading(LoadingContext),
    History,
    Analytics,
    Sessions,
}

impl View for AppMode {
    type V = ModeView;

    open spec fn view(&self) -> ModeView {
        match self {
            AppMode::Normal => ModeView::Normal,
            AppMode::AddServer => ModeView::AddServer,
            AppMode::EditServer(id) => ModeView::EditServer(id@),
            AppMode::ConfirmDelete(id) => ModeView::ConfirmDelete(id@),
            AppMode::Help => ModeView::Help,
            AppMode::Connecting(id) => ModeView::Connecting(id@),
            AppMode::Loading(ctx) => ModeView::Loading(*ctx),
            AppMode::History => ModeView::History,
            AppMode::Analytics => ModeView::Analytics,
            AppMode::Sessions => ModeView::Sessions,
        }
    }
}

impl Clone for AppMode {
    fn clone(&self) -> (r: Self)
        ensures
            r@ == self@,
    {
        match self {
            AppMode::Normal => AppMode::Normal,
            AppMode::AddServer => AppMode::AddServer,
            AppMode::EditServer(id) => AppMode::EditServer(id.clone()),
            AppMode::ConfirmDelete(id) => AppMode::ConfirmDelete(id.clone()),
            AppMode::Help => AppMode::Help,
            AppMode::Connecting(id) => AppMode::Connecting(id.clone()),
            AppMode::Loading(ctx) => AppMode::Loading(*ctx),
            AppMode::History => AppMode::History,
            AppMode::Analytics => AppMode::Analytics,
            AppMode::Sessions => AppMode::Sessions,
        }
    }
}

/// What a tooltip is about, for styling.
#[derive(Debug, Clone, Copy, PartialEq, Eq, Structural)]
pub enum TooltipCategory {
    Navigation,
    Server,
    Session,
    Theme,
    Layout,
    System,
}

/// A contextual help bubble.
#[derive(Debug)]
pub struct TooltipInfo {
    pub title: String,
    pub description: String,
    pub key_hint: Option<String>,
    pub category: TooltipCategory,
}

/// Mathematical image of a tooltip.
#[verifier::ext_equal]
pub struct TooltipView {
    pub title: Seq<char>,
    pub description: Seq<char>,
    pub key_hint: Option<Seq<char>>,
    pub category: TooltipCategory,
}

impl View for TooltipInfo {
    type V = TooltipView;

    open spec fn view(&self) -> TooltipView {
        TooltipView {
            title: self.title@,
            description: self.description@,
            key_hint: match self.key_hint {
                Some(h) => Some(h@),
                None => None,
            },
            category: self.category,
        }
    }
}

/// Tooltip display state: whether tooltips are enabled, the one currently
/// shown, and when it appeared.
#[derive(Debug)]
pub struct TooltipState {
    pub show_tooltips: bool,
    pub current_tooltip: Option<TooltipInfo>,
    /// Milliseconds since the Unix epoch.
    pub tooltip_shown_at_ms: Option<i64>,
}

/// Mathematical image of the tooltip state.
#[verifier::ext_equal]
pub struct TooltipStateView {
    pub show_tooltips: bool,
    pub current_tooltip: Option<TooltipView>,
    pub tooltip_shown_at_ms: Option<i64>,
}

impl View for TooltipState {
    type V = TooltipStateView;

    open spec fn view(&self) -> TooltipStateView {
        TooltipStateView {
            show_tooltips: self.show_tooltips,
            current_tooltip: match self.current_tooltip {
                Some(ref t) => Some(t@),
                None => None,
            },
            tooltip_shown_at_ms: self.tooltip_shown_at_ms,
        }
    }
}

impl TooltipState {
    /// Tooltips enabled, nothing shown.
    pub fn new() -> (r: Self)
        ensures
            r@.show_tooltips == true,
            r@.current_tooltip is None,
            r@.tooltip_shown_at_ms is None,
    {
        TooltipState { show_tooltips: true, current_tooltip: None, tooltip_shown_at_ms: None }
    }

    /// Shows a tooltip stamped with the current instant — unless tooltips
    /// are disabled, in which case nothing changes.
    pub fn show_tooltip(&mut self, title: String, description: String, key_hint: Option<String>,
        category: TooltipCategory)
        ensures
            old(self)@.show_tooltips ==> {
                &&& final(self)@.current_tooltip matches Some(t)
                &&& t.title == title@
                &&& t.description == description@
                &&& t.key_hint == (match key_hint {
                    Some(h) => Some(h@),
                    None => None::<Seq<char>>,
                })
                &&& t.category == category
                &&& final(self)@.tooltip_shown_at_ms is Some
            },
            !old(self)@.show_tooltips ==> *final(self) == *old(self),
            final(self)@.show_tooltips == old(self)@.show_tooltips,
    {
        if self.show_tooltips {
            self.current_tooltip = Some(
                TooltipInfo { title, description, key_hint, category },
            );
            self.tooltip_shown_at_ms = Some(now_millis());
        }
    }

    /// Dismisses the tooltip.
    pub fn hide_tooltip(&mut self)
        ensures
            final(self)@.current_tooltip is None,
            final(self)@.tooltip_shown_at_ms is None,
            final(self)@.show_tooltips == old(self)@.show_tooltips,
    {
        self.current_tooltip = None;
        self.tooltip_shown_at_ms = None;
    }

    /// Whether the shown tooltip has outlived its three seconds as of
    /// `now_ms`.
    pub fn should_auto_dismiss_tooltip(&self, now_ms: i64) -> (r: bool)
        ensures
            r == (self@.tooltip_shown_at_ms matches Some(t) && now_ms - t >= 3000),
    {
        match self.tooltip_shown_at_ms {
            Some(shown_at) => {
                let elapsed: i128 = now_ms as i128 - shown_at as i128;
                elapsed >= 3000
            },
            None => false,
        }
    }

    /// Flips tooltips on or off; turning them off dismisses the shown one.
    pub fn toggle_tooltips(&mut self)
        ensures
            final(self)@.show_tooltips == !old(self)@.show_tooltips,
            old(self)@.show_tooltips ==> final(self)@.current_tooltip is None && final(self)@.tooltip_shown_at_ms is None,
            !old(self)@.show_tooltips ==> final(self)@.current_tooltip == old(self)@.current_tooltip && final(self)@.tooltip_shown_at_ms == old(self)@.tooltip_shown_at_ms,
    {
        self.show_tooltips = !self.show_tooltips;
        if !self.show_tooltips {
            self.hide_tooltip();
        }
    }
}

/// Whether a popup shown at the given instant has outlived its four
/// seconds as of `now_ms`.
pub fn should_auto_dismiss_popup(popup_shown_at_ms: &Option<i64>, now_ms: i64) -> (r: bool)
    ensures
        r == (popup_shown_at_ms matches Some(t) && now_ms - *t >= 4000),
{
    match popup_shown_at_ms {
        Some(shown_at) => {
            let elapsed: i128 = now_ms as i128 - *shown_at as i128;
            elapsed >= 4000
        },
        None => false,
    }
}

/// The spinning-globe frame for an animation counter: one of four glyphs,
/// advancing every twenty frames.
pub fn get_globe_char(globe_animation_frame: u8) -> (r: &'static str)
    ensures
        (globe_animation_frame / 20) % 4 == 0 ==> r@ == "◐"@,
        (globe_animation_frame / 20) % 4 == 1 ==> r@ == "◓"@,
        (globe_animation_frame / 20) % 4 == 2 ==> r@ == "◑"@,
        (globe_animation_frame / 20) % 4 == 3 ==> r@ == "◒"@,
{
    let phase: u8 = (globe_animation_frame / 20) % 4;
    if phase == 0 {
        "◐"
    } else if phase == 1 {
        "◓"
    } else if phase == 2 {
        "◑"
    } else {
        "◒"
    }
}

} // verus!
