//! What the terminal reports, and the capabilities that its reports show.

use vstd::prelude::*;

use crate::escape::{ColorTarget, DecMode, Sgr};
use crate::style::ColorSpec;

verus! {

/// How a private mode stands, by the terminal's word.
#[derive(Debug, Clone, Copy, PartialEq, Eq, Structural)]
pub enum ModeSetting {
    /// The terminal does not know the mode.
    NotRecognized,
    On,
    Off,
    PermanentlyOn,
    PermanentlyOff,
}

/// An event that the terminal sends.
#[derive(Debug)]
pub enum Report {
    /// The flags of the Kitty keyboard protocol that are on.
    KeyboardFlags(u8),
    /// How a private mode stands; `None` for a mode that the backend does not use.
    PrivateMode { mode: Option<DecMode>, setting: ModeSetting },
    /// The graphic rendition in force; `None` for an attribute that the backend does
    /// not use.
    GraphicRendition(Vec<Option<Sgr>>),
    /// The primary device attributes.
    DeviceAttributes,
    /// The line and the column of the cursor, counted from one.
    CursorPosition { line: u16, col: u16 },
    /// Another escape sequence.
    OtherEscape,
    /// Anything else: keys, the mouse, pasted text, changes of focus or size.
    Input,
}

/// The reports that a reader waits for. Others stay in the terminal's queue.
#[derive(Debug, Clone, Copy, PartialEq, Eq, Structural)]
pub enum Filter {
    /// Any escape sequence.
    Escape,
    KeyboardFlags,
    CursorPosition,
}

impl Filter {
    /// Whether the report is one of those waited for.
    pub open spec fn takes(self, report: Report) -> bool {
        match self {
            Filter::Escape => !(report is Input),
            Filter::KeyboardFlags => report is KeyboardFlags,
            Filter::CursorPosition => report is CursorPosition,
        }
    }

    /// Whether the report is one of those waited for.
    pub fn accepts(self, report: &Report) -> (yes: bool)
        ensures
            yes == self.takes(*report),
    {
        match (self, report) {
            (Filter::Escape, Report::Input) => false,
            (Filter::Escape, _) => true,
            (Filter::KeyboardFlags, Report::KeyboardFlags(_)) => true,
            (Filter::CursorPosition, Report::CursorPosition { .. }) => true,
            _ => false,
        }
    }
}

/// The red of the colour that tells whether the terminal knows true colours.
pub const TEST_RED: u8 = 59;

/// The green of that colour.
pub const TEST_GREEN: u8 = 34;

/// The blue of that colour.
pub const TEST_BLUE: u8 = 76;

/// The colour that is set, and asked back, to tell whether the terminal knows true
/// colours.
pub open spec fn spec_test_color() -> ColorSpec {
    ColorSpec::TrueColor { red: TEST_RED, green: TEST_GREEN, blue: TEST_BLUE, alpha: 255 }
}

/// See [`spec_test_color`].
pub fn test_color() -> (color: ColorSpec)
    ensures
        color == spec_test_color(),
{
    ColorSpec::TrueColor { red: TEST_RED, green: TEST_GREEN, blue: TEST_BLUE, alpha: 255 }
}

/// What the terminal can do.
#[derive(Debug, Clone, Copy, PartialEq, Eq, Structural)]
pub struct Capabilities {
    pub kitty_keyboard: bool,
    pub synchronized_output: bool,
    pub true_color: bool,
    pub extended_underlines: bool,
}

impl Capabilities {
    /// No capability.
    pub open spec fn none() -> Capabilities {
        Capabilities {
            kitty_keyboard: false,
            synchronized_output: false,
            true_color: false,
            extended_underlines: false,
        }
    }

    /// Whether the rendition in force has the test colour.
    pub open spec fn has_test_color(sgrs: Seq<Option<Sgr>>, target: ColorTarget) -> bool {
        sgrs.contains(Some(Sgr::Color(target, spec_test_color())))
    }

    /// The capabilities that are known after one more report. The status of a feature
    /// shows that the terminal has it; a rendition shows what has become of the test
    /// colour, as a background and as the colour of underlines.
    pub open spec fn with_report(self, report: Report) -> Capabilities {
        match report {
            Report::KeyboardFlags(_) => Capabilities { kitty_keyboard: true, ..self },
            Report::PrivateMode {
                mode: Some(DecMode::SynchronizedOutput),
                setting: ModeSetting::On,
            } => Capabilities { synchronized_output: true, ..self },
            Report::PrivateMode {
                mode: Some(DecMode::SynchronizedOutput),
                setting: ModeSetting::Off,
            } => Capabilities { synchronized_output: true, ..self },
            Report::GraphicRendition(sgrs) => Capabilities {
                true_color: Self::has_test_color(sgrs@, ColorTarget::Background),
                extended_underlines: Self::has_test_color(sgrs@, ColorTarget::Underline),
                ..self
            },
            _ => self,
        }
    }

    /// The capabilities that the reports show.
    pub open spec fn shown_by(reports: Seq<Report>) -> Capabilities
        decreases reports.len(),
    {
        if reports.len() == 0 {
            Capabilities::none()
        } else {
            Capabilities::shown_by(reports.drop_last()).with_report(reports.last())
        }
    }

    /// Takes one more report into account.
    pub fn note(&mut self, report: &Report)
        ensures
            *final(self) == old(self).with_report(*report),
    {
        match report {
            Report::KeyboardFlags(_) => {
                self.kitty_keyboard = true;
            },
            Report::PrivateMode { mode: Some(DecMode::SynchronizedOutput), setting } => {
                match setting {
                    ModeSetting::On | ModeSetting::Off => {
                        self.synchronized_output = true;
                    },
                    _ => {},
                }
            },
            Report::GraphicRendition(sgrs) => {
                self.true_color = has_color(sgrs, ColorTarget::Background);
                self.extended_underlines = has_color(sgrs, ColorTarget::Underline);
            },
            _ => {},
        }
    }
}

impl Default for Capabilities {
    fn default() -> (capabilities: Capabilities)
        ensures
            capabilities == Capabilities::none(),
    {
        Capabilities {
            kitty_keyboard: false,
            synchronized_output: false,
            true_color: false,
            extended_underlines: false,
        }
    }
}

/// Whether the rendition in force has the test colour.
fn has_color(sgrs: &Vec<Option<Sgr>>, target: ColorTarget) -> (found: bool)
    ensures
        found == Capabilities::has_test_color(sgrs@, target),
{
    let wanted = Sgr::Color(target, test_color());
    let mut i: usize = 0;
    while i < sgrs.len()
        invariant
            i <= sgrs.len(),
            wanted == Sgr::Color(target, spec_test_color()),
            forall|j: int| 0 <= j < i ==> sgrs@[j] != Some(wanted),
        decreases sgrs.len() - i,
    {
        if let Some(sgr) = sgrs[i] {
            if sgr == wanted {
                assert(sgrs@[i as int] == Some(wanted));
                return true;
            }
        }
        i = i + 1;
    }
    false
}

/// Whether a rendition has the test colour as a background, or as the colour of
/// underlines: the opaque colour of 59 parts red, 34 green and 76 blue.
pub open spec fn rendition_shows(sgrs: Seq<Option<Sgr>>, target: ColorTarget) -> bool {
    exists|i: int|
        0 <= i < sgrs.len() && #[trigger] sgrs[i] == Some(
            Sgr::Color(target, ColorSpec::TrueColor { red: 59, green: 34, blue: 76, alpha: 255 }),
        )
}

/// One more report decides the features that it is about, and leaves the others as they
/// were known. The keyboard protocol and synchronized output once known stay known; a
/// rendition decides both true colours and extended underlines anew.
pub proof fn one_report_decides(known: Capabilities, report: Report)
    ensures
        ({
            let then = known.with_report(report);
            &&& then.kitty_keyboard <==> known.kitty_keyboard || report is KeyboardFlags
            &&& then.synchronized_output <==> known.synchronized_output
                || shows_synchronized_output(report)
            &&& then.true_color <==> match report {
                Report::GraphicRendition(sgrs) => rendition_shows(sgrs@, ColorTarget::Background),
                _ => known.true_color,
            }
            &&& then.extended_underlines <==> match report {
                Report::GraphicRendition(sgrs) => rendition_shows(sgrs@, ColorTarget::Underline),
                _ => known.extended_underlines,
            }
        }),
{
    if let Report::GraphicRendition(sgrs) = report {
        rendition_is_searched(sgrs@, ColorTarget::Background);
        rendition_is_searched(sgrs@, ColorTarget::Underline);
    }
}

/// The test colour is in a rendition when one of its attributes is that colour.
proof fn rendition_is_searched(sgrs: Seq<Option<Sgr>>, target: ColorTarget)
    ensures
        Capabilities::has_test_color(sgrs, target) <==> rendition_shows(sgrs, target),
{
    if Capabilities::has_test_color(sgrs, target) {
        let wanted = Some(Sgr::Color(target, spec_test_color()));
        let i = choose|i: int| 0 <= i < sgrs.len() && sgrs[i] == wanted;
        assert(sgrs[i] == wanted);
    }
}

/// A reader that waits for one kind of report gets that kind and no other; one that waits
/// for any escape sequence gets all that is not input.
pub proof fn filters_take_their_kind(report: Report)
    ensures
        Filter::KeyboardFlags.takes(report) <==> (report matches Report::KeyboardFlags(_)),
        Filter::CursorPosition.takes(report) <==> (report matches Report::CursorPosition { .. }),
        Filter::Escape.takes(report) <==> report != Report::Input,
        forall|filter: Filter|
            #[trigger] filter.takes(report) ==> Filter::Escape.takes(report),
{
}

/// Whether the report shows that the terminal can hold back its output.
pub open spec fn shows_synchronized_output(report: Report) -> bool {
    report matches Report::PrivateMode { mode, setting } && mode == Some(DecMode::SynchronizedOutput)
        && (setting == ModeSetting::On || setting == ModeSetting::Off)
}

/// Whether the report at `i` is the last rendition among the reports.
pub open spec fn last_rendition(reports: Seq<Report>, i: int) -> bool {
    &&& 0 <= i < reports.len()
    &&& reports[i] is GraphicRendition
    &&& forall|j: int| i < j < reports.len() ==> !(#[trigger] reports[j] is GraphicRendition)
}

/// A feature whose status was reported is known to be there, and one whose status
/// was not is known not to be: the Kitty keyboard protocol by a report of its flags,
/// synchronized output by a report that the mode is on or off, true colours and
/// extended underlines by the test colour in the last rendition that was reported.
pub proof fn reports_decide(reports: Seq<Report>)
    ensures
        Capabilities::shown_by(reports).kitty_keyboard <==> exists|i: int|
            0 <= i < reports.len() && #[trigger] reports[i] is KeyboardFlags,
        Capabilities::shown_by(reports).synchronized_output <==> exists|i: int|
            0 <= i < reports.len() && shows_synchronized_output(#[trigger] reports[i]),
        Capabilities::shown_by(reports).true_color <==> exists|i: int| #[trigger]
            last_rendition(reports, i) && Capabilities::has_test_color(
                reports[i]->GraphicRendition_0@,
                ColorTarget::Background,
            ),
        Capabilities::shown_by(reports).extended_underlines <==> exists|i: int| #[trigger]
            last_rendition(reports, i) && Capabilities::has_test_color(
                reports[i]->GraphicRendition_0@,
                ColorTarget::Underline,
            ),
    decreases reports.len(),
{
    if reports.len() > 0 {
        let shorter = reports.drop_last();
        let last = reports.len() - 1;
        reports_decide(shorter);
        assert forall|i: int| 0 <= i < last implies #[trigger] reports[i] == shorter[i] by {}
        let shown = Capabilities::shown_by(reports);
        let before = Capabilities::shown_by(shorter);
        if before.kitty_keyboard {
            let i = choose|i: int| 0 <= i < shorter.len() && #[trigger] shorter[i] is KeyboardFlags;
            assert(reports[i] is KeyboardFlags);
        }
        if before.synchronized_output {
            let i = choose|i: int|
                0 <= i < shorter.len() && shows_synchronized_output(#[trigger] shorter[i]);
            assert(shows_synchronized_output(reports[i]));
        }
        assert(reports[last] == reports.last());
        if reports.last() is GraphicRendition {
            assert(last_rendition(reports, last));
            assert forall|i: int| #[trigger] last_rendition(reports, i) implies i == last by {}
        } else {
            assert forall|i: int|
                #[trigger] last_rendition(reports, i) == last_rendition(shorter, i) by {
                if last_rendition(shorter, i) {
                    assert forall|j: int| i < j < reports.len() implies !(
                    #[trigger] reports[j] is GraphicRendition) by {
                        if j < last {
                            assert(reports[j] == shorter[j]);
                        }
                    }
                }
                if last_rendition(reports, i) {
                    assert(i < last);
                    assert forall|j: int| i < j < shorter.len() implies !(
                    #[trigger] shorter[j] is GraphicRendition) by {
                        assert(reports[j] == shorter[j]);
                    }
                }
            }
            if shown.true_color {
                let i = choose|i: int| #[trigger]
                    last_rendition(shorter, i) && Capabilities::has_test_color(
                        shorter[i]->GraphicRendition_0@,
                        ColorTarget::Background,
                    );
                assert(last_rendition(reports, i));
            }
            if shown.extended_underlines {
                let i = choose|i: int| #[trigger]
                    last_rendition(shorter, i) && Capabilities::has_test_color(
                        shorter[i]->GraphicRendition_0@,
                        ColorTarget::Underline,
                    );
                assert(last_rendition(reports, i));
            }
        }
    }
}

} // verus!
