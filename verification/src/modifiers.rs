//! The rendition changes that lead from one set of text modifiers to another.

use vstd::prelude::*;

use crate::escape::{ColorTarget, Escape, Sgr, Switch};
use crate::output::{concat_run, empty_run, text_of, Output, Transcript};
use crate::style::{modifiers_are_bits, Blink, Intensity, Modifier};

verus! {

/// A rendition change, as a piece of output.
pub open spec fn rendition(sgr: Sgr) -> Output {
    Output::Escape(Escape::Sgr(sgr))
}

/// The rendition change if the condition holds, nothing otherwise.
#[verifier::opaque]
pub open spec fn rendition_if(condition: bool, sgr: Sgr) -> Seq<Output> {
    if condition {
        seq![rendition(sgr)]
    } else {
        seq![]
    }
}

/// Adds the rendition change if the condition holds.
pub fn write_if(out: &mut Transcript, condition: bool, sgr: Sgr)
    requires
        old(out).well_formed(),
    ensures
        final(out).well_formed(),
        final(out)@ == old(out)@ + rendition_if(condition, sgr),
{
    reveal(rendition_if);
    if condition {
        out.escape(Escape::Sgr(sgr));
    }
}

/// A change of the text modifiers.
#[derive(Debug, Clone, Copy, PartialEq, Eq, Structural)]
pub struct ModifierDiff {
    pub from: Modifier,
    pub to: Modifier,
}

impl ModifierDiff {
    /// Whether the modifier is left behind.
    pub open spec fn loses(self, flag: u16) -> bool {
        self.from.has(flag) && !self.to.has(flag)
    }

    /// Whether the modifier is new.
    pub open spec fn gains(self, flag: u16) -> bool {
        self.to.has(flag) && !self.from.has(flag)
    }

    /// What switches off the modifiers that are left behind. Bold and dim go off
    /// together, and so do the two speeds of blinking.
    pub open spec fn removals(self) -> Seq<Output> {
        rendition_if(self.loses(Modifier::REVERSED), Sgr::Switch(Switch::Reverse, false))
            + rendition_if(
            self.loses(Modifier::BOLD) || self.loses(Modifier::DIM),
            Sgr::Intensity(Intensity::Normal),
        ) + rendition_if(self.loses(Modifier::ITALIC), Sgr::Switch(Switch::Italic, false))
            + rendition_if(self.loses(Modifier::CROSSED_OUT), Sgr::Switch(Switch::StrikeThrough, false))
            + rendition_if(self.loses(Modifier::HIDDEN), Sgr::Switch(Switch::Invisible, false))
            + rendition_if(
            self.loses(Modifier::SLOW_BLINK) || self.loses(Modifier::RAPID_BLINK),
            Sgr::Blink(Blink::Off),
        )
    }

    /// What switches on the new modifiers.
    pub open spec fn additions(self) -> Seq<Output> {
        rendition_if(self.gains(Modifier::REVERSED), Sgr::Switch(Switch::Reverse, true))
            + rendition_if(self.gains(Modifier::BOLD), Sgr::Intensity(Intensity::Bold))
            + rendition_if(self.gains(Modifier::DIM), Sgr::Intensity(Intensity::Dim))
            + rendition_if(self.gains(Modifier::ITALIC), Sgr::Switch(Switch::Italic, true))
            + rendition_if(self.gains(Modifier::CROSSED_OUT), Sgr::Switch(Switch::StrikeThrough, true))
            + rendition_if(self.gains(Modifier::HIDDEN), Sgr::Switch(Switch::Invisible, true))
            + rendition_if(self.gains(Modifier::SLOW_BLINK), Sgr::Blink(Blink::Slow))
            + rendition_if(self.gains(Modifier::RAPID_BLINK), Sgr::Blink(Blink::Rapid))
    }

    /// What leads from the old modifiers to the new: removals first.
    pub open spec fn outputs(self) -> Seq<Output> {
        self.removals() + self.additions()
    }

    /// Adds what switches off the modifiers that are left behind.
    fn write_removals(self, out: &mut Transcript)
        requires
            old(out).well_formed(),
        ensures
            final(out).well_formed(),
            final(out)@ == old(out)@ + self.removals(),
    {
        let removed = self.from.difference(self.to);
        proof {
            lemma_difference(self.from, self.to, removed);
        }
        let ghost start = out@;
        let ghost mut run: Seq<Output> = seq![];
        assert(start + run == start);
        let reverse_due = removed.contains(Modifier::REVERSED);
        let reverse = Sgr::Switch(Switch::Reverse, false);
        write_if(out, reverse_due, reverse);
        proof {
            run = concat_run(start, run, rendition_if(reverse_due, reverse));
        }
        let normal_due = removed.contains(Modifier::BOLD) || removed.contains(Modifier::DIM);
        let normal = Sgr::Intensity(Intensity::Normal);
        write_if(out, normal_due, normal);
        proof {
            run = concat_run(start, run, rendition_if(normal_due, normal));
        }
        let italic_due = removed.contains(Modifier::ITALIC);
        let italic = Sgr::Switch(Switch::Italic, false);
        write_if(out, italic_due, italic);
        proof {
            run = concat_run(start, run, rendition_if(italic_due, italic));
        }
        let strike_due = removed.contains(Modifier::CROSSED_OUT);
        let strike = Sgr::Switch(Switch::StrikeThrough, false);
        write_if(out, strike_due, strike);
        proof {
            run = concat_run(start, run, rendition_if(strike_due, strike));
        }
        let invisible_due = removed.contains(Modifier::HIDDEN);
        let invisible = Sgr::Switch(Switch::Invisible, false);
        write_if(out, invisible_due, invisible);
        proof {
            run = concat_run(start, run, rendition_if(invisible_due, invisible));
        }
        let steady_due = removed.contains(Modifier::SLOW_BLINK) || removed.contains(
            Modifier::RAPID_BLINK,
        );
        let steady = Sgr::Blink(Blink::Off);
        write_if(out, steady_due, steady);
        proof {
            run = concat_run(start, run, rendition_if(steady_due, steady));
        }
    }

    /// Adds what switches on the new modifiers.
    fn write_additions(self, out: &mut Transcript)
        requires
            old(out).well_formed(),
        ensures
            final(out).well_formed(),
            final(out)@ == old(out)@ + self.additions(),
    {
        let added = self.to.difference(self.from);
        proof {
            lemma_difference(self.to, self.from, added);
        }
        let ghost start = out@;
        let ghost mut run: Seq<Output> = seq![];
        assert(start + run == start);
        let reverse_due = added.contains(Modifier::REVERSED);
        let reverse = Sgr::Switch(Switch::Reverse, true);
        write_if(out, reverse_due, reverse);
        proof {
            run = concat_run(start, run, rendition_if(reverse_due, reverse));
        }
        let bold_due = added.contains(Modifier::BOLD);
        let bold = Sgr::Intensity(Intensity::Bold);
        write_if(out, bold_due, bold);
        proof {
            run = concat_run(start, run, rendition_if(bold_due, bold));
        }
        let dim_due = added.contains(Modifier::DIM);
        let dim = Sgr::Intensity(Intensity::Dim);
        write_if(out, dim_due, dim);
        proof {
            run = concat_run(start, run, rendition_if(dim_due, dim));
        }
        let italic_due = added.contains(Modifier::ITALIC);
        let italic = Sgr::Switch(Switch::Italic, true);
        write_if(out, italic_due, italic);
        proof {
            run = concat_run(start, run, rendition_if(italic_due, italic));
        }
        let strike_due = added.contains(Modifier::CROSSED_OUT);
        let strike = Sgr::Switch(Switch::StrikeThrough, true);
        write_if(out, strike_due, strike);
        proof {
            run = concat_run(start, run, rendition_if(strike_due, strike));
        }
        let invisible_due = added.contains(Modifier::HIDDEN);
        let invisible = Sgr::Switch(Switch::Invisible, true);
        write_if(out, invisible_due, invisible);
        proof {
            run = concat_run(start, run, rendition_if(invisible_due, invisible));
        }
        let slow_due = added.contains(Modifier::SLOW_BLINK);
        let slow = Sgr::Blink(Blink::Slow);
        write_if(out, slow_due, slow);
        proof {
            run = concat_run(start, run, rendition_if(slow_due, slow));
        }
        let rapid_due = added.contains(Modifier::RAPID_BLINK);
        let rapid = Sgr::Blink(Blink::Rapid);
        write_if(out, rapid_due, rapid);
        proof {
            run = concat_run(start, run, rendition_if(rapid_due, rapid));
        }
    }

    /// Adds what leads from the old modifiers to the new.
    pub fn write(self, out: &mut Transcript)
        requires
            old(out).well_formed(),
        ensures
            final(out).well_formed(),
            final(out)@ == old(out)@ + self.outputs(),
    {
        self.write_removals(out);
        self.write_additions(out);
        proof {
            concat_run(old(out)@, self.removals(), self.additions());
        }
    }

    /// The text that leads from the old modifiers to the new.
    pub fn to_text(self) -> (text: String)
        ensures
            text@ == text_of(self.outputs()),
    {
        let mut out = Transcript::new();
        self.write(&mut out);
        proof {
            empty_run(self.outputs());
        }
        out.into_text()
    }
}

/// A single modifier is in the difference of two sets when it is in the first
/// and not in the second.
proof fn lemma_difference(set: Modifier, other: Modifier, rest: Modifier)
    requires
        rest.bits == set.bits & !other.bits,
    ensures
        rest.has(Modifier::BOLD) <==> set.has(Modifier::BOLD) && !other.has(Modifier::BOLD),
        rest.has(Modifier::DIM) <==> set.has(Modifier::DIM) && !other.has(Modifier::DIM),
        rest.has(Modifier::ITALIC) <==> set.has(Modifier::ITALIC) && !other.has(Modifier::ITALIC),
        rest.has(Modifier::SLOW_BLINK) <==> set.has(Modifier::SLOW_BLINK) && !other.has(
            Modifier::SLOW_BLINK,
        ),
        rest.has(Modifier::RAPID_BLINK) <==> set.has(Modifier::RAPID_BLINK) && !other.has(
            Modifier::RAPID_BLINK,
        ),
        rest.has(Modifier::REVERSED) <==> set.has(Modifier::REVERSED) && !other.has(
            Modifier::REVERSED,
        ),
        rest.has(Modifier::HIDDEN) <==> set.has(Modifier::HIDDEN) && !other.has(Modifier::HIDDEN),
        rest.has(Modifier::CROSSED_OUT) <==> set.has(Modifier::CROSSED_OUT) && !other.has(
            Modifier::CROSSED_OUT,
        ),
{
    let a = set.bits;
    let b = other.bits;
    let r = rest.bits;
    assert(r == a & !b ==> {
        &&& (r & 0x001 == 0x001 <==> a & 0x001 == 0x001 && b & 0x001 != 0x001)
        &&& (r & 0x002 == 0x002 <==> a & 0x002 == 0x002 && b & 0x002 != 0x002)
        &&& (r & 0x004 == 0x004 <==> a & 0x004 == 0x004 && b & 0x004 != 0x004)
        &&& (r & 0x010 == 0x010 <==> a & 0x010 == 0x010 && b & 0x010 != 0x010)
        &&& (r & 0x020 == 0x020 <==> a & 0x020 == 0x020 && b & 0x020 != 0x020)
        &&& (r & 0x040 == 0x040 <==> a & 0x040 == 0x040 && b & 0x040 != 0x040)
        &&& (r & 0x080 == 0x080 <==> a & 0x080 == 0x080 && b & 0x080 != 0x080)
        &&& (r & 0x100 == 0x100 <==> a & 0x100 == 0x100 && b & 0x100 != 0x100)
    }) by (bit_vector);
}

/// The place of a rendition change among those that a cell needs: what goes off, what comes
/// on, the colours, the underline.
pub open spec fn place(sgr: Sgr) -> int {
    match sgr {
        Sgr::Switch(Switch::Reverse, false) => 0,
        Sgr::Intensity(Intensity::Normal) => 1,
        Sgr::Switch(Switch::Italic, false) => 2,
        Sgr::Switch(Switch::StrikeThrough, false) => 3,
        Sgr::Switch(Switch::Invisible, false) => 4,
        Sgr::Blink(Blink::Off) => 5,
        Sgr::Switch(Switch::Reverse, true) => 6,
        Sgr::Intensity(Intensity::Bold) => 7,
        Sgr::Intensity(Intensity::Dim) => 8,
        Sgr::Switch(Switch::Italic, true) => 9,
        Sgr::Switch(Switch::StrikeThrough, true) => 10,
        Sgr::Switch(Switch::Invisible, true) => 11,
        Sgr::Blink(Blink::Slow) => 12,
        Sgr::Blink(Blink::Rapid) => 13,
        Sgr::Color(ColorTarget::Foreground, _) => 14,
        Sgr::Color(ColorTarget::Background, _) => 15,
        Sgr::Color(ColorTarget::Underline, _) => 16,
        Sgr::Underline(_) => 17,
        Sgr::Reset => 18,
    }
}

/// The place of a piece, if it is a rendition change.
pub open spec fn place_of(piece: Output) -> int {
    match piece {
        Output::Escape(Escape::Sgr(sgr)) => place(sgr),
        _ => -1,
    }
}

/// Whether every piece is a rendition change, each comes after those of earlier places, none
/// of a place comes twice, and all places are below the bound.
pub open spec fn in_order(pieces: Seq<Output>, bound: int) -> bool {
    &&& forall|i: int| 0 <= i < pieces.len() ==> 0 <= #[trigger] place_of(pieces[i]) < bound
    &&& forall|i: int, j: int|
        0 <= i < j < pieces.len() ==> #[trigger] place_of(pieces[i]) < #[trigger] place_of(pieces[j])
}

/// A change of the next place keeps the order, whether it is sent or not.
pub(crate) proof fn order_goes_on(pieces: Seq<Output>, condition: bool, sgr: Sgr)
    requires
        in_order(pieces, place(sgr)),
    ensures
        in_order(pieces + rendition_if(condition, sgr), place(sgr) + 1),
{
    reveal(rendition_if);
    let longer = pieces + rendition_if(condition, sgr);
    assert forall|i: int| 0 <= i < longer.len() implies 0 <= #[trigger] place_of(longer[i]) < place(
        sgr,
    ) + 1 by {
        if i < pieces.len() {
            assert(longer[i] == pieces[i]);
        } else {
            assert(longer[i] == rendition(sgr));
        }
    }
    assert forall|i: int, j: int| 0 <= i < j < longer.len() implies #[trigger] place_of(longer[i])
        < #[trigger] place_of(longer[j]) by {
        assert(longer[i] == pieces[i]);
        if j < pieces.len() {
            assert(longer[j] == pieces[j]);
        } else {
            assert(longer[j] == rendition(sgr));
        }
    }
}

/// The rendition changes that modifiers may need, in order.
spec fn changes() -> Seq<Sgr> {
    seq![
        Sgr::Switch(Switch::Reverse, false),
        Sgr::Intensity(Intensity::Normal),
        Sgr::Switch(Switch::Italic, false),
        Sgr::Switch(Switch::StrikeThrough, false),
        Sgr::Switch(Switch::Invisible, false),
        Sgr::Blink(Blink::Off),
        Sgr::Switch(Switch::Reverse, true),
        Sgr::Intensity(Intensity::Bold),
        Sgr::Intensity(Intensity::Dim),
        Sgr::Switch(Switch::Italic, true),
        Sgr::Switch(Switch::StrikeThrough, true),
        Sgr::Switch(Switch::Invisible, true),
        Sgr::Blink(Blink::Slow),
        Sgr::Blink(Blink::Rapid),
    ]
}

/// Which of these changes a change of modifiers needs.
spec fn needs(diff: ModifierDiff) -> Seq<bool> {
    seq![
        diff.loses(Modifier::REVERSED),
        diff.loses(Modifier::BOLD) || diff.loses(Modifier::DIM),
        diff.loses(Modifier::ITALIC),
        diff.loses(Modifier::CROSSED_OUT),
        diff.loses(Modifier::HIDDEN),
        diff.loses(Modifier::SLOW_BLINK) || diff.loses(Modifier::RAPID_BLINK),
        diff.gains(Modifier::REVERSED),
        diff.gains(Modifier::BOLD),
        diff.gains(Modifier::DIM),
        diff.gains(Modifier::ITALIC),
        diff.gains(Modifier::CROSSED_OUT),
        diff.gains(Modifier::HIDDEN),
        diff.gains(Modifier::SLOW_BLINK),
        diff.gains(Modifier::RAPID_BLINK),
    ]
}

/// What is sent for a change of modifiers is the changes that it needs, in order.
proof fn outputs_are_a_run(diff: ModifierDiff)
    ensures
        diff.outputs() == run_of(needs(diff), changes(), 14),
{
    let c = needs(diff);
    let s = changes();
    six_in_a_row(c, s);
    assert(diff.removals() == run_of(c, s, 6));
    additions_follow(c, s);
}

/// A change of modifiers sends rendition changes alone, each at most once: first what goes
/// off, then what comes on.
pub proof fn modifier_changes_are_in_order(diff: ModifierDiff)
    ensures
        in_order(diff.outputs(), 14),
{
    runs_are_in_order(needs(diff), changes(), 14);
    outputs_are_a_run(diff);
}

/// Whether a change from the modifiers with the bits `from` to those with the bits `to`
/// takes this bit away.
pub open spec fn drops(from: u16, to: u16, bit: u16) -> bool {
    from & bit != 0 && to & bit == 0
}

/// A change of modifiers sends a rendition change exactly when the modifier of that name
/// comes or goes by its bit: normal intensity when bold or dim goes, and no blinking when
/// blinking of either speed goes.
pub proof fn modifier_changes_are_sent(from: u16, to: u16)
    ensures
        ({
            let diff = ModifierDiff { from: Modifier { bits: from }, to: Modifier { bits: to } };
            let out = diff.outputs();
            &&& out.contains(rendition(Sgr::Switch(Switch::Reverse, false))) <==> drops(from, to, 0x040)
            &&& out.contains(rendition(Sgr::Intensity(Intensity::Normal))) <==> drops(from, to, 0x001)
                || drops(from, to, 0x002)
            &&& out.contains(rendition(Sgr::Switch(Switch::Italic, false))) <==> drops(from, to, 0x004)
            &&& out.contains(rendition(Sgr::Switch(Switch::StrikeThrough, false))) <==> drops(
                from,
                to,
                0x100,
            )
            &&& out.contains(rendition(Sgr::Switch(Switch::Invisible, false))) <==> drops(
                from,
                to,
                0x080,
            )
            &&& out.contains(rendition(Sgr::Blink(Blink::Off))) <==> drops(from, to, 0x010) || drops(
                from,
                to,
                0x020,
            )
            &&& out.contains(rendition(Sgr::Switch(Switch::Reverse, true))) <==> drops(to, from, 0x040)
            &&& out.contains(rendition(Sgr::Intensity(Intensity::Bold))) <==> drops(to, from, 0x001)
            &&& out.contains(rendition(Sgr::Intensity(Intensity::Dim))) <==> drops(to, from, 0x002)
            &&& out.contains(rendition(Sgr::Switch(Switch::Italic, true))) <==> drops(to, from, 0x004)
            &&& out.contains(rendition(Sgr::Switch(Switch::StrikeThrough, true))) <==> drops(
                to,
                from,
                0x100,
            )
            &&& out.contains(rendition(Sgr::Switch(Switch::Invisible, true))) <==> drops(
                to,
                from,
                0x080,
            )
            &&& out.contains(rendition(Sgr::Blink(Blink::Slow))) <==> drops(to, from, 0x010)
            &&& out.contains(rendition(Sgr::Blink(Blink::Rapid))) <==> drops(to, from, 0x020)
        }),
{
    let diff = ModifierDiff { from: Modifier { bits: from }, to: Modifier { bits: to } };
    outputs_are_a_run(diff);
    modifiers_are_bits(diff.from);
    modifiers_are_bits(diff.to);
    let c = needs(diff);
    let s = changes();
    assert forall|k: int| 0 <= k < 14 implies (run_of(c, s, 14).contains(
        rendition(#[trigger] s[k]),
    ) <==> c[k]) by {
        runs_hold_what_is_needed(c, s, 14, k);
    }
    let settled = |k: int| 0 <= k < 14 ==> (run_of(c, s, 14).contains(rendition(s[k])) <==> c[k]);
    assert(settled(0) && settled(1) && settled(2) && settled(3) && settled(4) && settled(5));
    assert(settled(6) && settled(7) && settled(8) && settled(9) && settled(10) && settled(11));
    assert(settled(12) && settled(13));
}

/// A run with a rendition change behind it holds what the run holds, and the change if it is
/// sent.
pub(crate) proof fn run_holds_one_more(run: Seq<Output>, condition: bool, sgr: Sgr, piece: Output)
    ensures
        (run + rendition_if(condition, sgr)).contains(piece) <==> run.contains(piece) || (condition
            && piece == rendition(sgr)),
{
    reveal(rendition_if);
    let longer = run + rendition_if(condition, sgr);
    if run.contains(piece) {
        let i = choose|i: int| 0 <= i < run.len() && run[i] == piece;
        assert(longer[i] == piece);
    }
    if condition && piece == rendition(sgr) {
        assert(longer[run.len() as int] == piece);
    }
    if longer.contains(piece) {
        let i = choose|i: int| 0 <= i < longer.len() && longer[i] == piece;
        if i < run.len() {
            assert(run[i] == piece);
        }
    }
}

/// A run holds a change exactly when the change is among its first and its condition holds.
proof fn runs_hold_what_is_needed(conditions: Seq<bool>, sgrs: Seq<Sgr>, n: nat, k: int)
    requires
        n <= sgrs.len(),
        0 <= k < sgrs.len(),
        forall|i: int| 0 <= i < sgrs.len() ==> place(#[trigger] sgrs[i]) == i,
    ensures
        run_of(conditions, sgrs, n).contains(rendition(sgrs[k])) <==> k < n && conditions[k],
    decreases n,
{
    let wanted = rendition(sgrs[k]);
    if n > 0 {
        let before = run_of(conditions, sgrs, (n - 1) as nat);
        let run = run_of(conditions, sgrs, n);
        runs_hold_what_is_needed(conditions, sgrs, (n - 1) as nat, k);
        reveal(rendition_if);
        assert(place(sgrs[k]) == k && place(sgrs[n - 1]) == n - 1);
        if before.contains(wanted) {
            let i = choose|i: int| 0 <= i < before.len() && before[i] == wanted;
            assert(run[i] == wanted);
        }
        if k == n - 1 && conditions[k] {
            assert(run[before.len() as int] == wanted);
        }
        if run.contains(wanted) {
            let i = choose|i: int| 0 <= i < run.len() && run[i] == wanted;
            if i < before.len() {
                assert(before[i] == wanted);
            } else {
                assert(run[i] == rendition(sgrs[n - 1]));
            }
        }
    }
}

/// The first rendition changes of some, each if its condition holds.
spec fn run_of(conditions: Seq<bool>, sgrs: Seq<Sgr>, n: nat) -> Seq<Output>
    decreases n,
{
    if n == 0 {
        seq![]
    } else {
        run_of(conditions, sgrs, (n - 1) as nat) + rendition_if(conditions[n - 1], sgrs[n - 1])
    }
}

/// Rendition changes at their places are in order.
proof fn runs_are_in_order(conditions: Seq<bool>, sgrs: Seq<Sgr>, n: nat)
    requires
        n <= sgrs.len(),
        forall|i: int| 0 <= i < sgrs.len() ==> place(#[trigger] sgrs[i]) == i,
    ensures
        in_order(run_of(conditions, sgrs, n), n as int),
    decreases n,
{
    if n > 0 {
        runs_are_in_order(conditions, sgrs, (n - 1) as nat);
        let before = run_of(conditions, sgrs, (n - 1) as nat);
        order_goes_on(before, conditions[n - 1], sgrs[n - 1]);
    }
}

/// Six changes, written out.
proof fn six_in_a_row(c: Seq<bool>, s: Seq<Sgr>)
    ensures
        run_of(c, s, 6) == rendition_if(c[0], s[0]) + rendition_if(c[1], s[1]) + rendition_if(
            c[2],
            s[2],
        ) + rendition_if(c[3], s[3]) + rendition_if(c[4], s[4]) + rendition_if(c[5], s[5]),
{
    reveal_with_fuel(run_of, 7);
    empty_run(rendition_if(c[0], s[0]));
}

/// Eight changes more, written out.
proof fn additions_follow(c: Seq<bool>, s: Seq<Sgr>)
    ensures
        run_of(c, s, 14) == run_of(c, s, 6) + (rendition_if(c[6], s[6]) + rendition_if(c[7], s[7])
            + rendition_if(c[8], s[8]) + rendition_if(c[9], s[9]) + rendition_if(c[10], s[10])
            + rendition_if(c[11], s[11]) + rendition_if(c[12], s[12]) + rendition_if(c[13], s[13])),
{
    let start = run_of(c, s, 6);
    let mut run = Seq::<Output>::empty();
    assert(start + run == start);
    run = concat_run(start, run, rendition_if(c[6], s[6]));
    assert(run_of(c, s, 7) == start + run);
    run = concat_run(start, run, rendition_if(c[7], s[7]));
    assert(run_of(c, s, 8) == start + run);
    run = concat_run(start, run, rendition_if(c[8], s[8]));
    assert(run_of(c, s, 9) == start + run);
    run = concat_run(start, run, rendition_if(c[9], s[9]));
    assert(run_of(c, s, 10) == start + run);
    run = concat_run(start, run, rendition_if(c[10], s[10]));
    assert(run_of(c, s, 11) == start + run);
    run = concat_run(start, run, rendition_if(c[11], s[11]));
    assert(run_of(c, s, 12) == start + run);
    run = concat_run(start, run, rendition_if(c[12], s[12]));
    assert(run_of(c, s, 13) == start + run);
    run = concat_run(start, run, rendition_if(c[13], s[13]));
    assert(run_of(c, s, 14) == start + run);
}

} // verus!
