//! What all controllers have in common: the normalised input report, and the choice of the
//! protocol that a device speaks.

use crate::ds5;
use crate::ds5::Ds5Host;
use crate::errors::{GamepadError, HidError};
use crate::text;
use crate::usb_host::EnumerationInfo;
use crate::xinput;
use crate::xinput::{OpenedPipes, PipePlan, XInputHost, XInputInterfaceInfo};
use vstd::prelude::*;
use vstd::string::StringExecFns;

verus! {

/// One decoded input report.
///
/// The ranges are those of an Xbox 360 controller: triggers 0 to 255, sticks -32768 to
/// 32767 with right and up positive. Each protocol converts its own units to these.
#[derive(Clone, Copy, Debug, PartialEq, Eq, Structural)]
pub struct GamepadReport {
    /// Directional pad up.
    pub dpad_up: bool,
    /// Directional pad down.
    pub dpad_down: bool,
    /// Directional pad left.
    pub dpad_left: bool,
    /// Directional pad right.
    pub dpad_right: bool,
    /// A (DualSense: cross).
    pub a: bool,
    /// B (DualSense: circle).
    pub b: bool,
    /// X (DualSense: square).
    pub x: bool,
    /// Y (DualSense: triangle).
    pub y: bool,
    /// Left bumper (LB or L1).
    pub left_bumper: bool,
    /// Right bumper (RB or R1).
    pub right_bumper: bool,
    /// Left stick pressed (LS or L3).
    pub left_stick_press: bool,
    /// Right stick pressed (RS or R3).
    pub right_stick_press: bool,
    /// Start (DualSense: Options).
    pub start: bool,
    /// Back (DualSense: Create).
    pub back: bool,
    /// The button in the middle (Xbox or PS).
    pub guide: bool,
    /// Left trigger.
    pub left_trigger: u8,
    /// Right trigger.
    pub right_trigger: u8,
    /// Left stick, positive to the right.
    pub left_stick_x: i16,
    /// Left stick, positive upwards.
    pub left_stick_y: i16,
    /// Right stick, positive to the right.
    pub right_stick_x: i16,
    /// Right stick, positive upwards.
    pub right_stick_y: i16,
}

/// The report of a controller that nobody touches.
pub open spec fn idle_report() -> GamepadReport {
    GamepadReport {
        dpad_up: false,
        dpad_down: false,
        dpad_left: false,
        dpad_right: false,
        a: false,
        b: false,
        x: false,
        y: false,
        left_bumper: false,
        right_bumper: false,
        left_stick_press: false,
        right_stick_press: false,
        start: false,
        back: false,
        guide: false,
        left_trigger: 0,
        right_trigger: 0,
        left_stick_x: 0,
        left_stick_y: 0,
        right_stick_x: 0,
        right_stick_y: 0,
    }
}

impl Default for GamepadReport {
    fn default() -> (r: Self)
        ensures
            r == idle_report(),
    {
        GamepadReport {
            dpad_up: false,
            dpad_down: false,
            dpad_left: false,
            dpad_right: false,
            a: false,
            b: false,
            x: false,
            y: false,
            left_bumper: false,
            right_bumper: false,
            left_stick_press: false,
            right_stick_press: false,
            start: false,
            back: false,
            guide: false,
            left_trigger: 0,
            right_trigger: 0,
            left_stick_x: 0,
            left_stick_y: 0,
            right_stick_x: 0,
            right_stick_y: 0,
        }
    }
}

/// Two numbers in round brackets.
pub open spec fn pair_text(x: int, y: int) -> Seq<char> {
    "("@ + text::signed_decimal(x) + ", "@ + text::signed_decimal(y) + ")"@
}

impl GamepadReport {
    /// Every button with the name that it is shown under, in the order of display.
    pub open spec fn named_buttons(self) -> Seq<(bool, Seq<char>)> {
        seq![
            (self.a, "A"@),
            (self.b, "B"@),
            (self.x, "X"@),
            (self.y, "Y"@),
            (self.left_bumper, "LB"@),
            (self.right_bumper, "RB"@),
            (self.left_stick_press, "LS"@),
            (self.right_stick_press, "RS"@),
            (self.start, "Start"@),
            (self.back, "Back"@),
            (self.guide, "Guide"@),
            (self.dpad_up, "Up"@),
            (self.dpad_down, "Down"@),
            (self.dpad_left, "Left"@),
            (self.dpad_right, "Right"@),
        ]
    }

    /// The report as one line of text.
    pub open spec fn text(self) -> Seq<char> {
        "buttons=["@ + text::spaced(text::chosen(self.named_buttons())) + "] LT="@ + text::decimal(
            self.left_trigger as nat,
        ) + " RT="@ + text::decimal(self.right_trigger as nat) + " L="@ + pair_text(
            self.left_stick_x as int,
            self.left_stick_y as int,
        ) + " R="@ + pair_text(self.right_stick_x as int, self.right_stick_y as int)
    }

    /// The report as one line, such as
    /// `buttons=[A LB] LT=0 RT=255 L=(0, 0) R=(12000, -9000)`.
    pub fn to_string(&self) -> (s: String)
        ensures
            s@ == self.text(),
    {
        let buttons: Vec<(bool, &'static str)> = vec![
            (self.a, "A"),
            (self.b, "B"),
            (self.x, "X"),
            (self.y, "Y"),
            (self.left_bumper, "LB"),
            (self.right_bumper, "RB"),
            (self.left_stick_press, "LS"),
            (self.right_stick_press, "RS"),
            (self.start, "Start"),
            (self.back, "Back"),
            (self.guide, "Guide"),
            (self.dpad_up, "Up"),
            (self.dpad_down, "Down"),
            (self.dpad_left, "Left"),
            (self.dpad_right, "Right"),
        ];
        assert(text::marked(buttons@) =~= self.named_buttons());

        let mut out = String::new();
        out.append("buttons=[");
        text::push_chosen(&mut out, buttons.as_slice());
        out.append("] LT=");
        text::push_decimal(&mut out, self.left_trigger as u64);
        out.append(" RT=");
        text::push_decimal(&mut out, self.right_trigger as u64);
        out.append(" L=");
        push_pair(&mut out, self.left_stick_x, self.left_stick_y);
        out.append(" R=");
        push_pair(&mut out, self.right_stick_x, self.right_stick_y);
        out
    }
}

/// Appends two numbers in round brackets.
fn push_pair(out: &mut String, x: i16, y: i16)
    ensures
        final(out)@ == old(out)@ + pair_text(x as int, y as int),
{
    out.append("(");
    text::push_signed(out, x as i64);
    out.append(", ");
    text::push_signed(out, y as i64);
    out.append(")");
    assert(out@ =~= old(out)@ + pair_text(x as int, y as int));
}

/// The place of a button's name in the order of display, told by its length and its first
/// and last characters.
spec fn place_of(name: Seq<char>) -> int {
    let (first, last) = (name[0], name.last());
    if name.len() == 1 {
        if first == 'A' {
            0
        } else if first == 'B' {
            1
        } else if first == 'X' {
            2
        } else {
            3
        }
    } else if name.len() == 2 {
        if first == 'L' {
            if last == 'B' {
                4
            } else {
                6
            }
        } else if first == 'R' {
            if last == 'B' {
                5
            } else {
                7
            }
        } else {
            11
        }
    } else if first == 'S' {
        8
    } else if name.len() == 4 && first == 'B' {
        9
    } else if first == 'G' {
        10
    } else if first == 'D' {
        12
    } else if first == 'L' {
        13
    } else {
        14
    }
}

/// The name is a word without a bracket, and its place is the given one.
#[verifier::opaque]
spec fn is_button_name(name: Seq<char>, place: int) -> bool {
    text::is_word(name) && !name.contains(']') && place_of(name) == place
}

/// The names of the buttons are words without brackets, each with a place of its own.
proof fn lemma_button_names(r: GamepadReport)
    ensures
        r.named_buttons().len() == 15,
        forall|i: int| 0 <= i < 15 ==> is_button_name((#[trigger] r.named_buttons()[i]).1, i),
{
    assert(is_button_name("A"@, 0)) by {
        reveal(is_button_name);
        reveal_strlit("A");
    }
    assert(is_button_name("B"@, 1)) by {
        reveal(is_button_name);
        reveal_strlit("B");
    }
    assert(is_button_name("X"@, 2)) by {
        reveal(is_button_name);
        reveal_strlit("X");
    }
    assert(is_button_name("Y"@, 3)) by {
        reveal(is_button_name);
        reveal_strlit("Y");
    }
    assert(is_button_name("LB"@, 4)) by {
        reveal(is_button_name);
        reveal_strlit("LB");
    }
    assert(is_button_name("RB"@, 5)) by {
        reveal(is_button_name);
        reveal_strlit("RB");
    }
    assert(is_button_name("LS"@, 6)) by {
        reveal(is_button_name);
        reveal_strlit("LS");
    }
    assert(is_button_name("RS"@, 7)) by {
        reveal(is_button_name);
        reveal_strlit("RS");
    }
    assert(is_button_name("Start"@, 8)) by {
        reveal(is_button_name);
        reveal_strlit("Start");
    }
    assert(is_button_name("Back"@, 9)) by {
        reveal(is_button_name);
        reveal_strlit("Back");
    }
    assert(is_button_name("Guide"@, 10)) by {
        reveal(is_button_name);
        reveal_strlit("Guide");
    }
    assert(is_button_name("Up"@, 11)) by {
        reveal(is_button_name);
        reveal_strlit("Up");
    }
    assert(is_button_name("Down"@, 12)) by {
        reveal(is_button_name);
        reveal_strlit("Down");
    }
    assert(is_button_name("Left"@, 13)) by {
        reveal(is_button_name);
        reveal_strlit("Left");
    }
    assert(is_button_name("Right"@, 14)) by {
        reveal(is_button_name);
        reveal_strlit("Right");
    }
}

impl GamepadReport {
    /// The names of the pressed buttons.
    spec fn buttons_text(self) -> Seq<char> {
        text::spaced(text::chosen(self.named_buttons()))
    }

    /// What stands behind the buttons in the text of a report.
    spec fn triggers_text(self) -> Seq<char> {
        " LT="@ + (text::decimal(self.left_trigger as nat) + seq![' '] + ("RT="@ + (text::decimal(
            self.right_trigger as nat,
        ) + seq![' '] + self.left_text())))
    }

    /// What stands behind the triggers in the text of a report.
    spec fn left_text(self) -> Seq<char> {
        "L=("@ + (text::signed_decimal(self.left_stick_x as int) + seq![','] + (" "@ + (
        text::signed_decimal(self.left_stick_y as int) + seq![')'] + self.right_text())))
    }

    /// What stands behind the left stick in the text of a report.
    spec fn right_text(self) -> Seq<char> {
        " R=("@ + (text::signed_decimal(self.right_stick_x as int) + seq![','] + (" "@ + (
        text::signed_decimal(self.right_stick_y as int) + seq![')'] + Seq::empty())))
    }
}

/// The text of a pair of numbers and what follows, put together from the end.
proof fn lemma_pair_form(x: int, y: int, rest: Seq<char>)
    ensures
        pair_text(x, y) + rest == "("@ + (text::signed_decimal(x) + seq![','] + (" "@ + (
        text::signed_decimal(y) + seq![')'] + rest))),
{
    reveal_strlit(", ");
    reveal_strlit(" ");
    reveal_strlit(")");
    assert(", "@ =~= seq![','] + " "@);
    assert(")"@ =~= seq![')']);
    let (a, b) = (text::signed_decimal(x), text::signed_decimal(y));
    let (open, comma, space, close) = ("("@, seq![','], " "@, seq![')']);
    assert(open + a + (comma + space) + b + close + rest =~= open + (a + comma + (space + (b + close
        + rest))));
}

/// The text of a report, put together from the end.
proof fn lemma_report_form(r: GamepadReport)
    ensures
        r.text() == "buttons=["@ + (r.buttons_text() + seq![']'] + r.triggers_text()),
{
    reveal_strlit("] LT=");
    reveal_strlit(" LT=");
    reveal_strlit(" RT=");
    reveal_strlit("RT=");
    reveal_strlit(" L=");
    reveal_strlit("L=(");
    reveal_strlit("(");
    reveal_strlit(" R=");
    reveal_strlit(" R=(");
    assert("] LT="@ =~= seq![']'] + " LT="@);
    assert(" RT="@ =~= seq![' '] + "RT="@);
    assert(" L="@ + "("@ =~= seq![' '] + "L=("@);
    assert(" R="@ + "("@ =~= " R=("@);
    let left = pair_text(r.left_stick_x as int, r.left_stick_y as int);
    let right = pair_text(r.right_stick_x as int, r.right_stick_y as int);
    let (rx, ry) = (r.right_stick_x as int, r.right_stick_y as int);
    let (lx, ly) = (r.left_stick_x as int, r.left_stick_y as int);
    assert(" R="@ + right == r.right_text()) by {
        lemma_pair_form(rx, ry, Seq::empty());
        assert(right + Seq::empty() =~= right);
        let inner = text::signed_decimal(rx) + seq![','] + (" "@ + (text::signed_decimal(ry)
            + seq![')'] + Seq::empty()));
        text::lemma_regroup(" R="@, "("@, inner);
    }
    assert(" L="@ + (left + r.right_text()) == seq![' '] + r.left_text()) by {
        lemma_pair_form(lx, ly, r.right_text());
        let inner = text::signed_decimal(lx) + seq![','] + (" "@ + (text::signed_decimal(ly)
            + seq![')'] + r.right_text()));
        text::lemma_regroup(" L="@, "("@, inner);
        text::lemma_regroup(seq![' '], "L=("@, inner);
    }
    let (lt, rt) = (
        text::decimal(r.left_trigger as nat),
        text::decimal(r.right_trigger as nat),
    );
    let head = "buttons=["@ + r.buttons_text();
    let (k1, k2, k3, k4) = ("] LT="@, " RT="@, " L="@, " R="@);
    assert(head + k1 + lt + k2 + rt + k3 + left + k4 + right == head + k1 + lt + k2 + rt + (k3 + (
    left + (k4 + right)))) by {
        let front = head + k1 + lt + k2 + rt;
        text::lemma_regroup(front + k3 + left, k4, right);
        text::lemma_regroup(front + k3, left, k4 + right);
        text::lemma_regroup(front, k3, left + (k4 + right));
    }
    let end = seq![' '] + r.left_text();
    assert(head + k1 + lt + k2 + rt + end == "buttons=["@ + (r.buttons_text() + (k1 + (lt + (k2 + (rt
        + end)))))) by {
        text::lemma_regroup(head + k1 + lt + k2, rt, end);
        text::lemma_regroup(head + k1 + lt, k2, rt + end);
        text::lemma_regroup(head + k1, lt, k2 + (rt + end));
        text::lemma_regroup(head, k1, lt + (k2 + (rt + end)));
        text::lemma_regroup("buttons=["@, r.buttons_text(), k1 + (lt + (k2 + (rt + end))));
    }
    text::lemma_regroup(rt, seq![' '], r.left_text());
    let e2 = rt + end;
    text::lemma_regroup(seq![' '], "RT="@, e2);
    text::lemma_regroup(lt, seq![' '], "RT="@ + e2);
    let e1 = lt + (k2 + e2);
    text::lemma_regroup(seq![']'], " LT="@, e1);
    text::lemma_regroup(r.buttons_text(), seq![']'], " LT="@ + e1);
}

/// Both lists have the same marks.
spec fn same_marks(v: Seq<(bool, Seq<char>)>, w: Seq<(bool, Seq<char>)>) -> bool {
    forall|i: int| 0 <= i < 15 ==> (#[trigger] v[i]).0 == (#[trigger] w[i]).0
}

/// The buttons that are shown are those that are pressed.
proof fn lemma_buttons_text_is_faithful(p: GamepadReport, q: GamepadReport)
    ensures
        !p.buttons_text().contains(']'),
        p.buttons_text() == q.buttons_text() ==> same_marks(p.named_buttons(), q.named_buttons()),
{
    let (v, w) = (p.named_buttons(), q.named_buttons());
    lemma_button_names(p);
    lemma_button_names(q);
    text::lemma_chosen_are_given(v);
    text::lemma_chosen_are_given(w);
    assert forall|i: int| 0 <= i < text::chosen(v).len() implies text::is_word(
        #[trigger] text::chosen(v)[i],
    ) && !text::chosen(v)[i].contains(']') by {
        reveal(is_button_name);
        assert(text::is_given(v, text::chosen(v)[i]));
        let k = choose|k: int| 0 <= k < v.len() && (#[trigger] v[k]).1 == text::chosen(v)[i];
        assert(is_button_name(v[k].1, k));
    }
    assert forall|i: int| 0 <= i < text::chosen(w).len() implies text::is_word(
        #[trigger] text::chosen(w)[i],
    ) by {
        reveal(is_button_name);
        assert(text::is_given(w, text::chosen(w)[i]));
        let k = choose|k: int| 0 <= k < w.len() && (#[trigger] w[k]).1 == text::chosen(w)[i];
        assert(is_button_name(w[k].1, k));
    }
    text::lemma_spaced_without(text::chosen(v), ']');
    if p.buttons_text() == q.buttons_text() {
        text::lemma_spaced_is_faithful(text::chosen(v), text::chosen(w));
        assert forall|i: int, j: int| 0 <= i < j < v.len() implies (#[trigger] v[i]).1 != (
        #[trigger] v[j]).1 by {
            reveal(is_button_name);
            assert(is_button_name(v[i].1, i) && is_button_name(v[j].1, j));
        }
        text::lemma_chosen_is_faithful(v, w);
    }
}

/// The mark of every button, by its place.
proof fn lemma_button_places(r: GamepadReport)
    ensures
        r.named_buttons()[0].0 == r.a,
        r.named_buttons()[1].0 == r.b,
        r.named_buttons()[2].0 == r.x,
        r.named_buttons()[3].0 == r.y,
        r.named_buttons()[4].0 == r.left_bumper,
        r.named_buttons()[5].0 == r.right_bumper,
        r.named_buttons()[6].0 == r.left_stick_press,
        r.named_buttons()[7].0 == r.right_stick_press,
        r.named_buttons()[8].0 == r.start,
        r.named_buttons()[9].0 == r.back,
        r.named_buttons()[10].0 == r.guide,
        r.named_buttons()[11].0 == r.dpad_up,
        r.named_buttons()[12].0 == r.dpad_down,
        r.named_buttons()[13].0 == r.dpad_left,
        r.named_buttons()[14].0 == r.dpad_right,
{
}

/// The same marks are the same buttons.
proof fn lemma_same_buttons(p: GamepadReport, q: GamepadReport)
    requires
        same_marks(p.named_buttons(), q.named_buttons()),
    ensures
        p.a == q.a,
        p.b == q.b,
        p.x == q.x,
        p.y == q.y,
        p.left_bumper == q.left_bumper,
        p.right_bumper == q.right_bumper,
        p.left_stick_press == q.left_stick_press,
        p.right_stick_press == q.right_stick_press,
        p.start == q.start,
        p.back == q.back,
        p.guide == q.guide,
        p.dpad_up == q.dpad_up,
        p.dpad_down == q.dpad_down,
        p.dpad_left == q.dpad_left,
        p.dpad_right == q.dpad_right,
{
    lemma_button_places(p);
    lemma_button_places(q);
}

/// The same text has the same buttons and the same rest.
proof fn lemma_same_text(p: GamepadReport, q: GamepadReport, b: Seq<char>)
    requires
        b + (p.buttons_text() + seq![']'] + p.triggers_text()) == b + (q.buttons_text() + seq![']']
            + q.triggers_text()),
    ensures
        same_marks(p.named_buttons(), q.named_buttons()),
        p.triggers_text() == q.triggers_text(),
{
    lemma_buttons_text_is_faithful(p, q);
    lemma_buttons_text_is_faithful(q, p);
    text::lemma_same_lengths(
        b,
        p.buttons_text() + seq![']'] + p.triggers_text(),
        b,
        q.buttons_text() + seq![']'] + q.triggers_text(),
    );
    text::lemma_split_at_first(
        p.buttons_text(),
        p.triggers_text(),
        q.buttons_text(),
        q.triggers_text(),
        ']',
    );
}

proof fn lemma_triggers_text_is_faithful(p: GamepadReport, q: GamepadReport)
    requires
        p.triggers_text() == q.triggers_text(),
    ensures
        p.left_trigger == q.left_trigger,
        p.right_trigger == q.right_trigger,
        p.left_text() == q.left_text(),
{
    let (a, b) = (p.left_trigger as nat, q.left_trigger as nat);
    let (c, d) = (p.right_trigger as nat, q.right_trigger as nat);
    let (x, y) = (
        "RT="@ + (text::decimal(c) + seq![' '] + p.left_text()),
        "RT="@ + (text::decimal(d) + seq![' '] + q.left_text()),
    );
    text::lemma_decimal_digits(a);
    text::lemma_decimal_digits(b);
    text::lemma_decimal_digits(c);
    text::lemma_decimal_digits(d);
    let (k1, k2) = (" LT="@, "RT="@);
    text::lemma_same_lengths(
        k1,
        text::decimal(a) + seq![' '] + x,
        k1,
        text::decimal(b) + seq![' '] + y,
    );
    text::lemma_split_at_first(text::decimal(a), x, text::decimal(b), y, ' ');
    text::lemma_same_lengths(
        k2,
        text::decimal(c) + seq![' '] + p.left_text(),
        k2,
        text::decimal(d) + seq![' '] + q.left_text(),
    );
    text::lemma_split_at_first(
        text::decimal(c),
        p.left_text(),
        text::decimal(d),
        q.left_text(),
        ' ',
    );
    text::lemma_decimal_is_faithful(a, b);
    text::lemma_decimal_is_faithful(c, d);
}

/// Two numbers behind the same opening, with what follows, can be read back.
proof fn lemma_pair_is_faithful(
    k: Seq<char>,
    a: int,
    b: int,
    x: Seq<char>,
    c: int,
    d: int,
    y: Seq<char>,
)
    requires
        k + (text::signed_decimal(a) + seq![','] + (" "@ + (text::signed_decimal(b) + seq![')']
            + x))) == k + (text::signed_decimal(c) + seq![','] + (" "@ + (text::signed_decimal(d)
            + seq![')'] + y))),
    ensures
        a == c,
        b == d,
        x == y,
{
    let (sa, sb) = (text::signed_decimal(a), text::signed_decimal(b));
    let (sc, sd) = (text::signed_decimal(c), text::signed_decimal(d));
    text::lemma_signed_chars(a);
    text::lemma_signed_chars(b);
    text::lemma_signed_chars(c);
    text::lemma_signed_chars(d);
    let u = " "@ + (sb + seq![')'] + x);
    let v = " "@ + (sd + seq![')'] + y);
    text::lemma_same_lengths(k, sa + seq![','] + u, k, sc + seq![','] + v);
    text::lemma_split_at_first(sa, u, sc, v, ',');
    text::lemma_same_lengths(" "@, sb + seq![')'] + x, " "@, sd + seq![')'] + y);
    text::lemma_split_at_first(sb, x, sd, y, ')');
    text::lemma_signed_is_faithful(a, c);
    text::lemma_signed_is_faithful(b, d);
}

proof fn lemma_left_text_is_faithful(p: GamepadReport, q: GamepadReport)
    requires
        p.left_text() == q.left_text(),
    ensures
        p.left_stick_x == q.left_stick_x,
        p.left_stick_y == q.left_stick_y,
        p.right_text() == q.right_text(),
{
    lemma_pair_is_faithful(
        "L=("@,
        p.left_stick_x as int,
        p.left_stick_y as int,
        p.right_text(),
        q.left_stick_x as int,
        q.left_stick_y as int,
        q.right_text(),
    );
}

proof fn lemma_right_text_is_faithful(p: GamepadReport, q: GamepadReport)
    requires
        p.right_text() == q.right_text(),
    ensures
        p.right_stick_x == q.right_stick_x,
        p.right_stick_y == q.right_stick_y,
{
    lemma_pair_is_faithful(
        " R=("@,
        p.right_stick_x as int,
        p.right_stick_y as int,
        Seq::empty(),
        q.right_stick_x as int,
        q.right_stick_y as int,
        Seq::empty(),
    );
}

/// Everything that a report says shows in its text: two reports have the same text exactly
/// when they are the same.
pub proof fn lemma_text_is_faithful(p: GamepadReport, q: GamepadReport)
    ensures
        p.text() == q.text() <==> p == q,
{
    if p.text() == q.text() {
        lemma_report_form(p);
        lemma_report_form(q);
        lemma_same_text(p, q, "buttons=["@);
        lemma_triggers_text_is_faithful(p, q);
        lemma_left_text_is_faithful(p, q);
        lemma_right_text_is_faithful(p, q);
        lemma_same_buttons(p, q);
    }
}

// ── Choosing the protocol ────────────────────────────────────────────────────

/// A controller that was recognised, by its protocol.
#[derive(Clone, Copy, Debug)]
pub enum Gamepad {
    /// The wired protocol of the Xbox 360 controller.
    XInput(XInputHost),
    /// DualSense.
    Ds5(Ds5Host),
}

/// What to open on a device before [`Gamepad::try_register`].
#[derive(Clone, Copy, Debug, PartialEq, Eq, Structural)]
pub enum Candidate {
    /// These pipes.
    XInput(PipePlan),
    /// The human interface device that it is.
    Ds5,
}

/// What to send to a controller.
#[derive(Debug)]
pub enum OutputRequest {
    /// This packet, to the outward interrupt endpoint.
    XInput(Vec<u8>),
    /// A DualSense is to rumble.
    Ds5Rumble {
        /// The slow strong motor.
        strong: u8,
        /// The fast weak motor.
        weak: u8,
    },
    /// A DualSense is to show a player number from 1 to 5, or none for 0.
    Ds5PlayerIndex(u8),
}

/// Which protocol a device was recognised by.
pub enum Recognised {
    XInput(XInputHost),
    Ds5,
}

/// What a device is recognised as, given the interface that it offers, what it says it is,
/// which pipes were granted, and how opening it as a human interface device went.
pub open spec fn recognised(
    interface: Option<XInputInterfaceInfo>,
    info: EnumerationInfo,
    opened: OpenedPipes,
    hid: Result<(), HidError>,
) -> Result<Recognised, GamepadError> {
    match xinput::registered(interface, opened) {
        Ok(host) => Ok(Recognised::XInput(host)),
        Err(GamepadError::NotSupported) => match ds5::refusal(info, hid) {
            None => Ok(Recognised::Ds5),
            Some(e) => Err(e),
        },
        Err(e) => Err(e),
    }
}

/// `r` is what a device becomes that is recognised as `who`. A DualSense starts without any
/// extra data.
pub open spec fn is_registered(
    who: Result<Recognised, GamepadError>,
    r: Result<Gamepad, GamepadError>,
) -> bool {
    match who {
        Ok(Recognised::XInput(host)) => r == Ok::<Gamepad, GamepadError>(Gamepad::XInput(host)),
        Ok(Recognised::Ds5) => r matches Ok(Gamepad::Ds5(host)) && host.latest@ == ds5::no_extra(),
        Err(e) => r == Err::<Gamepad, GamepadError>(e),
    }
}

/// What is to be opened on a device; `None` where it is no controller.
pub open spec fn candidate(
    interface: Option<XInputInterfaceInfo>,
    info: EnumerationInfo,
) -> Option<Candidate> {
    match interface {
        Some(found) => Some(Candidate::XInput(xinput::pipe_plan(found))),
        None => if ds5::dualsense(info) {
            Some(Candidate::Ds5)
        } else {
            None
        },
    }
}

impl Gamepad {
    /// Says what to open on a device that was just enumerated.
    ///
    /// [`GamepadError::NotSupported`] where it is no controller.
    pub fn candidate(config_desc: &[u8], enum_info: &EnumerationInfo) -> (r: Result<
        Candidate,
        GamepadError,
    >)
        requires
            xinput::searchable(config_desc@),
        ensures
            r == (match candidate(xinput::xinput_interface(config_desc@), *enum_info) {
                Some(c) => Ok(c),
                None => Err(GamepadError::NotSupported),
            }),
    {
        match XInputHost::plan_pipes(config_desc) {
            Ok(plan) => Ok(Candidate::XInput(plan)),
            Err(e) => if ds5::is_dualsense(enum_info) {
                Ok(Candidate::Ds5)
            } else {
                Err(e)
            },
        }
    }

    /// Takes charge of a device that was just enumerated, given which pipes were granted
    /// and how opening it as a human interface device went. Only that counts which
    /// [`Gamepad::candidate`] asked for.
    ///
    /// The codes of an interface of the Xbox 360 protocol cannot be mistaken, so it comes
    /// first; a DualSense shows by its vendor and product numbers only. A device that is
    /// both is thus taken for the former. [`GamepadError::NotSupported`] where it is
    /// neither.
    pub fn try_register(
        config_desc: &[u8],
        enum_info: &EnumerationInfo,
        opened: &OpenedPipes,
        hid: Result<(), HidError>,
    ) -> (r: Result<Gamepad, GamepadError>)
        requires
            xinput::searchable(config_desc@),
        ensures
            is_registered(
                recognised(xinput::xinput_interface(config_desc@), *enum_info, *opened, hid),
                r,
            ),
    {
        match XInputHost::try_register(config_desc, opened) {
            Ok(pad) => return Ok(Gamepad::XInput(pad)),
            // Not this protocol: go on to the next.
            Err(GamepadError::NotSupported) => {},
            Err(e) => return Err(e),
        }
        match Ds5Host::try_register(enum_info, hid) {
            Ok(pad) => Ok(Gamepad::Ds5(pad)),
            Err(e) => Err(e),
        }
    }

    /// As [`Gamepad::candidate`], for any bytes: `None` where they cannot be searched for an
    /// interface of the Xbox 360 protocol.
    pub fn candidate_if_searchable(config_desc: &[u8], enum_info: &EnumerationInfo) -> (r: Option<
        Result<Candidate, GamepadError>,
    >)
        ensures
            r is Some <==> xinput::searchable(config_desc@),
            r matches Some(found) ==> found == (match candidate(
                xinput::xinput_interface(config_desc@),
                *enum_info,
            ) {
                Some(c) => Ok(c),
                None => Err(GamepadError::NotSupported),
            }),
    {
        if xinput::is_searchable(config_desc) {
            Some(Gamepad::candidate(config_desc, enum_info))
        } else {
            None
        }
    }

    /// As [`Gamepad::try_register`], for any bytes: `None` where they cannot be searched for
    /// an interface of the Xbox 360 protocol.
    pub fn register_if_searchable(
        config_desc: &[u8],
        enum_info: &EnumerationInfo,
        opened: &OpenedPipes,
        hid: Result<(), HidError>,
    ) -> (r: Option<Result<Gamepad, GamepadError>>)
        ensures
            r is Some <==> xinput::searchable(config_desc@),
            r matches Some(pad) ==> is_registered(
                recognised(xinput::xinput_interface(config_desc@), *enum_info, *opened, hid),
                pad,
            ),
    {
        if xinput::is_searchable(config_desc) {
            Some(Gamepad::try_register(config_desc, enum_info, opened, hid))
        } else {
            None
        }
    }

    /// The name of the protocol.
    pub fn protocol(&self) -> (s: &'static str)
        ensures
            s@ == (match self {
                Gamepad::XInput(_) => "XInput"@,
                Gamepad::Ds5(_) => "DualSense"@,
            }),
    {
        match self {
            Gamepad::XInput(_) => "XInput",
            Gamepad::Ds5(_) => "DualSense",
        }
    }

    /// Whether the controller has a light bar; only a DualSense has one.
    pub fn has_lightbar(&self) -> (r: bool)
        ensures
            r == (*self is Ds5),
    {
        match self {
            Gamepad::XInput(_) => false,
            Gamepad::Ds5(_) => true,
        }
    }

    /// Looks at a packet that came in. `None`: it is no input report, read on.
    pub fn poll(&mut self, packet: &[u8]) -> (r: Option<GamepadReport>)
        ensures
            match *old(self) {
                Gamepad::XInput(host) => {
                    &&& *final(self) == Gamepad::XInput(host)
                    &&& r is Some <==> xinput::is_input(packet@)
                    &&& r matches Some(report) ==> xinput::decodes_to(packet@, report)
                },
                Gamepad::Ds5(host) => {
                    &&& *final(self) matches Gamepad::Ds5(after) && after.latest@
                        == ds5::refreshed(host.latest@, packet@)
                    &&& r is Some <==> ds5::is_input(packet@)
                    &&& r matches Some(report) ==> ds5::decodes_to(packet@, report)
                },
            },
    {
        match self {
            Gamepad::XInput(pad) => pad.poll(packet),
            Gamepad::Ds5(pad) => pad.poll(packet),
        }
    }

    /// Sets both motors, the slow strong one and the fast weak one.
    ///
    /// The controller keeps rumbling by itself, so this is for changes only.
    /// [`GamepadError::NotSupported`] where the device takes no packets.
    pub fn set_rumble(&self, strong: u8, weak: u8) -> (r: Result<OutputRequest, GamepadError>)
        ensures
            self.rumble_request(strong, weak, r),
    {
        match self {
            Gamepad::XInput(pad) => match pad.set_rumble(strong, weak) {
                Ok(packet) => Ok(OutputRequest::XInput(packet)),
                Err(e) => Err(e),
            },
            Gamepad::Ds5(_) => Ok(OutputRequest::Ds5Rumble { strong, weak }),
        }
    }

    /// `r` is what setting the motors leads to.
    pub open spec fn rumble_request(
        self,
        strong: u8,
        weak: u8,
        r: Result<OutputRequest, GamepadError>,
    ) -> bool {
        match self {
            Gamepad::XInput(host) => if host.has_output {
                r matches Ok(OutputRequest::XInput(packet)) && packet@ == seq![
                    0x00u8,
                    0x08,
                    0x00,
                    strong,
                    weak,
                    0x00,
                    0x00,
                    0x00,
                ]
            } else {
                r == Err::<OutputRequest, GamepadError>(GamepadError::NotSupported)
            },
            Gamepad::Ds5(_) => r == Ok::<OutputRequest, GamepadError>(
                OutputRequest::Ds5Rumble { strong, weak },
            ),
        }
    }

    /// `r` is what showing a player number leads to.
    pub open spec fn player_request(
        self,
        index: u8,
        r: Result<OutputRequest, GamepadError>,
    ) -> bool {
        match self {
            Gamepad::XInput(host) => if host.has_output {
                r matches Ok(OutputRequest::XInput(packet)) && packet@ == seq![
                    0x01u8,
                    0x03,
                    xinput::lamp_value(index),
                ]
            } else {
                r == Err::<OutputRequest, GamepadError>(GamepadError::NotSupported)
            },
            Gamepad::Ds5(_) => r == Ok::<OutputRequest, GamepadError>(
                OutputRequest::Ds5PlayerIndex(ds5::shown_player(index)),
            ),
        }
    }

    /// Stops both motors.
    pub fn stop_rumble(&self) -> (r: Result<OutputRequest, GamepadError>)
        ensures
            self.rumble_request(0, 0, r),
    {
        self.set_rumble(0, 0)
    }

    /// Shows a player number, 0 for none.
    ///
    /// The Xbox 360 protocol has lamps for 1 to 4, a DualSense for 1 to 5; every other number
    /// puts all of them out.
    ///
    /// [`GamepadError::NotSupported`] where the device takes no packets.
    pub fn set_player_index(&self, index: u8) -> (r: Result<OutputRequest, GamepadError>)
        ensures
            self.player_request(index, r),
            match *self {
                Gamepad::XInput(host) => if host.has_output {
                    r matches Ok(OutputRequest::XInput(packet)) && packet@ == seq![
                        0x01u8,
                        0x03,
                        xinput::lamp_value(index),
                    ]
                } else {
                    r == Err::<OutputRequest, GamepadError>(GamepadError::NotSupported)
                },
                Gamepad::Ds5(_) => r == Ok::<OutputRequest, GamepadError>(
                    OutputRequest::Ds5PlayerIndex(ds5::shown_player(index)),
                ),
            },
    {
        match self {
            Gamepad::XInput(pad) => match pad.set_player_index(index) {
                Ok(packet) => Ok(OutputRequest::XInput(packet)),
                Err(e) => Err(e),
            },
            Gamepad::Ds5(_) => Ok(
                OutputRequest::Ds5PlayerIndex(
                    if 1 <= index && index <= ds5::DS5_PLAYER_MAX {
                        index
                    } else {
                        0
                    },
                ),
            ),
        }
    }
}

// ── Laws ─────────────────────────────────────────────────────────────────────

/// A device that offers an interface of the Xbox 360 protocol is never taken for a
/// DualSense, whatever its vendor and product numbers; it can only be short of a pipe.
pub proof fn lemma_xinput_goes_first(
    found: XInputInterfaceInfo,
    info: EnumerationInfo,
    opened: OpenedPipes,
    hid: Result<(), HidError>,
)
    ensures
        match recognised(Some(found), info, opened, hid) {
            Ok(who) => who is XInput,
            Err(e) => e == GamepadError::NoPipe,
        },
{
}

/// A device with neither that interface nor the numbers of a DualSense is not supported,
/// and nothing is opened on it.
pub proof fn lemma_others_are_not_supported(
    info: EnumerationInfo,
    opened: OpenedPipes,
    hid: Result<(), HidError>,
)
    requires
        !ds5::dualsense(info),
    ensures
        candidate(None, info) is None,
        recognised(None, info, opened, hid) == Err::<Recognised, GamepadError>(
            GamepadError::NotSupported,
        ),
{
}

/// How a device is recognised depends only on what was to be opened: on the pipes or on
/// the human interface device, never on both.
pub proof fn lemma_only_the_candidate_counts(
    interface: Option<XInputInterfaceInfo>,
    info: EnumerationInfo,
    opened1: OpenedPipes,
    opened2: OpenedPipes,
    hid1: Result<(), HidError>,
    hid2: Result<(), HidError>,
)
    ensures
        match candidate(interface, info) {
            Some(Candidate::XInput(_)) => recognised(interface, info, opened1, hid1) == recognised(
                interface,
                info,
                opened1,
                hid2,
            ),
            Some(Candidate::Ds5) => recognised(interface, info, opened1, hid1) == recognised(
                interface,
                info,
                opened2,
                hid1,
            ),
            None => recognised(interface, info, opened1, hid1) == recognised(
                interface,
                info,
                opened2,
                hid2,
            ),
        },
{
}

/// The button at a place is shown exactly when its mark is set.
proof fn lemma_shown_at(r: GamepadReport, place: int)
    requires
        0 <= place < 15,
    ensures
        text::chosen(r.named_buttons()).contains(r.named_buttons()[place].1)
            <==> r.named_buttons()[place].0,
{
    let w = r.named_buttons();
    let name = w[place].1;
    lemma_button_names(r);
    text::lemma_chosen_are_marked(w, name);
    assert forall|k: int| 0 <= k < 15 && (#[trigger] w[k]).1 == name implies k == place by {
        reveal(is_button_name);
        assert(is_button_name(w[k].1, k) && is_button_name(w[place].1, place));
    }
}

/// The names by their places.
proof fn lemma_names_by_place(r: GamepadReport)
    ensures
        r.named_buttons()[0].1 == "A"@,
        r.named_buttons()[1].1 == "B"@,
        r.named_buttons()[2].1 == "X"@,
        r.named_buttons()[3].1 == "Y"@,
        r.named_buttons()[4].1 == "LB"@,
        r.named_buttons()[5].1 == "RB"@,
        r.named_buttons()[6].1 == "LS"@,
        r.named_buttons()[7].1 == "RS"@,
        r.named_buttons()[8].1 == "Start"@,
        r.named_buttons()[9].1 == "Back"@,
        r.named_buttons()[10].1 == "Guide"@,
        r.named_buttons()[11].1 == "Up"@,
        r.named_buttons()[12].1 == "Down"@,
        r.named_buttons()[13].1 == "Left"@,
        r.named_buttons()[14].1 == "Right"@,
{
}

/// Every button is shown under its own name exactly when it is pressed.
pub proof fn lemma_pressed_buttons_are_shown(r: GamepadReport)
    ensures
        text::chosen(r.named_buttons()).contains("A"@) <==> r.a,
        text::chosen(r.named_buttons()).contains("B"@) <==> r.b,
        text::chosen(r.named_buttons()).contains("X"@) <==> r.x,
        text::chosen(r.named_buttons()).contains("Y"@) <==> r.y,
        text::chosen(r.named_buttons()).contains("LB"@) <==> r.left_bumper,
        text::chosen(r.named_buttons()).contains("RB"@) <==> r.right_bumper,
        text::chosen(r.named_buttons()).contains("LS"@) <==> r.left_stick_press,
        text::chosen(r.named_buttons()).contains("RS"@) <==> r.right_stick_press,
        text::chosen(r.named_buttons()).contains("Start"@) <==> r.start,
        text::chosen(r.named_buttons()).contains("Back"@) <==> r.back,
        text::chosen(r.named_buttons()).contains("Guide"@) <==> r.guide,
        text::chosen(r.named_buttons()).contains("Up"@) <==> r.dpad_up,
        text::chosen(r.named_buttons()).contains("Down"@) <==> r.dpad_down,
        text::chosen(r.named_buttons()).contains("Left"@) <==> r.dpad_left,
        text::chosen(r.named_buttons()).contains("Right"@) <==> r.dpad_right,
{
    lemma_button_places(r);
    lemma_names_by_place(r);
    lemma_shown_at(r, 0);
    lemma_shown_at(r, 1);
    lemma_shown_at(r, 2);
    lemma_shown_at(r, 3);
    lemma_shown_at(r, 4);
    lemma_shown_at(r, 5);
    lemma_shown_at(r, 6);
    lemma_shown_at(r, 7);
    lemma_shown_at(r, 8);
    lemma_shown_at(r, 9);
    lemma_shown_at(r, 10);
    lemma_shown_at(r, 11);
    lemma_shown_at(r, 12);
    lemma_shown_at(r, 13);
    lemma_shown_at(r, 14);
}

/// The names of the pressed buttons stand in the order of display, with spaces between them,
/// behind the words `buttons=[`; then follow the triggers, left before right, and the
/// sticks, left before right, each with X before Y.
pub proof fn lemma_text_of_a_report(r: GamepadReport)
    ensures
        ({
            let right = " R=("@ + (text::signed_decimal(r.right_stick_x as int) + seq![','] + (" "@ + (
            text::signed_decimal(r.right_stick_y as int) + seq![')'] + Seq::empty())));
            let left = "L=("@ + (text::signed_decimal(r.left_stick_x as int) + seq![','] + (" "@ + (
            text::signed_decimal(r.left_stick_y as int) + seq![')'] + right)));
            let triggers = " LT="@ + (text::decimal(r.left_trigger as nat) + seq![' '] + ("RT="@ + (
            text::decimal(r.right_trigger as nat) + seq![' '] + left)));
            r.text() == "buttons=["@ + (text::spaced(text::chosen(r.named_buttons())) + seq![']']
                + triggers)
        }),
{
    lemma_report_form(r);
    assert(text::spaced(text::chosen(r.named_buttons())) == r.buttons_text());
}

/// A device with an interface of the Xbox 360 protocol has its pipes opened, whatever its
/// numbers; another one is opened as a human interface device exactly when it has the
/// numbers of a DualSense.
pub proof fn lemma_what_is_opened(interface: Option<XInputInterfaceInfo>, info: EnumerationInfo)
    ensures
        interface matches Some(found) ==> candidate(interface, info) == Some(
            Candidate::XInput(xinput::pipe_plan(found)),
        ),
        interface is None ==> (candidate(interface, info) == Some(Candidate::Ds5)
            <==> info.device_desc.vendor_id == 0x054C && (info.device_desc.product_id == 0x0CE6
            || info.device_desc.product_id == 0x0DF2)),
        interface is None && candidate(interface, info) != Some(Candidate::Ds5) ==> candidate(
            interface,
            info,
        ) is None,
{
}

/// What a device becomes: with the interface, a controller of the Xbox 360 protocol when
/// its pipes were granted and an error when not; without it, a DualSense when it has the
/// numbers and could be opened.
pub proof fn lemma_how_recognised(
    interface: Option<XInputInterfaceInfo>,
    info: EnumerationInfo,
    opened: OpenedPipes,
    hid: Result<(), HidError>,
)
    ensures
        ({
            let who = recognised(interface, info, opened, hid);
            let known = info.device_desc.vendor_id == 0x054C && (info.device_desc.product_id == 0x0CE6
                || info.device_desc.product_id == 0x0DF2);
            let granted = opened.input && (interface->0.interrupt_out is None || opened.output);
            &&& interface is Some && granted ==> who == Ok::<Recognised, GamepadError>(
                Recognised::XInput(XInputHost { has_output: interface->0.interrupt_out is Some }),
            )
            &&& interface is Some && !granted ==> who == Err::<Recognised, GamepadError>(
                GamepadError::NoPipe,
            )
            &&& interface is None && known && hid is Ok ==> who == Ok::<Recognised, GamepadError>(
                Recognised::Ds5,
            )
            &&& interface is None && known ==> (hid matches Err(HidError::Transfer(e)) ==> who == Err::<
                Recognised,
                GamepadError,
            >(GamepadError::Transfer(e)))
            &&& interface is None && known && hid == Err::<(), HidError>(HidError::NoPipe) ==> who
                == Err::<Recognised, GamepadError>(GamepadError::NoPipe)
            &&& interface is None && (!known || hid == Err::<(), HidError>(HidError::NoInterface))
                ==> who == Err::<Recognised, GamepadError>(GamepadError::NotSupported)
        }),
{
}

/// Who is recognised is who takes charge: the same protocol, the same output, the same
/// error.
pub proof fn lemma_who_takes_charge(
    who: Result<Recognised, GamepadError>,
    r: Result<Gamepad, GamepadError>,
)
    requires
        is_registered(who, r),
    ensures
        r is Err <==> who is Err,
        who matches Err(e) ==> r == Err::<Gamepad, GamepadError>(e),
        r matches Ok(Gamepad::XInput(host)) ==> who == Ok::<Recognised, GamepadError>(
            Recognised::XInput(host),
        ),
        r matches Ok(Gamepad::Ds5(host)) ==> who == Ok::<Recognised, GamepadError>(Recognised::Ds5)
            && host.latest@.battery_percent == 0 && !host.latest@.touchpad_press
            && !host.latest@.mic_mute && host.latest@.sensor_timestamp == 0
            && host.latest@.charge_state is Discharging && host.latest@.gyro == seq![0int, 0, 0]
            && host.latest@.accel == seq![0int, 0, 0],
{
}

/// The strong motor is the fourth byte of an eight-byte packet that starts with 0 and 8, the
/// weak motor the fifth, and the rest is zero; a DualSense is told the same two numbers. A
/// device without output refuses.
pub proof fn lemma_where_the_motors_are(
    pad: Gamepad,
    strong: u8,
    weak: u8,
    r: Result<OutputRequest, GamepadError>,
)
    requires
        pad.rumble_request(strong, weak, r),
    ensures
        r is Err <==> (pad matches Gamepad::XInput(host) && !host.has_output),
        r matches Err(e) ==> e == GamepadError::NotSupported,
        pad is XInput ==> (r matches Ok(request) ==> (request matches OutputRequest::XInput(packet)
            && packet@.len() == 8 && packet@[0] == 0 && packet@[1] == 8 && packet@[2] == 0
            && packet@[3] == strong && packet@[4] == weak && packet@[5] == 0 && packet@[6] == 0
            && packet@[7] == 0)),
        pad is Ds5 ==> (r matches Ok(request) ==> (request matches OutputRequest::Ds5Rumble {
            strong: s,
            weak: w,
        } && s == strong && w == weak)),
{
}

/// The lamp of players one to four is the third byte, from 6 on, of a packet that starts
/// with 1 and 3, and 0 for every other number; a DualSense is told one to five and 0 for
/// every other. A device without output refuses.
pub proof fn lemma_where_the_lamps_are(
    pad: Gamepad,
    index: u8,
    r: Result<OutputRequest, GamepadError>,
)
    requires
        pad.player_request(index, r),
    ensures
        r is Err <==> (pad matches Gamepad::XInput(host) && !host.has_output),
        r matches Err(e) ==> e == GamepadError::NotSupported,
        pad is XInput ==> (r matches Ok(request) ==> (request matches OutputRequest::XInput(packet)
            && packet@.len() == 3 && packet@[0] == 1 && packet@[1] == 3 && packet@[2] == (if 1
            <= index <= 4 {
            5 + index
        } else {
            0
        }))),
        pad is Ds5 ==> (r matches Ok(request) ==> (request matches OutputRequest::Ds5PlayerIndex(n)
            && n == (if index <= 5 {
            index
        } else {
            0
        }))),
{
}

} // verus!
