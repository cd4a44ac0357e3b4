//! What the screen shows of the state: row labels, help lines, prompts and
//! popup geometry.

use vstd::prelude::*;
use vstd::string::{StrSliceExecFns, StringExecFns, StringSliceAdditionalSpecFns};
use vstd::utf8::{decode_utf8, encode_utf8, is_char_boundary};

use crate::app::Mode;
use crate::task::Task;

verus! {

/// The `MM-DD` part of a `YYYY-MM-DD` date: bytes 5 to 10 when the text has
/// at least 10 bytes, five spaces otherwise.
pub open spec fn spec_short_date(s: Seq<char>) -> Seq<char> {
    let b = encode_utf8(s);
    if b.len() >= 10 {
        decode_utf8(b.subrange(5, 10))
    } else {
        seq![' ', ' ', ' ', ' ', ' ']
    }
}

/// Cutting at bytes 5 and 10 needs both to start a character.
pub open spec fn short_date_cuttable(s: Seq<char>) -> bool {
    let b = encode_utf8(s);
    b.len() >= 10 ==> is_char_boundary(b, 5) && is_char_boundary(b, 10)
}

/// The `MM-DD` part of a date written `YYYY-MM-DD`.
pub fn short_date(s: &str) -> (r: String)
    requires
        short_date_cuttable(s@),
    ensures
        r@ == spec_short_date(s@),
{
    broadcast use vstd::utf8::encode_utf8_valid_utf8, vstd::utf8::encode_utf8_decode_utf8;

    if s.as_bytes().len() >= 10 {
        let ghost b = s.spec_bytes();
        let (head, _) = s.split_at(10);
        proof {
            vstd::utf8::valid_utf8_split(b, 10);
            let hb = b.subrange(0, 10);
            assert(head.spec_bytes() == hb);
            vstd::utf8::is_char_boundary_iff_not_is_continuation_byte(b, 5);
            vstd::utf8::is_char_boundary_iff_not_is_continuation_byte(hb, 5);
            assert(hb[5] == b[5]);
        }
        let (_, mid) = head.split_at(5);
        proof {
            assert(mid.spec_bytes() =~= b.subrange(5, 10));
            assert(decode_utf8(encode_utf8(mid@)) == mid@);
            assert(mid@ == decode_utf8(b.subrange(5, 10)));
        }
        let r = mid.to_owned();
        proof {
            assert(r@ == mid@);
        }
        r
    } else {
        proof {
            reveal_strlit("     ");
            assert("     "@ =~= seq![' ', ' ', ' ', ' ', ' ']);
        }
        let r = "     ".to_owned();
        proof {
            assert(r@ == seq![' ', ' ', ' ', ' ', ' ']);
        }
        r
    }
}

/// The decimal digit for `d < 10`.
pub open spec fn digit_char(d: nat) -> char {
    (d + 48) as char
}

/// The decimal numeral of `n`.
pub open spec fn spec_decimal(n: nat) -> Seq<char>
    decreases n,
{
    if n < 10 {
        seq![digit_char(n)]
    } else {
        spec_decimal(n / 10).push(digit_char(n % 10))
    }
}

/// The decimal numeral of `n`.
pub fn decimal(n: usize) -> (r: String)
    ensures
        r@ == spec_decimal(n as nat),
    decreases n,
{
    let d = n % 10;
    let c = if d == 0 { '0' } else if d == 1 { '1' } else if d == 2 { '2' } else if d == 3 { '3' }
        else if d == 4 { '4' } else if d == 5 { '5' } else if d == 6 { '6' } else if d == 7 { '7' }
        else if d == 8 { '8' } else { '9' };
    proof {
        assert(c == digit_char(d as nat));
    }
    if n < 10 {
        let mut r = String::new();
        r.push(c);
        proof {
            assert(r@ =~= seq![digit_char(n as nat)]);
        }
        r
    } else {
        let mut r = decimal(n / 10);
        r.push(c);
        r
    }
}

/// `s` right-aligned in a field `width` characters wide.
pub open spec fn pad_left(s: Seq<char>, width: nat) -> Seq<char> {
    if s.len() >= width {
        s
    } else {
        Seq::new((width - s.len()) as nat, |i: int| ' ') + s
    }
}

/// The label of a row: the 1-based row number right-aligned in two
/// columns, the `MM-DD` date, a `·` when the task has notes, and the title.
pub open spec fn spec_task_label(t: crate::task::TaskView, index: nat) -> Seq<char> {
    seq![' ', ' '] + pad_left(spec_decimal(index + 1), 2) + seq!['.', ' ', ' '] + spec_short_date(
        t.created_at,
    ) + seq![' ', ' '] + (if t.notes.len() == 0 {
        seq![' ']
    } else {
        seq!['\u{b7}']
    }) + seq![' ', ' '] + t.title
}

/// The text of the row showing `task` as the row numbered `index + 1`.
pub fn task_label(task: &Task, index: usize) -> (r: String)
    requires
        index < usize::MAX,
        short_date_cuttable(task.created_at@),
    ensures
        r@ == spec_task_label(task@, index as nat),
{
    let num = decimal(index + 1);
    let mut r = String::new();
    r.push(' ');
    r.push(' ');
    if num.as_str().unicode_len() < 2 {
        r.push(' ');
    }
    r.append(num.as_str());
    r.push('.');
    r.push(' ');
    r.push(' ');
    let date = short_date(task.created_at.as_str());
    r.append(date.as_str());
    r.push(' ');
    r.push(' ');
    if task.notes.as_str().is_empty() {
        r.push(' ');
    } else {
        r.push('\u{b7}');
    }
    r.push(' ');
    r.push(' ');
    r.append(task.title.as_str());
    proof {
        let n = spec_decimal((index + 1) as nat);
        assert(n.len() >= 1) by {
            lemma_decimal_nonempty((index + 1) as nat);
        }
        if n.len() < 2 {
            assert(pad_left(n, 2) =~= seq![' '] + n);
        }
        assert(r@ =~= spec_task_label(task@, index as nat));
    }
    r
}

pub proof fn lemma_decimal_nonempty(n: nat)
    ensures
        spec_decimal(n).len() >= 1,
    decreases n,
{
    if n >= 10 {
        lemma_decimal_nonempty(n / 10);
    }
}

/// The help line shown at the bottom for a mode.
pub open spec fn spec_status_help(mode: Mode) -> Seq<char> {
    match mode {
        Mode::Normal => " n:new  j/k:navigate  K/J:reorder  tab:switch  space:toggle  e:edit notes  d:delete  q:quit"@,
        Mode::Confirm => " y/Enter:confirm delete  n/Esc:cancel"@,
        Mode::EditNote => " Ctrl+S:save  Esc:discard"@,
        _ => " Enter:confirm  Esc:cancel"@,
    }
}

/// The help line shown at the bottom for a mode; the prompt modes share one.
pub fn status_help(mode: Mode) -> (r: &'static str)
    ensures
        r@ == spec_status_help(mode),
{
    match mode {
        Mode::Normal => " n:new  j/k:navigate  K/J:reorder  tab:switch  space:toggle  e:edit notes  d:delete  q:quit",
        Mode::Confirm => " y/Enter:confirm delete  n/Esc:cancel",
        Mode::EditNote => " Ctrl+S:save  Esc:discard",
        _ => " Enter:confirm  Esc:cancel",
    }
}

/// The text of the delete confirmation for a task titled `title`.
pub fn delete_prompt(title: &str) -> (r: String)
    ensures
        r@ == "\n  Delete \""@ + title@ + "\"?\n\n      [y] Yes     [n] No"@,
{
    let r = String::from_str("\n  Delete \"");
    let r = r.concat(title);
    r.concat("\"?\n\n      [y] Yes     [n] No")
}

/// The text of the input prompt holding `input`.
pub fn input_line(input: &str) -> (r: String)
    ensures
        r@ == " > "@ + input@ + "_"@,
{
    let r = String::from_str(" > ");
    let r = r.concat(input);
    r.concat("_")
}

/// A screen rectangle, as the terminal layout gives it.
#[derive(Copy, Clone, Debug, PartialEq, Eq, Structural)]
pub struct Area {
    pub x: u16,
    pub y: u16,
    pub width: u16,
    pub height: u16,
}

pub open spec fn sat_sub(a: u16, b: u16) -> u16 {
    if a >= b {
        (a - b) as u16
    } else {
        0
    }
}

pub open spec fn min16(a: u16, b: u16) -> u16 {
    if a <= b {
        a
    } else {
        b
    }
}

/// The rectangle `centered_area` computes stays on the `u16` grid.
pub open spec fn centerable(width: u16, height: u16, r: Area) -> bool {
    &&& r.x + sat_sub(r.width, width) / 2 <= u16::MAX
    &&& r.y + sat_sub(r.height, height) / 2 <= u16::MAX
}

/// A `width` by `height` rectangle centred in `r`, cut down to `r`'s size.
pub open spec fn spec_centered(width: u16, height: u16, r: Area) -> Area {
    Area {
        x: (r.x + sat_sub(r.width, width) / 2) as u16,
        y: (r.y + sat_sub(r.height, height) / 2) as u16,
        width: min16(width, r.width),
        height: min16(height, r.height),
    }
}

/// A `width` by `height` rectangle centred in `r`, cut down to `r`'s size.
pub fn centered_area(width: u16, height: u16, r: Area) -> (a: Area)
    requires
        centerable(width, height, r),
    ensures
        a == spec_centered(width, height, r),
{
    let x = r.x + r.width.saturating_sub(width) / 2;
    let y = r.y + r.height.saturating_sub(height) / 2;
    Area {
        x,
        y,
        width: if width <= r.width { width } else { r.width },
        height: if height <= r.height { height } else { r.height },
    }
}

/// Which popup is drawn over the lists.
#[derive(Copy, Clone, Debug, PartialEq, Eq, Structural)]
pub enum Popup {
    Input,
    Confirm,
    NoteEditor,
}

/// Width and height of a popup on a screen of the given size: the input
/// prompt is 60 by 3, the confirmation 54 by 5 (both at most the screen
/// width less 4), the note editor the screen less 6 columns (at least 20)
/// and 4 rows (between 5 and 24).
pub open spec fn spec_popup_size(p: Popup, screen: Area) -> (u16, u16) {
    match p {
        Popup::Input => (min16(60, sat_sub(screen.width, 4)), 3),
        Popup::Confirm => (min16(54, sat_sub(screen.width, 4)), 5),
        Popup::NoteEditor => {
            let w = sat_sub(screen.width, 6);
            let h = sat_sub(screen.height, 4);
            (
                if w < 20 {
                    20
                } else {
                    w
                },
                if h < 5 {
                    5
                } else if h > 24 {
                    24
                } else {
                    h
                },
            )
        },
    }
}

/// Where a popup stands on the screen: its size centred in the screen.
pub fn popup_area(p: Popup, screen: Area) -> (a: Area)
    requires
        screen.x + screen.width <= u16::MAX,
        screen.y + screen.height <= u16::MAX,
    ensures
        a == spec_centered(spec_popup_size(p, screen).0, spec_popup_size(p, screen).1, screen),
{
    let (w, h): (u16, u16) = match p {
        Popup::Input => {
            let avail = screen.width.saturating_sub(4);
            (if 60 <= avail { 60 } else { avail }, 3)
        },
        Popup::Confirm => {
            let avail = screen.width.saturating_sub(4);
            (if 54 <= avail { 54 } else { avail }, 5)
        },
        Popup::NoteEditor => {
            let w = screen.width.saturating_sub(6);
            let h = screen.height.saturating_sub(4);
            (if w < 20 { 20 } else { w }, if h < 5 { 5 } else if h > 24 { 24 } else { h })
        },
    };
    centered_area(w, h, screen)
}

} // verus!
