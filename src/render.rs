use crate::db::{today_view, DB};
use crate::item::{TODOItem, TodoError};
use crate::stamp::{local_midnight_today, Stamp};
use ansi_term::Color::Red;
use vstd::prelude::*;
use vstd::string::StringExecFns;

verus! {

/// The width that a record's number is right-aligned to.
pub const NUMBER_WIDTH: usize = 5;

/// `s` between the escape codes that turn the terminal's foreground red and
/// reset it.
pub open spec fn red_of(s: Seq<char>) -> Seq<char> {
    seq!['\x1b', '[', '3', '1', 'm'] + s + seq!['\x1b', '[', '0', 'm']
}

/// Relies on ansi_term's `Colour::paint` with `Red`, written out through its
/// `Display`: the style's prefix `ESC [31m`, the text, then `RESET`.
#[verifier::external_body]
fn paint_red(s: &str) -> (r: String)
    ensures
        r@ == red_of(s@),
{
    Red.paint(s).to_string()
}

/// Relies on `String::push`: appends `c`.
#[verifier::external_body]
fn push_char(s: &mut String, c: char)
    ensures
        final(s)@ == old(s)@.push(c),
{
    s.push(c)
}

/// The decimal digit for `d`.
pub open spec fn digit(d: nat) -> char {
    if d < 10 {
        (('0' as u8) + (d as u8)) as char
    } else {
        '?'
    }
}

/// The decimal digits of `n`, most significant first.
pub open spec fn decimal(n: nat) -> Seq<char>
    decreases n,
{
    if n < 10 {
        seq![digit(n)]
    } else {
        decimal(n / 10).push(digit(n % 10))
    }
}

/// `s` right-aligned in a field of `NUMBER_WIDTH` characters.
pub open spec fn right_aligned(s: Seq<char>) -> Seq<char> {
    if s.len() < NUMBER_WIDTH {
        Seq::new((NUMBER_WIDTH - s.len()) as nat, |i: int| ' ') + s
    } else {
        s
    }
}

/// The hollow mark of an open record.
pub const OPEN_MARK: char = '\u{2606}';

/// The filled mark of a completed record, before it is painted.
pub const DONE_MARK: char = '\u{2605}';

/// The status mark of `item`: filled and red once completed, hollow before.
pub open spec fn mark(item: TODOItem) -> Seq<char> {
    if item.check_time is Some {
        red_of(seq![DONE_MARK])
    } else {
        seq![OPEN_MARK]
    }
}

/// The line that shows `item` at 0-based position `position` of a view:
/// its number from one, right-aligned, a dot, its mark and its text.
pub open spec fn rendered(position: nat, item: TODOItem) -> Seq<char> {
    right_aligned(decimal(position + 1)) + seq!['.', ' '] + mark(item) + seq![' ', ' ']
        + item.content@ + seq![' ']
}

proof fn lemma_decimal_nonempty(n: nat)
    ensures
        decimal(n).len() >= 1,
    decreases n,
{
    if n >= 10 {
        lemma_decimal_nonempty(n / 10);
    }
}

fn decimal_chars(n: u128) -> (r: Vec<char>)
    ensures
        r@ == decimal(n as nat),
    decreases n,
{
    if n < 10 {
        let d = ('0' as u8 + n as u8) as char;
        vec![d]
    } else {
        let mut r = decimal_chars(n / 10);
        let d = ('0' as u8 + (n % 10) as u8) as char;
        r.push(d);
        r
    }
}

/// The line that shows `item` at 0-based position `position` of a view.
pub fn render_line(position: usize, item: &TODOItem) -> (r: String)
    ensures
        r@ == rendered(position as nat, *item),
{
    let digits = decimal_chars(position as u128 + 1);
    proof {
        lemma_decimal_nonempty(position as nat + 1);
    }
    let mut out = String::new();
    if digits.len() < NUMBER_WIDTH {
        let pad = NUMBER_WIDTH - digits.len();
        let mut k: usize = 0;
        while k < pad
            invariant
                k <= pad,
                out@ == Seq::new(k as nat, |i: int| ' '),
            decreases pad - k,
        {
            push_char(&mut out, ' ');
            k = k + 1;
            assert(out@ =~= Seq::new(k as nat, |i: int| ' '));
        }
    }
    let ghost lead = out@;
    let mut j: usize = 0;
    while j < digits.len()
        invariant
            j <= digits@.len(),
            out@ == lead + digits@.take(j as int),
        decreases digits@.len() - j,
    {
        push_char(&mut out, digits[j]);
        j = j + 1;
        assert(out@ =~= lead + digits@.take(j as int));
    }
    assert(digits@.take(digits@.len() as int) =~= digits@);
    assert(out@ == right_aligned(decimal(position as nat + 1)));
    push_char(&mut out, '.');
    push_char(&mut out, ' ');
    if item.check_time.is_some() {
        let red = paint_red("\u{2605}");
        proof {
            reveal_strlit("\u{2605}");
            assert("\u{2605}"@ =~= seq![DONE_MARK]);
        }
        out.append(red.as_str());
    } else {
        push_char(&mut out, OPEN_MARK);
    }
    push_char(&mut out, ' ');
    push_char(&mut out, ' ');
    out.append(item.content.as_str());
    push_char(&mut out, ' ');
    assert(out@ =~= rendered(position as nat, *item));
    out
}

impl DB {
    /// The lines that show the records created since `midnight`, numbered
    /// from one in the order of the collection.
    pub fn today_lines(&self, midnight: Stamp) -> (r: Vec<String>)
        ensures
            r@.len() == today_view(self.items@, midnight).len(),
            forall|j: int|
                0 <= j < r@.len() ==> r@[j]@ == rendered(
                    j as nat,
                    self.items@[today_view(self.items@, midnight)[j] as int],
                ),
    {
        let w = self.today_at(midnight);
        let mut r: Vec<String> = Vec::new();
        let mut j: usize = 0;
        while j < w.len()
            invariant
                w@ == today_view(self.items@, midnight),
                j <= w@.len(),
                r@.len() == j,
                forall|l: int| 0 <= l < w@.len() ==> w@[l] < self.items@.len(),
                forall|l: int|
                    0 <= l < j ==> r@[l]@ == rendered(l as nat, self.items@[w@[l] as int]),
            decreases w@.len() - j,
        {
            let line = render_line(j, &self.items[w[j]]);
            r.push(line);
            j = j + 1;
        }
        r
    }

    /// The lines that show today's records, numbered from one.
    pub fn show_todo_today(&self) -> (r: Result<Vec<String>, TodoError>)
        ensures
            r matches Ok(v) ==> exists|m: Stamp|
                {
                    &&& m.wf()
                    &&& m.is_local_midnight()
                    &&& v@.len() == today_view(self.items@, m).len()
                    &&& forall|j: int|
                        0 <= j < v@.len() ==> v@[j]@ == rendered(
                            j as nat,
                            self.items@[today_view(self.items@, m)[j] as int],
                        )
                },
            r matches Err(e) ==> e == TodoError::ClockError,
    {
        match local_midnight_today() {
            Some(m) => Ok(self.today_lines(m)),
            None => Err(TodoError::ClockError),
        }
    }
}

} // verus!
