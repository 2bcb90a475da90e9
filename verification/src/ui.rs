//! The terminal output actor: the messages that producers send to it, the
//! state it keeps (a log of notifications and one progress bar per label),
//! and the screen it draws after each message.

use vstd::prelude::*;
use vstd::string::*;

use crate::term::{
    blue_text, bold, bold_text, clear_all, clear_all_text, clear_line, clear_line_text, fg_blue,
    fg_light_cyan, goto, goto_text, italic, italic_text, light_cyan_text, reset, reset_text,
};
use crate::text::{parse_usize, parsed_usize, trim, trimmed};

verus! {

broadcast use vstd::string::group_string_axioms;

/// What a producer sends to the output actor.
#[derive(Debug)]
pub enum Message {
    /// A line for the message log.
    Notification(String),
    /// Transfer progress: current value, total and the label of the bar.
    Progress((u64, u64, String)),
    /// A prompt that the user answers with one line of input.
    Question(String),
    /// The request to stop; the actor acknowledges it and ends.
    Quit,
}

/// A producer's handle: the display label under which its messages appear.
#[derive(Clone, Debug)]
pub struct Context {
    name: String,
}

/// The handle of the operation `name`, labelled with `prefix`.
pub fn context(prefix: &str, name: &str) -> (r: Context)
    ensures
        r.label() == prefix@ + seq![' '] + name@,
{
    proof {
        reveal_strlit(" ");
        assert(" "@ =~= seq![' ']);
    }
    Context { name: String::from_str(prefix).concat(" ").concat(name) }
}

impl Context {
    /// The display label of this handle.
    pub closed spec fn label(&self) -> Seq<char> {
        self.name@
    }

    /// The display label of this handle.
    pub fn name(&self) -> (r: &String)
        ensures
            r@ == self.label(),
    {
        &self.name
    }

    /// The envelope that adds `msg` to the message log.
    pub fn notify(&self, msg: &str) -> (r: (String, Message))
        ensures
            r.0@ == self.label(),
            r.1 matches Message::Notification(text) && text@ == msg@,
    {
        (self.name.clone(), Message::Notification(String::from_str(msg)))
    }

    /// The envelope that asks the actor to stop.
    pub fn quit(&self) -> (r: (String, Message))
        ensures
            r.0@ == self.label(),
            r.1 is Quit,
    {
        (self.name.clone(), Message::Quit)
    }

    /// The envelope that puts the prompt `msg` to the user.
    pub fn ask(&self, msg: &str) -> (r: (String, Message))
        ensures
            r.0@ == self.label(),
            r.1 matches Message::Question(text) && text@ == msg@,
    {
        (self.name.clone(), Message::Question(String::from_str(msg)))
    }

    /// One round of the number prompt: `answer` is the line the user gave.
    /// The number is returned where the answer denotes one in `[min, max)`;
    /// else the notification to send before asking again.
    pub fn ask_number(&self, min: usize, max: usize, answer: &str) -> (r: Result<
        usize,
        (String, Message),
    >)
        ensures
            match chosen_number(answer@, min, max) {
                Some(n) => r == Ok::<usize, (String, Message)>(n),
                None => r matches Err(e) && e.0@ == self.label() && (e.1 matches Message::Notification(
                    text,
                ) && text@ == "Invalid input: "@ + debug_text(trimmed(answer@))),
            },
    {
        let line = trim(answer);
        match parse_usize(line) {
            Some(x) => {
                if x >= min && x < max {
                    return Ok(x);
                }
            },
            None => {},
        }
        Err(self.invalid_input(debug_quote(line).as_str()))
    }

    /// The notification that refuses an answer, which is shown as `shown`.
    pub fn invalid_input(&self, shown: &str) -> (r: (String, Message))
        ensures
            r.0@ == self.label(),
            r.1 matches Message::Notification(text) && text@ == "Invalid input: "@ + shown@,
    {
        (self.name.clone(), Message::Notification(String::from_str("Invalid input: ").concat(shown)))
    }

    /// The envelope that reports `current` of `total` on the bar labelled `msg`.
    pub fn progress(&self, current: u64, total: u64, msg: &str) -> (r: (String, Message))
        ensures
            r.0@ == self.label(),
            r.1 matches Message::Progress(p) && p.0 == current && p.1 == total && p.2@ == msg@,
    {
        (self.name.clone(), Message::Progress((current, total, String::from_str(msg))))
    }
}

/// The number that the answer `answer` chooses among those of `[min, max)`:
/// the answer without the white space around it is read as a decimal number.
pub open spec fn chosen_number(answer: Seq<char>, min: usize, max: usize) -> Option<usize> {
    match parsed_usize(trimmed(answer)) {
        Some(x) => if min <= x < max {
            Some(x)
        } else {
            None
        },
        None => None,
    }
}

/// `s` as `std::fmt::Debug` shows a string: between double quotes, with
/// the characters that need it escaped.
pub uninterp spec fn debug_text(s: Seq<char>) -> Seq<char>;

/// `s` formatted with `{:?}`. Trusted: the `Debug` text of a string
/// depends on its characters alone.
#[verifier::external_body]
fn debug_quote(s: &str) -> (r: String)
    ensures
        r@ == debug_text(s@),
{
    format!("{:?}", s)
}

/// `String::push`. Trusted: it appends the character to the string.
#[verifier::external_body]
fn push_char(s: &mut String, c: char)
    ensures
        final(s)@ == old(s)@.push(c),
{
    s.push(c)
}

/// What one byte of input does to the line being read.
#[derive(Clone, Copy, Debug, PartialEq, Eq, Structural)]
pub enum LineStep {
    /// The byte belongs to the line; more is to be read.
    More,
    /// The byte ended the line; the line is the answer.
    Complete,
    /// The byte is no character by itself; reading fails.
    Invalid,
}

/// A line of the message log: the sender's label in bold light cyan, then
/// the message without the white space around it.
pub open spec fn fmt_msg_text(context: Seq<char>, message: Seq<char>) -> Seq<char> {
    clear_line_text() + light_cyan_text() + bold_text() + context + reset_text() + seq![' ']
        + trimmed(message)
}

/// Formats a line of the message log.
pub fn fmt_msg(context: &str, message: &str) -> (r: String)
    ensures
        r@ == fmt_msg_text(context@, message@),
{
    proof {
        reveal_strlit(" ");
        assert(" "@ =~= seq![' ']);
    }
    let mut out = clear_line();
    out.append(fg_light_cyan().as_str());
    out.append(bold().as_str());
    out.append(context);
    out.append(reset().as_str());
    out.append(" ");
    out.append(trim(message));
    out
}

/// The most characters of a bar's label that are shown.
pub const LABEL_LIMIT: usize = 64;

/// The columns kept free beside a bar for its brackets, percentage and numbers.
pub const BAR_MARGIN: u16 = 30;

/// A progress bar of the screen.
#[derive(Clone, Debug, PartialEq, Eq)]
pub struct Bar {
    /// The label the bar is found by.
    pub label: String,
    /// The progress made so far.
    pub current: usize,
    /// The value at which the bar is full.
    pub total: usize,
    /// The number of cells between the bar's brackets.
    pub width: usize,
}

/// What a `Bar` stands for in contracts.
pub struct BarView {
    pub label: Seq<char>,
    pub current: usize,
    pub total: usize,
    pub width: usize,
}

impl View for Bar {
    type V = BarView;

    open spec fn view(&self) -> BarView {
        BarView { label: self.label@, current: self.current, total: self.total, width: self.width }
    }
}

/// The text of a bar of `width` cells that shows `current` of `total`:
/// what `progress_string` renders for a bar with `=` for full cells, blanks
/// for empty ones, the percentage and the two numbers.
pub uninterp spec fn bar_text(current: usize, total: usize, width: usize) -> Seq<char>;

/// A bar built with `progress_string::BarBuilder` (total, percentage,
/// numbers, blank and `=` cells, width), set to `current` with
/// `Bar::replace` and rendered with `Bar::to_string`. Trusted: the text
/// depends on the three numbers alone. The width is bounded because the
/// crate allocates one character per cell.
#[verifier::external_body]
fn render_bar(current: usize, total: usize, width: usize) -> (r: String)
    requires
        width <= u16::MAX,
    ensures
        r@ == bar_text(current, total, width),
{
    let mut bar = progress_string::BarBuilder::new()
        .total(total)
        .include_percent()
        .include_numbers()
        .empty_char(' ')
        .full_char('=')
        .width(width)
        .get_bar();
    bar.replace(current);
    bar.to_string()
}

/// A progress value as the bar counts it: the value itself, or the largest
/// `usize` where the machine's `usize` cannot hold it.
pub open spec fn bar_value(v: u64) -> usize {
    if v <= usize::MAX {
        v as usize
    } else {
        usize::MAX
    }
}

fn to_bar_value(v: u64) -> (r: usize)
    ensures
        r == bar_value(v),
{
    if v <= usize::MAX as u64 {
        v as usize
    } else {
        usize::MAX
    }
}

/// The part of a bar's label that is shown: its first `LABEL_LIMIT` characters.
pub open spec fn shown_label(label: Seq<char>) -> Seq<char> {
    if label.len() <= LABEL_LIMIT {
        label
    } else {
        label.take(LABEL_LIMIT as int)
    }
}

/// The cells of a bar on a terminal of `columns` columns: what is left of
/// the line after the margin and the shown label, and none where the
/// terminal is too narrow.
pub open spec fn bar_width(columns: u16, label: Seq<char>) -> usize {
    let room = if columns >= BAR_MARGIN {
        columns - BAR_MARGIN
    } else {
        0
    };
    let shown = shown_label(label).len();
    if room >= shown {
        (room - shown) as usize
    } else {
        0
    }
}

fn label_shown(label: &str) -> (r: &str)
    ensures
        r@ == shown_label(label@),
{
    let n = label.unicode_len();
    if n <= LABEL_LIMIT {
        label
    } else {
        label.substring_char(0, LABEL_LIMIT)
    }
}

/// A new bar for `msg` at `current` of `total`, sized for a terminal of
/// `max_width` columns.
pub fn get_bar(current: usize, total: usize, max_width: u16, msg: &str) -> (r: Bar)
    ensures
        r@ == (BarView {
            label: msg@,
            current: current,
            total: total,
            width: bar_width(max_width, msg@),
        }),
{
    let room: usize = if max_width >= BAR_MARGIN {
        (max_width - BAR_MARGIN) as usize
    } else {
        0
    };
    let shown = label_shown(msg).unicode_len();
    let width: usize = if room >= shown {
        room - shown
    } else {
        0
    };
    Bar { label: String::from_str(msg), current, total, width }
}

/// The screen row of the `nth` bar, counted from 1: the row below the
/// title for the first, and the last row a terminal can address for those
/// that would lie beyond it.
pub open spec fn bar_row(nth: nat) -> u16 {
    if nth < u16::MAX {
        (nth + 1) as u16
    } else {
        u16::MAX
    }
}

/// The line of the `nth` bar, counted from 1, for a bar that is rendered
/// as `bar`: its row cleared, the shown label in italics, then the bar in
/// bold blue with its unit.
pub open spec fn bar_line_text(nth: nat, label: Seq<char>, bar: Seq<char>) -> Seq<char> {
    goto_text(1, bar_row(nth)) + clear_line_text() + "🚛 "@ + italic_text() + shown_label(label)
        + reset_text() + seq![' '] + bold_text() + blue_text() + bar + "kb"@ + reset_text()
}

/// The line of the `nth` bar, counted from 1.
pub open spec fn fmt_bar_text(nth: nat, bar: BarView) -> Seq<char> {
    bar_line_text(nth, bar.label, bar_text(bar.current, bar.total, bar.width))
}

/// Formats the line of the `nth` bar, counted from 1, around the
/// rendered bar `bar`.
pub fn bar_line(nth: usize, label: &str, bar: &str) -> (r: String)
    ensures
        r@ == bar_line_text(nth as nat, label@, bar@),
{
    proof {
        reveal_strlit(" ");
        assert(" "@ =~= seq![' ']);
    }
    let row: u16 = if nth < u16::MAX as usize {
        (nth + 1) as u16
    } else {
        u16::MAX
    };
    let mut out = goto(1, row);
    out.append(clear_line().as_str());
    out.append("🚛 ");
    out.append(italic().as_str());
    out.append(label_shown(label));
    out.append(reset().as_str());
    out.append(" ");
    out.append(bold().as_str());
    out.append(fg_blue().as_str());
    out.append(bar);
    out.append("kb");
    out.append(reset().as_str());
    out
}

/// Formats the line of the `nth` bar, counted from 1.
pub fn fmt_bar(nth: usize, bar: &Bar) -> (r: String)
    requires
        bar.width <= u16::MAX,
    ensures
        r@ == fmt_bar_text(nth as nat, bar@),
{
    let rendered = render_bar(bar.current, bar.total, bar.width);
    bar_line(nth, bar.label.as_str(), rendered.as_str())
}

/// What the output actor keeps between messages, as contracts see it.
pub struct Screen {
    /// The formatted lines of the message log, oldest first.
    pub messages: Seq<Seq<char>>,
    /// The progress bars, in the order in which their labels were first seen.
    pub bars: Seq<BarView>,
}

/// The state of the output actor.
#[derive(Debug)]
pub struct UI {
    messages: Vec<String>,
    bars: Vec<Bar>,
}

/// What the actor does about one message.
#[derive(Debug, PartialEq, Eq)]
pub enum Reaction {
    /// Acknowledge the request to stop and end the loop; nothing is drawn.
    Quit,
    /// Draw this screen.
    Draw(String),
    /// Print the prompt, read one line and deliver it as the answer; then draw the screen.
    Ask { prompt: String, screen: String },
}

/// The title line of the screen.
pub open spec fn title_text() -> Seq<char> {
    goto_text(1, 1) + clear_line_text() + bold_text() + "🔦 blindspot package manager"@
        + reset_text()
}

/// The number of log lines for which a terminal of `rows` rows has room
/// below the title and `bars` bars.
pub open spec fn message_room(bars: nat, rows: u16) -> nat {
    if rows >= bars + 2 {
        (rows - (bars + 2)) as nat
    } else {
        0
    }
}

/// The index of the oldest log line that is drawn: the most recent lines
/// that fit are.
pub open spec fn first_drawn(count: nat, bars: nat, rows: u16) -> nat {
    if count > message_room(bars, rows) {
        (count - message_room(bars, rows)) as nat
    } else {
        0
    }
}

/// `lines` drawn on consecutive rows from `first_row` down.
pub open spec fn message_rows(lines: Seq<Seq<char>>, first_row: int) -> Seq<char>
    decreases lines.len(),
{
    if lines.len() == 0 {
        Seq::empty()
    } else {
        message_rows(lines.drop_last(), first_row) + goto_text(
            1,
            (first_row + lines.len() - 1) as u16,
        ) + lines.last()
    }
}

/// The lines of `bars`, the first on the row below the title.
pub open spec fn bar_rows(bars: Seq<BarView>) -> Seq<char>
    decreases bars.len(),
{
    if bars.len() == 0 {
        Seq::empty()
    } else {
        bar_rows(bars.drop_last()) + fmt_bar_text(bars.len(), bars.last())
    }
}

/// The row on which the cursor is left: below everything drawn, and on the
/// terminal's last row where that lies beyond it.
pub open spec fn cursor_row(s: Screen, rows: u16) -> u16 {
    if s.bars.len() + s.messages.len() + 2 < rows {
        (s.bars.len() + s.messages.len() + 2) as u16
    } else {
        rows
    }
}

/// The whole screen for a terminal of `rows` rows: the title, the most
/// recent log lines that fit, one line per bar, and the cursor's position.
pub open spec fn screen_text(s: Screen, rows: u16) -> Seq<char> {
    title_text() + message_rows(
        s.messages.skip(first_drawn(s.messages.len(), s.bars.len(), rows) as int),
        s.bars.len() as int + 2,
    ) + bar_rows(s.bars) + goto_text(1, cursor_row(s, rows))
}

/// Whether some bar is labelled `label`.
pub open spec fn has_bar(bars: Seq<BarView>, label: Seq<char>) -> bool {
    exists|i: int| 0 <= i < bars.len() && #[trigger] bars[i].label == label
}

/// The bars after progress `current` of `total` was reported for `label`
/// on a terminal of `columns` columns: the bar of that label moves to
/// `current`, and a label not seen before gets a new bar at the end.
pub open spec fn bars_after(
    bars: Seq<BarView>,
    current: u64,
    total: u64,
    label: Seq<char>,
    columns: u16,
) -> Seq<BarView> {
    if has_bar(bars, label) {
        Seq::new(
            bars.len(),
            |i: int|
                if bars[i].label == label {
                    BarView { current: bar_value(current), ..bars[i] }
                } else {
                    bars[i]
                },
        )
    } else {
        bars.push(
            BarView {
                label: label,
                current: bar_value(current),
                total: bar_value(total),
                width: bar_width(columns, label),
            },
        )
    }
}

/// The state after the message `msg` of the sender `context`.
pub open spec fn screen_after(s: Screen, context: Seq<char>, msg: Message, columns: u16) -> Screen {
    match msg {
        Message::Notification(text) => Screen {
            messages: s.messages.push(fmt_msg_text(context, text@)),
            ..s
        },
        Message::Progress(p) => Screen { bars: bars_after(s.bars, p.0, p.1, p.2@, columns), ..s },
        Message::Question(_) => s,
        Message::Quit => s,
    }
}

/// Nothing shown is lost to a message: the log keeps its lines in place,
/// and every label that has a bar keeps it. So there is one bar for each
/// label ever seen.
pub proof fn lemma_screen_keeps(s: Screen, context: Seq<char>, msg: Message, columns: u16)
    ensures
        s.messages.len() <= screen_after(s, context, msg, columns).messages.len(),
        forall|i: int|
            0 <= i < s.messages.len() ==> screen_after(s, context, msg, columns).messages[i]
                == s.messages[i],
        forall|label: Seq<char>|
            has_bar(s.bars, label) ==> has_bar(screen_after(s, context, msg, columns).bars, label),
        msg matches Message::Progress(p) ==> has_bar(
            screen_after(s, context, msg, columns).bars,
            p.2@,
        ),
{
    let after = screen_after(s, context, msg, columns);
    assert forall|label: Seq<char>| has_bar(s.bars, label) implies has_bar(after.bars, label) by {
        let i = choose|i: int| 0 <= i < s.bars.len() && #[trigger] s.bars[i].label == label;
        assert(after.bars[i].label == label);
    }
    match msg {
        Message::Progress(p) => {
            if has_bar(s.bars, p.2@) {
            } else {
                assert(after.bars[after.bars.len() - 1].label == p.2@);
            }
        },
        _ => {},
    }
}

/// No two of `bars` carry the same label.
pub open spec fn distinct_labels(bars: Seq<BarView>) -> bool {
    forall|i: int, j: int| 0 <= i < j < bars.len() ==> bars[i].label != bars[j].label
}

impl View for UI {
    type V = Screen;

    closed spec fn view(&self) -> Screen {
        Screen {
            messages: Seq::new(self.messages@.len(), |i: int| self.messages@[i]@),
            bars: Seq::new(self.bars@.len(), |i: int| self.bars@[i]@),
        }
    }
}

impl UI {
    /// The state is sound: there is one bar per label, and no bar is wider
    /// than a terminal line can be.
    pub open spec fn wf(&self) -> bool {
        &&& distinct_labels(self@.bars)
        &&& forall|i: int| 0 <= i < self@.bars.len() ==> (#[trigger] self@.bars[i]).width <= u16::MAX
    }

    /// The state before the first message: an empty log and no bars.
    pub fn new() -> (r: UI)
        ensures
            r.wf(),
            r@.messages.len() == 0,
            r@.bars.len() == 0,
    {
        UI { messages: Vec::new(), bars: Vec::new() }
    }

    /// What is written before the first message is taken: the sequence
    /// that clears the terminal.
    pub fn start(&self) -> (r: String)
        ensures
            r@ == clear_all_text(),
    {
        clear_all()
    }

    /// A handle labelled `name` for a producer of this actor.
    pub fn context(&self, name: String) -> (r: Context)
        ensures
            r.label() == name@,
    {
        Context { name }
    }

    /// Takes one byte of the user's answer. A line feed completes the
    /// line, a byte outside ASCII is refused, and any other byte is added
    /// to `line` as the character it encodes.
    pub fn read_line(line: &mut String, byte: u8) -> (r: LineStep)
        ensures
            byte >= 0x80 ==> r == LineStep::Invalid && final(line)@ == old(line)@,
            byte == 0x0a ==> r == LineStep::Complete && final(line)@ == old(line)@,
            byte < 0x80 && byte != 0x0a ==> r == LineStep::More && final(line)@ == old(line)@.push(
                byte as char,
            ),
    {
        if byte >= 0x80 {
            LineStep::Invalid
        } else if byte == 0x0a {
            LineStep::Complete
        } else {
            push_char(line, byte as char);
            LineStep::More
        }
    }

    /// The formatted lines of the message log, oldest first.
    pub fn messages(&self) -> (r: &Vec<String>)
        ensures
            r@.len() == self@.messages.len(),
            forall|i: int| 0 <= i < r@.len() ==> r@[i]@ == self@.messages[i],
    {
        &self.messages
    }

    /// The progress bars, in the order in which their labels were first seen.
    pub fn bars(&self) -> (r: &Vec<Bar>)
        ensures
            r@.len() == self@.bars.len(),
            forall|i: int| 0 <= i < r@.len() ==> r@[i]@ == self@.bars[i],
    {
        &self.bars
    }

    /// The whole screen for a terminal of `rows` rows.
    pub fn render(&self, rows: u16) -> (r: String)
        requires
            self.wf(),
        ensures
            r@ == screen_text(self@, rows),
    {
        let count = self.messages.len();
        let bars = self.bars.len();
        let height = rows as usize;
        let room: usize = if bars <= height && height - bars >= 2 {
            height - bars - 2
        } else {
            0
        };
        let from: usize = if count > room {
            count - room
        } else {
            0
        };
        assert(room == message_room(self@.bars.len(), rows));
        assert(from == first_drawn(self@.messages.len(), self@.bars.len(), rows));
        let mut out = goto(1, 1);
        out.append(clear_line().as_str());
        out.append(bold().as_str());
        out.append("🔦 blindspot package manager");
        out.append(reset().as_str());
        assert(out@ == title_text());
        let ghost first_row = bars as int + 2;
        let mut k: usize = from;
        assert(self@.messages.subrange(from as int, k as int) =~= Seq::<Seq<char>>::empty());
        while k < count
            invariant
                count == self.messages.len(),
                bars == self.bars.len(),
                first_row == bars + 2,
                from <= k <= count,
                count - from <= room,
                room > 0 ==> bars + 2 + room <= rows,
                out@ == title_text() + message_rows(
                    self@.messages.subrange(from as int, k as int),
                    first_row,
                ),
            decreases count - k,
        {
            let row: u16 = (bars + 2 + (k - from)) as u16;
            let ghost before = self@.messages.subrange(from as int, k as int);
            let ghost lines = self@.messages.subrange(from as int, k as int + 1);
            assert(lines.drop_last() =~= before);
            assert(lines.last() == self.messages@[k as int]@);
            out.append(goto(1, row).as_str());
            out.append(self.messages[k].as_str());
            assert(out@ =~= title_text() + message_rows(lines, first_row));
            k += 1;
        }
        assert(self@.messages.subrange(from as int, count as int) =~= self@.messages.skip(
            from as int,
        ));
        let ghost log = title_text() + message_rows(self@.messages.skip(from as int), first_row);
        let mut i: usize = 0;
        assert(self@.bars.take(0) =~= Seq::<BarView>::empty());
        assert(out@ =~= log + bar_rows(self@.bars.take(0)));
        while i < bars
            invariant
                self.wf(),
                bars == self.bars.len(),
                i <= bars,
                out@ == log + bar_rows(self@.bars.take(i as int)),
            decreases bars - i,
        {
            let ghost before = self@.bars.take(i as int);
            let ghost upto = self@.bars.take(i as int + 1);
            assert(upto.drop_last() =~= before);
            assert(upto.last() == self.bars@[i as int]@);
            assert(self@.bars[i as int].width <= u16::MAX);
            out.append(fmt_bar(i + 1, &self.bars[i]).as_str());
            assert(out@ =~= log + bar_rows(upto));
            i += 1;
        }
        assert(self@.bars.take(bars as int) =~= self@.bars);
        let last: u16 = if bars < height && count < height - bars && height - bars - count > 2 {
            (bars + count + 2) as u16
        } else {
            rows
        };
        assert(last == cursor_row(self@, rows));
        out.append(goto(1, last).as_str());
        out
    }

    /// Records progress `current` of `total` for the bar labelled `label`.
    fn track(&mut self, current: u64, total: u64, label: String, columns: u16)
        requires
            old(self).wf(),
        ensures
            final(self).wf(),
            final(self)@.messages == old(self)@.messages,
            final(self)@.bars == bars_after(old(self)@.bars, current, total, label@, columns),
    {
        let value = to_bar_value(current);
        let mut i: usize = 0;
        while i < self.bars.len()
            invariant
                self.wf(),
                self@ == old(self)@,
                value == bar_value(current),
                i <= self.bars.len(),
                forall|k: int| 0 <= k < i ==> self@.bars[k].label != label@,
            decreases self.bars.len() - i,
        {
            if self.bars[i].label == label {
                let ghost before = self@.bars;
                assert(before[i as int].label == label@);
                let moved = Bar {
                    label,
                    current: value,
                    total: self.bars[i].total,
                    width: self.bars[i].width,
                };
                self.bars.set(i, moved);
                assert(has_bar(before, label@));
                let ghost after = bars_after(before, current, total, label@, columns);
                assert(self@.bars.len() == after.len());
                assert forall|j: int| 0 <= j < after.len() implies self@.bars[j] == after[j] by {
                    if j < i {
                        assert(before[j].label != before[i as int].label);
                    } else if j > i {
                        assert(before[i as int].label != before[j].label);
                    }
                }
                assert(self@.bars =~= after);
                assert(self@.messages =~= old(self)@.messages);
                return ;
            }
            i += 1;
        }
        let ghost before = self@.bars;
        assert(!has_bar(before, label@));
        let bar = get_bar(value, to_bar_value(total), columns, label.as_str());
        self.bars.push(bar);
        assert(self@.bars =~= bars_after(before, current, total, label@, columns));
        assert(self@.messages =~= old(self)@.messages);
    }

    /// Takes the message `msg` of the sender `context` on a terminal of
    /// `columns` by `rows`: the state moves on, and the reaction says what
    /// to do. Every message but the request to stop is followed by exactly
    /// one drawing of the whole screen.
    pub fn handle(&mut self, context: &str, msg: Message, columns: u16, rows: u16) -> (r: Reaction)
        requires
            old(self).wf(),
        ensures
            final(self).wf(),
            final(self)@ == screen_after(old(self)@, context@, msg, columns),
            match msg {
                Message::Quit => r is Quit,
                Message::Question(text) => r matches Reaction::Ask { prompt, screen } && prompt@
                    == fmt_msg_text(context@, text@) && screen@ == screen_text(
                    final(self)@,
                    rows,
                ),
                _ => r matches Reaction::Draw(screen) && screen@ == screen_text(final(self)@, rows),
            },
    {
        match msg {
            Message::Quit => Reaction::Quit,
            Message::Notification(text) => {
                let ghost before = self@;
                let line = fmt_msg(context, text.as_str());
                self.messages.push(line);
                assert(self@.messages =~= before.messages.push(fmt_msg_text(context@, text@)));
                assert(self@.bars =~= before.bars);
                Reaction::Draw(self.render(rows))
            },
            Message::Question(text) => {
                let prompt = fmt_msg(context, text.as_str());
                Reaction::Ask { prompt, screen: self.render(rows) }
            },
            Message::Progress(p) => {
                self.track(p.0, p.1, p.2, columns);
                Reaction::Draw(self.render(rows))
            },
        }
    }
}

} // verus!
