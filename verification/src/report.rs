//! Terminal reporting: status lines, notices, results and error chains, each
//! routed to the result stream or the diagnostic stream, styled when colors are on.
//!
//! A `Reporter` keeps the text written to each stream until its owner takes it
//! out and hands it to the terminal; when both streams share one writer, all
//! text goes to the result stream in the order it was written.

use vstd::prelude::*;
use crate::execution::{describe_spec, PreviewChange, PreviewView};
use crate::text::{decimal, push_decimal};

verus! {

broadcast use vstd::string::group_string_axioms;

/// Width to which status labels are right-aligned.
pub const LABEL_WIDTH: usize = 12;

/// Whether output may be colored.
#[derive(Clone, Copy, Debug, PartialEq, Eq, Structural)]
pub enum ColorMode {
    Auto,
    Always,
    Never,
}

impl Default for ColorMode {
    fn default() -> (r: ColorMode)
        ensures
            r == ColorMode::Auto,
    {
        ColorMode::Auto
    }
}

/// The styles of the reporter's labels.
#[derive(Clone, Copy, PartialEq, Eq, Structural)]
pub enum Tone {
    /// Bold green: status labels and `Finished`.
    Status,
    /// Bold yellow: `warning:`.
    Warning,
    /// Bold cyan: `note:`.
    Note,
    /// Bold red: `error:`.
    Error,
}

/// The foreground colors of labels.
#[derive(Clone, Copy, PartialEq, Eq, Structural)]
pub enum LabelColor {
    Green,
    Yellow,
    Cyan,
    Red,
}

/// The ANSI code that selects a foreground color.
pub open spec fn fg_code(color: LabelColor) -> Seq<char> {
    match color {
        LabelColor::Green => "\x1b[32m"@,
        LabelColor::Yellow => "\x1b[33m"@,
        LabelColor::Cyan => "\x1b[36m"@,
        LabelColor::Red => "\x1b[31m"@,
    }
}

/// The color of each tone.
pub open spec fn tone_color_spec(tone: Tone) -> LabelColor {
    match tone {
        Tone::Status => LabelColor::Green,
        Tone::Warning => LabelColor::Yellow,
        Tone::Note => LabelColor::Cyan,
        Tone::Error => LabelColor::Red,
    }
}

fn tone_color(tone: Tone) -> (r: LabelColor)
    ensures
        r == tone_color_spec(tone),
{
    match tone {
        Tone::Status => LabelColor::Green,
        Tone::Warning => LabelColor::Yellow,
        Tone::Note => LabelColor::Cyan,
        Tone::Error => LabelColor::Red,
    }
}

/// `value` wrapped in the codes of a tone (bold, then its color) and the reset code.
pub open spec fn painted(value: Seq<char>, tone: Tone) -> Seq<char> {
    "\x1b[1m"@ + fg_code(tone_color_spec(tone)) + value + "\x1b[0m"@
}

/// Renders `value` with `anstyle`: the `Display` of
/// `Style::new().bold().fg_color(Some(color))`, the value, then the style's
/// reset (`{style:#}`). The contract states the codes that `anstyle` writes
/// for such a style: the bold code, the color code, and the reset code.
#[verifier::external_body]
fn paint_bold(value: &str, color: LabelColor) -> (r: String)
    ensures
        r@ == "\x1b[1m"@ + fg_code(color) + value@ + "\x1b[0m"@,
{
    let color = match color {
        LabelColor::Green => anstyle::AnsiColor::Green,
        LabelColor::Yellow => anstyle::AnsiColor::Yellow,
        LabelColor::Cyan => anstyle::AnsiColor::Cyan,
        LabelColor::Red => anstyle::AnsiColor::Red,
    };
    let style = anstyle::Style::new().bold().fg_color(Some(color.into()));
    format!("{style}{value}{style:#}")
}

fn paint(value: &str, tone: Tone) -> (r: String)
    ensures
        r@ == painted(value@, tone),
{
    paint_bold(value, tone_color(tone))
}

/// `s` right-aligned in a field of `width` characters.
pub open spec fn pad_left(s: Seq<char>, width: nat) -> Seq<char> {
    if s.len() >= width {
        s
    } else {
        Seq::new((width - s.len()) as nat, |i: int| ' ') + s
    }
}

/// `value`, painted in `tone` when `color` is on.
pub open spec fn styled(value: Seq<char>, tone: Tone, color: bool) -> Seq<char> {
    if color {
        painted(value, tone)
    } else {
        value
    }
}

struct ReportStream {
    pending: String,
    color_enabled: bool,
}

/// Writes results and diagnostics to two streams.
pub struct Reporter {
    result: ReportStream,
    diagnostic: ReportStream,
    shared: bool,
    discard: bool,
}

/// What a reporter holds: the text not yet taken out of each stream, whether
/// each stream is colored, whether the streams share one writer, and whether
/// everything written is thrown away.
pub struct ReporterView {
    pub result: Seq<char>,
    pub diagnostic: Seq<char>,
    pub result_color: bool,
    pub diagnostic_color: bool,
    pub shared: bool,
    pub discard: bool,
}

impl View for Reporter {
    type V = ReporterView;

    closed spec fn view(&self) -> ReporterView {
        ReporterView {
            result: self.result.pending@,
            diagnostic: self.diagnostic.pending@,
            result_color: self.result.color_enabled,
            diagnostic_color: self.diagnostic.color_enabled,
            shared: self.shared,
            discard: self.discard,
        }
    }
}

/// The reporter after `line` was written to the result stream.
pub open spec fn after_result_line(r: ReporterView, line: Seq<char>) -> ReporterView {
    if r.discard {
        r
    } else {
        ReporterView { result: (r.result + line).push('\n'), ..r }
    }
}

/// The reporter after `line` was written to the diagnostic stream.
pub open spec fn after_diagnostic_line(r: ReporterView, line: Seq<char>) -> ReporterView {
    if r.discard {
        r
    } else if r.shared {
        ReporterView { result: (r.result + line).push('\n'), ..r }
    } else {
        ReporterView { diagnostic: (r.diagnostic + line).push('\n'), ..r }
    }
}

/// With separate writers, results never reach the diagnostic stream and
/// diagnostics never reach the result stream; with one shared writer, both
/// reach it in the order they were written.
pub proof fn lemma_streams_are_routed(r: ReporterView, line: Seq<char>)
    ensures
        r.discard ==> after_result_line(r, line) == r && after_diagnostic_line(r, line) == r,
        !r.shared ==> after_result_line(r, line).diagnostic == r.diagnostic,
        !r.shared ==> after_diagnostic_line(r, line).result == r.result,
        r.shared ==> after_diagnostic_line(r, line) == after_result_line(r, line),
{
}

/// A call that writes to a reporter, with its arguments.
pub enum ReportCall {
    Status(Seq<char>, Seq<char>),
    Finish(Seq<char>),
    Warning(Seq<char>),
    Note(Seq<char>),
    Line(Seq<char>),
    Preview(PreviewView),
    Error(Seq<Seq<char>>),
}

/// Whether a call writes to the result stream (the others write diagnostics).
pub open spec fn is_result_call(c: ReportCall) -> bool {
    c is Finish || c is Line
}

/// The reporter after one call, as the method of that name ensures.
pub open spec fn after_call(r: ReporterView, c: ReportCall) -> ReporterView {
    match c {
        ReportCall::Status(label, message) => after_diagnostic_line(r, status_line(r, label, message)),
        ReportCall::Finish(message) => after_result_line(r, finish_line(r, message)),
        ReportCall::Warning(message) => after_diagnostic_line(r, warning_line(r, message)),
        ReportCall::Note(message) => after_diagnostic_line(r, note_line(r, message)),
        ReportCall::Line(message) => after_result_line(r, message),
        ReportCall::Preview(change) => after_diagnostic_line(r, note_line(r, describe_spec(change))),
        ReportCall::Error(chain) => after_error(r, chain),
    }
}

/// The reporter after the calls `cs`, in order.
pub open spec fn after_calls(r: ReporterView, cs: Seq<ReportCall>) -> ReporterView
    decreases cs.len(),
{
    if cs.len() == 0 {
        r
    } else {
        after_call(after_calls(r, cs.drop_last()), cs.last())
    }
}

/// The calls of `cs` that write to the result stream (`to_result`), or those
/// that write diagnostics, in order.
pub open spec fn calls_to(cs: Seq<ReportCall>, to_result: bool) -> Seq<ReportCall>
    decreases cs.len(),
{
    if cs.len() == 0 {
        Seq::empty()
    } else if is_result_call(cs.last()) == to_result {
        calls_to(cs.drop_last(), to_result).push(cs.last())
    } else {
        calls_to(cs.drop_last(), to_result)
    }
}

/// Whether two reporters have the same settings.
pub open spec fn same_settings(a: ReporterView, b: ReporterView) -> bool {
    a.result_color == b.result_color && a.diagnostic_color == b.diagnostic_color && a.shared
        == b.shared && a.discard == b.discard
}

/// No call changes a reporter's settings.
pub proof fn lemma_calls_keep_settings(r: ReporterView, cs: Seq<ReportCall>)
    ensures
        same_settings(after_calls(r, cs), r),
    decreases cs.len(),
{
    if cs.len() > 0 {
        lemma_calls_keep_settings(r, cs.drop_last());
    }
}

/// Over any sequence of calls: a discarding reporter stays as it is; with one
/// shared writer nothing reaches the diagnostic stream; with separate writers
/// the result stream gets exactly what the result calls (`finish`, `line`)
/// write, in their order, and the diagnostic stream exactly what the other
/// calls write, in their order.
pub proof fn lemma_calls_are_routed(r: ReporterView, cs: Seq<ReportCall>)
    ensures
        r.discard ==> after_calls(r, cs) == r,
        r.shared ==> after_calls(r, cs).diagnostic == r.diagnostic,
        !r.shared ==> after_calls(r, cs).result == after_calls(r, calls_to(cs, true)).result,
        !r.shared ==> after_calls(r, cs).diagnostic == after_calls(
            r,
            calls_to(cs, false),
        ).diagnostic,
    decreases cs.len(),
{
    if cs.len() > 0 {
        let rest = cs.drop_last();
        let c = cs.last();
        lemma_calls_are_routed(r, rest);
        lemma_calls_keep_settings(r, rest);
        lemma_calls_keep_settings(r, calls_to(rest, true));
        lemma_calls_keep_settings(r, calls_to(rest, false));
        let a = after_calls(r, rest);
        let ar = after_calls(r, calls_to(rest, true));
        let ad = after_calls(r, calls_to(rest, false));
        if is_result_call(c) {
            assert(calls_to(cs, true).drop_last() == calls_to(rest, true));
        } else {
            assert(calls_to(cs, false).drop_last() == calls_to(rest, false));
        }
    }
}

/// Without colors, a styled label is the label itself: no escape codes.
pub proof fn lemma_plain_without_color(value: Seq<char>, tone: Tone)
    ensures
        styled(value, tone, false) == value,
{
}

/// The line of a status: its label right-aligned and styled, then the message.
pub open spec fn status_line(r: ReporterView, label: Seq<char>, message: Seq<char>) -> Seq<char> {
    styled(pad_left(label, LABEL_WIDTH as nat), Tone::Status, r.diagnostic_color).push(' ') + message
}

pub open spec fn finish_line(r: ReporterView, message: Seq<char>) -> Seq<char> {
    styled(pad_left("Finished"@, LABEL_WIDTH as nat), Tone::Status, r.result_color).push(' ')
        + message
}

pub open spec fn warning_line(r: ReporterView, message: Seq<char>) -> Seq<char> {
    styled("warning:"@, Tone::Warning, r.diagnostic_color).push(' ') + message
}

pub open spec fn note_line(r: ReporterView, message: Seq<char>) -> Seq<char> {
    styled("note:"@, Tone::Note, r.diagnostic_color).push(' ') + message
}

pub open spec fn error_head_line(r: ReporterView, message: Seq<char>) -> Seq<char> {
    styled("error:"@, Tone::Error, r.diagnostic_color).push(' ') + message
}

/// The line that shows cause number `i` of an error chain.
pub open spec fn cause_line(i: nat, cause: Seq<char>) -> Seq<char> {
    "  "@ + decimal(i) + ": "@ + cause
}

/// The diagnostic text of an error chain's causes, from cause `from` on.
pub open spec fn causes_text(causes: Seq<Seq<char>>, from: nat) -> Seq<char>
    decreases causes.len() - from,
{
    if from >= causes.len() {
        Seq::empty()
    } else {
        cause_line(from, causes[from as int]).push('\n') + causes_text(causes, from + 1)
    }
}

/// The reporter after an error chain (its head first, then its causes) was written.
pub open spec fn after_error(r: ReporterView, chain: Seq<Seq<char>>) -> ReporterView {
    if chain.len() == 0 || r.discard {
        r
    } else if chain.len() == 1 {
        after_diagnostic_line(r, error_head_line(r, chain[0]))
    } else {
        let with_head = after_diagnostic_line(r, error_head_line(r, chain[0]));
        let with_caption = after_diagnostic_line(with_head, "Caused by:"@);
        let text = causes_text(chain.drop_first(), 0);
        if r.shared {
            ReporterView { result: with_caption.result + text, ..with_caption }
        } else {
            ReporterView { diagnostic: with_caption.diagnostic + text, ..with_caption }
        }
    }
}

fn padded(label: &str) -> (r: String)
    ensures
        r@ == pad_left(label@, LABEL_WIDTH as nat),
{
    let n = crate::text::chars_of(label).len();
    let mut r = String::new();
    if n < LABEL_WIDTH {
        let mut i: usize = 0;
        while i < LABEL_WIDTH - n
            invariant
                n < LABEL_WIDTH,
                i <= LABEL_WIDTH - n,
                r@ == Seq::new(i as nat, |k: int| ' '),
            decreases LABEL_WIDTH - n - i,
        {
            r.push(' ');
            assert(r@ =~= Seq::new((i + 1) as nat, |k: int| ' '));
            i = i + 1;
        }
    }
    r.push_str(label);
    r
}

impl Reporter {
    /// A reporter whose two streams are separate, with their own color settings.
    pub fn with_streams(result_color: bool, diagnostic_color: bool) -> (r: Reporter)
        ensures
            r@ == (ReporterView {
                result: Seq::empty(),
                diagnostic: Seq::empty(),
                result_color,
                diagnostic_color,
                shared: false,
                discard: false,
            }),
    {
        Reporter {
            result: ReportStream { pending: String::new(), color_enabled: result_color },
            diagnostic: ReportStream { pending: String::new(), color_enabled: diagnostic_color },
            shared: false,
            discard: false,
        }
    }

    /// A reporter whose results and diagnostics go to one writer; colored only
    /// when colors are forced.
    pub fn sink(mode: ColorMode) -> (r: Reporter)
        ensures
            r@ == (ReporterView {
                result: Seq::empty(),
                diagnostic: Seq::empty(),
                result_color: mode == ColorMode::Always,
                diagnostic_color: mode == ColorMode::Always,
                shared: true,
                discard: false,
            }),
    {
        let color = mode == ColorMode::Always;
        Reporter {
            result: ReportStream { pending: String::new(), color_enabled: color },
            diagnostic: ReportStream { pending: String::new(), color_enabled: color },
            shared: true,
            discard: false,
        }
    }

    /// A reporter that throws away everything written to it.
    pub fn silent() -> (r: Reporter)
        ensures
            r@ == (ReporterView {
                result: Seq::empty(),
                diagnostic: Seq::empty(),
                result_color: false,
                diagnostic_color: false,
                shared: true,
                discard: true,
            }),
    {
        Reporter {
            result: ReportStream { pending: String::new(), color_enabled: false },
            diagnostic: ReportStream { pending: String::new(), color_enabled: false },
            shared: true,
            discard: true,
        }
    }

    /// A reporter whose results and diagnostics go to two writers; colored only
    /// when colors are forced.
    pub fn sink_split(mode: ColorMode) -> (r: Reporter)
        ensures
            r@ == (ReporterView {
                result: Seq::empty(),
                diagnostic: Seq::empty(),
                result_color: mode == ColorMode::Always,
                diagnostic_color: mode == ColorMode::Always,
                shared: false,
                discard: false,
            }),
    {
        let color = mode == ColorMode::Always;
        Reporter::with_streams(color, color)
    }

    /// Whether the result stream is colored.
    pub fn color_enabled(&self) -> (r: bool)
        ensures
            r == self@.result_color,
    {
        self.result.color_enabled
    }

    /// Takes out the text written to the result stream so far.
    pub fn take_result_output(&mut self) -> (r: String)
        ensures
            r@ == old(self)@.result,
            final(self)@ == (ReporterView { result: Seq::empty(), ..old(self)@ }),
    {
        let out = self.result.pending.clone();
        self.result.pending = String::new();
        out
    }

    /// Takes out the text written to the diagnostic stream so far.
    pub fn take_diagnostic_output(&mut self) -> (r: String)
        ensures
            r@ == old(self)@.diagnostic,
            final(self)@ == (ReporterView { diagnostic: Seq::empty(), ..old(self)@ }),
    {
        let out = self.diagnostic.pending.clone();
        self.diagnostic.pending = String::new();
        out
    }

    fn write_result_line(&mut self, line: &str)
        ensures
            final(self)@ == after_result_line(old(self)@, line@),
    {
        if !self.discard {
            self.result.pending.push_str(line);
            self.result.pending.push('\n');
        }
    }

    fn write_diagnostic_line(&mut self, line: &str)
        ensures
            final(self)@ == after_diagnostic_line(old(self)@, line@),
    {
        if self.discard {
        } else if self.shared {
            self.result.pending.push_str(line);
            self.result.pending.push('\n');
        } else {
            self.diagnostic.pending.push_str(line);
            self.diagnostic.pending.push('\n');
        }
    }

    fn styled_result(&self, value: &str, tone: Tone) -> (r: String)
        ensures
            r@ == styled(value@, tone, self@.result_color),
    {
        if self.result.color_enabled {
            paint(value, tone)
        } else {
            value.to_string()
        }
    }

    fn styled_diagnostic(&self, value: &str, tone: Tone) -> (r: String)
        ensures
            r@ == styled(value@, tone, self@.diagnostic_color),
    {
        if self.diagnostic.color_enabled {
            paint(value, tone)
        } else {
            value.to_string()
        }
    }

    /// Writes `label` right-aligned in its column, then `message`, to the
    /// diagnostic stream.
    pub fn status(&mut self, label: &str, message: &str)
        ensures
            final(self)@ == after_diagnostic_line(old(self)@, status_line(old(self)@, label@, message@)),
    {
        let p = padded(label);
        let mut line = self.styled_diagnostic(p.as_str(), Tone::Status);
        line.push(' ');
        line.push_str(message);
        self.write_diagnostic_line(line.as_str());
    }

    /// Writes `Finished` in the label column, then `message`, to the result stream.
    pub fn finish(&mut self, message: &str)
        ensures
            final(self)@ == after_result_line(old(self)@, finish_line(old(self)@, message@)),
    {
        let p = padded("Finished");
        let mut line = self.styled_result(p.as_str(), Tone::Status);
        line.push(' ');
        line.push_str(message);
        self.write_result_line(line.as_str());
    }

    /// Writes `warning: message` to the diagnostic stream.
    pub fn warning(&mut self, message: &str)
        ensures
            final(self)@ == after_diagnostic_line(old(self)@, warning_line(old(self)@, message@)),
    {
        let mut line = self.styled_diagnostic("warning:", Tone::Warning);
        line.push(' ');
        line.push_str(message);
        self.write_diagnostic_line(line.as_str());
    }

    /// Writes `note: message` to the diagnostic stream.
    pub fn note(&mut self, message: &str)
        ensures
            final(self)@ == after_diagnostic_line(old(self)@, note_line(old(self)@, message@)),
    {
        let mut line = self.styled_diagnostic("note:", Tone::Note);
        line.push(' ');
        line.push_str(message);
        self.write_diagnostic_line(line.as_str());
    }

    /// Writes `message` as it is to the result stream.
    pub fn line(&mut self, message: &str)
        ensures
            final(self)@ == after_result_line(old(self)@, message@),
    {
        self.write_result_line(message);
    }

    /// Writes the note that describes a change a dry run would make.
    pub fn preview(&mut self, change: &PreviewChange)
        ensures
            final(self)@ == after_diagnostic_line(
                old(self)@,
                note_line(old(self)@, describe_spec(change@)),
            ),
    {
        let text = change.describe();
        self.note(text.as_str());
    }

    /// Writes an error chain, outermost message first: `error: <head>`, then,
    /// when there are causes, `Caused by:` and one numbered line per cause.
    pub fn error(&mut self, chain: &Vec<String>)
        ensures
            final(self)@ == after_error(old(self)@, chain@.map_values(|m: String| m@)),
    {
        let ghost start = self@;
        let ghost views = chain@.map_values(|m: String| m@);
        if chain.len() == 0 || self.discard {
            return;
        }
        let mut head = self.styled_diagnostic("error:", Tone::Error);
        head.push(' ');
        head.push_str(chain[0].as_str());
        self.write_diagnostic_line(head.as_str());
        if chain.len() == 1 {
            return;
        }
        self.write_diagnostic_line("Caused by:");
        let ghost captioned = self@;
        let ghost causes = views.drop_first();
        let mut i: usize = 1;
        while i < chain.len()
            invariant
                1 <= i <= chain.len(),
                views == chain@.map_values(|m: String| m@),
                causes == views.drop_first(),
                !captioned.discard,
                self@ == (if captioned.shared {
                    ReporterView {
                        result: captioned.result + causes_text(causes, 0).take(
                            causes_prefix_len(causes, (i - 1) as nat) as int,
                        ),
                        ..captioned
                    }
                } else {
                    ReporterView {
                        diagnostic: captioned.diagnostic + causes_text(causes, 0).take(
                            causes_prefix_len(causes, (i - 1) as nat) as int,
                        ),
                        ..captioned
                    }
                }),
            decreases chain.len() - i,
        {
            let mut line = String::new();
            line.push_str("  ");
            push_decimal(&mut line, (i - 1) as u64);
            line.push_str(": ");
            line.push_str(chain[i].as_str());
            assert(line@ == cause_line((i - 1) as nat, causes[i - 1]));
            let ghost before = self@;
            self.write_diagnostic_line(line.as_str());
            proof {
                lemma_causes_text_step(causes, (i - 1) as nat);
                let t = causes_text(causes, 0);
                let a = t.take(causes_prefix_len(causes, (i - 1) as nat) as int);
                let l = cause_line((i - 1) as nat, causes[i - 1]);
                assert((captioned.result + a + l).push('\n') =~= captioned.result + (a + l.push(
                    '\n',
                )));
                assert((captioned.diagnostic + a + l).push('\n') =~= captioned.diagnostic + (a
                    + l.push('\n')));
            }
            i = i + 1;
        }
        proof {
            lemma_causes_text_full(causes);
        }
    }
}

/// The length of the text of causes `0..n`.
pub open spec fn causes_prefix_len(causes: Seq<Seq<char>>, n: nat) -> nat
    decreases n,
{
    if n == 0 {
        0
    } else {
        causes_prefix_len(causes, (n - 1) as nat) + cause_line((n - 1) as nat, causes[n - 1]).push('\n').len()
    }
}

proof fn lemma_causes_text_split(causes: Seq<Seq<char>>, n: nat)
    requires
        n <= causes.len(),
    ensures
        causes_text(causes, 0) == causes_text(causes, 0).take(causes_prefix_len(causes, n) as int)
            + causes_text(causes, n),
        causes_prefix_len(causes, n) <= causes_text(causes, 0).len(),
    decreases n,
{
    if n > 0 {
        lemma_causes_text_split(causes, (n - 1) as nat);
        let t = causes_text(causes, 0);
        let k = causes_prefix_len(causes, (n - 1) as nat) as int;
        let line = cause_line((n - 1) as nat, causes[n - 1]).push('\n');
        assert(causes_text(causes, (n - 1) as nat) == line + causes_text(causes, n));
        assert(t.take(k + line.len()) =~= t.take(k) + line);
        assert(t =~= t.take(k + line.len()) + causes_text(causes, n));
    } else {
        assert(causes_text(causes, 0).take(0) =~= Seq::<char>::empty());
    }
}

proof fn lemma_causes_text_step(causes: Seq<Seq<char>>, n: nat)
    requires
        n < causes.len(),
    ensures
        causes_text(causes, 0).take(causes_prefix_len(causes, n + 1) as int) == causes_text(
            causes,
            0,
        ).take(causes_prefix_len(causes, n) as int) + cause_line(n, causes[n as int]).push('\n'),
{
    lemma_causes_text_split(causes, n);
    lemma_causes_text_split(causes, n + 1);
    let t = causes_text(causes, 0);
    let k = causes_prefix_len(causes, n) as int;
    let line = cause_line(n, causes[n as int]).push('\n');
    assert(causes_text(causes, n) == line + causes_text(causes, n + 1));
    assert(t.take(k + line.len()) =~= t.take(k) + line);
}

proof fn lemma_causes_text_full(causes: Seq<Seq<char>>)
    ensures
        causes_text(causes, 0).take(causes_prefix_len(causes, causes.len()) as int) == causes_text(
            causes,
            0,
        ),
{
    lemma_causes_text_split(causes, causes.len());
    assert(causes_text(causes, causes.len()) =~= Seq::<char>::empty());
    assert(causes_text(causes, 0).take(causes_prefix_len(causes, causes.len()) as int)
        =~= causes_text(causes, 0));
}

} // verus!
