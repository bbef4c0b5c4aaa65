//! How a report looks: colors, wrapped sections, fields and bullets, and text that is safe to
//! print on a terminal.

pub mod completed;
pub mod content_laws;
pub mod error;
pub mod label_laws;
pub mod name_resolution;
pub mod report_laws;
pub mod safety;
pub mod sentence_laws;
pub mod word_laws;

use vstd::prelude::*;
use crate::input::InputError;
use crate::result::{DiagnosticResult, DiagnosticResultView};
use crate::text;
use crate::time::{Duration, NANOS_PER_MILLISECOND, NANOS_PER_SECOND};

verus! {

/// The width of a report where none is known.
pub const DEFAULT_WIDTH: u16 = 120;

/// The widest report.
pub const MAX_WIDTH: u16 = 300;

/// The width below which a field takes two lines.
pub const NARROW_FIELD_WIDTH: usize = 40;

/// What a colored line says.
#[derive(Clone, Copy, Debug, Eq, PartialEq, Structural)]
pub enum Tint {
    Success,
    Failure,
    Warning,
    Heading,
}

impl Tint {
    /// The number of the terminal color: green, red, yellow and cyan.
    pub open spec fn color(self) -> u8 {
        match self {
            Tint::Success => 2,
            Tint::Failure => 1,
            Tint::Warning => 3,
            Tint::Heading => 6,
        }
    }

    fn color_number(self) -> (result: u8)
        ensures
            result == self.color(),
            result < 8,
    {
        match self {
            Tint::Success => 2,
            Tint::Failure => 1,
            Tint::Warning => 3,
            Tint::Heading => 6,
        }
    }
}

/// Text between the escape sequences that turn bold and one of the eight terminal colors on, and
/// the one that turns them off.
pub open spec fn bold_colored(color: u8, shown: Seq<char>) -> Seq<char> {
    "\u{1b}[1m\u{1b}[3"@ + seq![text::digit(color as nat)] + "m"@ + shown + "\u{1b}[0m"@
}

/// `anstyle::Style` as `Display` writes it: a bold style with one of the eight terminal colors
/// before the text, and the same style's reset after it.
#[verifier::external_body]
fn write_bold_colored(color: u8, shown: &str) -> (result: String)
    requires
        color < 8,
    ensures
        result@ == bold_colored(color, shown@),
{
    let color = anstyle::Ansi256Color(color).into_ansi().map(anstyle::Color::Ansi);
    let style = anstyle::Style::new().fg_color(color).effects(anstyle::Effects::BOLD);
    format!("{style}{shown}{style:#}")
}

/// The lines into which `textwrap::wrap` breaks a text that may be no wider than `width`.
pub uninterp spec fn wrapped_lines(shown: Seq<char>, width: usize) -> Seq<Seq<char>>;

/// `textwrap::wrap` with the options that `textwrap::Options::new` gives for a width. The lines
/// are named [`wrapped_lines`]; where they break is not stated, nor how wide they are: a line may
/// be wider than asked where breaking it would leave a large gap. Of control characters a line
/// holds only those that the text held.
#[verifier::external_body]
fn wrap(shown: &str, width: usize) -> (result: Vec<String>)
    ensures
        result.deep_view() == wrapped_lines(shown@, width),
        text::inert(shown@) ==> text::all_inert(result.deep_view()),
{
    textwrap::wrap(shown, textwrap::Options::new(width))
        .into_iter()
        .map(|line| line.into_owned())
        .collect()
}

/// The text that `textwrap::fill` makes of `shown`, with `first` before its first line and `rest`
/// before every other line.
pub uninterp spec fn filled(
    shown: Seq<char>,
    width: usize,
    first: Seq<char>,
    rest: Seq<char>,
) -> Seq<char>;

/// `textwrap::fill` with a width, an initial indent and a subsequent indent. The text is named
/// [`filled`]; where it breaks is not stated, nor how wide its lines are. Of control characters it
/// holds line feeds and those that the text or an indent held.
#[verifier::external_body]
fn fill(shown: &str, width: usize, first: &str, rest: &str) -> (result: String)
    ensures
        result@ == filled(shown@, width, first@, rest@),
        text::inert(shown@) && text::inert(first@) && text::inert(rest@) ==> text::lined(result@),
{
    let options = textwrap::Options::new(width).initial_indent(first).subsequent_indent(rest);
    textwrap::fill(shown, options)
}

/// Whether Unicode puts a character that is not ASCII into the general category `Format`.
pub uninterp spec fn format_category(letter: char) -> bool;

/// Whether a character is a Unicode format character. None of the ASCII characters is.
pub open spec fn is_format(letter: char) -> bool {
    letter as nat >= 0x80 && format_category(letter)
}

/// `unicode_general_category::get_general_category`, asked for the category `Format`. Its table
/// puts no ASCII character there; of the others the answer is named [`format_category`].
#[verifier::external_body]
fn format_character(letter: char) -> (result: bool)
    ensures
        result == (letter as nat >= 0x80 && format_category(letter)),
{
    matches!(
        unicode_general_category::get_general_category(letter),
        unicode_general_category::GeneralCategory::Format
    )
}

/// How many seconds a length of time has, as `std::time::Duration::as_secs_f64` counts them,
/// written with one digit after the point.
pub uninterp spec fn seconds_to_one_decimal(seconds: u64, nanos: u32) -> Seq<char>;

/// `std::time::Duration::as_secs_f64`, formatted with one digit after the point. The text is
/// named [`seconds_to_one_decimal`]; how the last digit is rounded is not stated. A finite number
/// is written with digits and a point alone, so without control characters.
#[verifier::external_body]
fn tenths_of_seconds(seconds: u64, nanos: u32) -> (result: String)
    requires
        nanos < NANOS_PER_SECOND,
    ensures
        result@ == seconds_to_one_decimal(seconds, nanos),
        text::inert(result@),
{
    format!("{:.1}", std::time::Duration::new(seconds, nanos).as_secs_f64())
}

/// Whether the number of seconds in a length of time, as `std::time::Duration::as_secs_f64` counts
/// them, has no fractional part.
pub uninterp spec fn seconds_are_whole(seconds: u64, nanos: u32) -> bool;

/// `std::time::Duration::as_secs_f64`, asked whether its fractional part is zero. The answer is
/// named [`seconds_are_whole`]; it is yes where there are no nanoseconds beside the seconds.
#[verifier::external_body]
fn whole_seconds(seconds: u64, nanos: u32) -> (result: bool)
    requires
        nanos < NANOS_PER_SECOND,
    ensures
        result == seconds_are_whole(seconds, nanos),
        nanos == 0 ==> result,
{
    std::time::Duration::new(seconds, nanos).as_secs_f64().fract().to_bits() == 0
}

/// How a length of time reads: in seconds from one second on, else in milliseconds.
pub open spec fn duration_text(value: Duration) -> Seq<char> {
    let seconds = (value.span() / NANOS_PER_SECOND as nat) as u64;
    let nanos = (value.span() % NANOS_PER_SECOND as nat) as u32;
    if value.span() >= NANOS_PER_SECOND {
        if nanos == 0 || seconds_are_whole(seconds, nanos) {
            text::decimal(seconds as nat) + " s"@
        } else {
            seconds_to_one_decimal(seconds, nanos) + " s"@
        }
    } else if value.span() >= NANOS_PER_MILLISECOND {
        text::decimal(value.span() / NANOS_PER_MILLISECOND as nat) + " ms"@
    } else {
        "<1 ms"@
    }
}

/// The one way in which every section writes a length of time.
pub fn human_duration(value: Duration) -> (result: String)
    ensures
        result@ == duration_text(value),
        value.span() >= NANOS_PER_SECOND && value.span() % NANOS_PER_SECOND as nat == 0
            ==> result@ == text::decimal(value.span() / NANOS_PER_SECOND as nat) + " s"@,
        text::inert(result@),
{
    proof {
        reveal_strlit(" s");
        reveal_strlit(" ms");
        reveal_strlit("<1 ms");
    }
    let span: u128 = value.as_nanos();
    if span >= NANOS_PER_SECOND {
        let seconds: u64 = (span / NANOS_PER_SECOND) as u64;
        let nanos: u32 = (span % NANOS_PER_SECOND) as u32;
        if whole_seconds(seconds, nanos) {
            text::join2(text::decimal_text(seconds).as_str(), " s")
        } else {
            text::join2(tenths_of_seconds(seconds, nanos).as_str(), " s")
        }
    } else if span >= NANOS_PER_MILLISECOND {
        let milliseconds: u64 = (span / NANOS_PER_MILLISECOND) as u64;
        text::join2(text::decimal_text(milliseconds).as_str(), " ms")
    } else {
        "<1 ms".to_owned()
    }
}

/// Whether a character could change the state of a terminal: a control character or a Unicode
/// format character.
pub open spec fn needs_escape(letter: char) -> bool {
    text::is_control(letter) || is_format(letter)
}

/// The printable characters that stand for one that must not reach a terminal.
pub open spec fn escaped(letter: char) -> Seq<char> {
    if letter == '\t' {
        "\\t"@
    } else if letter == '\r' {
        "\\r"@
    } else if letter == '\n' {
        "\\n"@
    } else {
        "\\u{"@ + text::numeral(letter as nat, 16) + "}"@
    }
}

/// A text with every control and format character escaped, and all others kept.
pub open spec fn terminal_text(value: Seq<char>) -> Seq<char>
    decreases value.len(),
{
    if value.len() == 0 {
        value
    } else if needs_escape(value.last()) {
        terminal_text(value.drop_last()) + escaped(value.last())
    } else {
        terminal_text(value.drop_last()).push(value.last())
    }
}

fn escape(letter: char) -> (result: String)
    ensures
        result@ == escaped(letter),
{
    if letter == '\t' {
        "\\t".to_owned()
    } else if letter == '\r' {
        "\\r".to_owned()
    } else if letter == '\n' {
        "\\n".to_owned()
    } else {
        let code: u64 = letter as u64;
        text::join3("\\u{", text::numeral_text(code, 16).as_str(), "}")
    }
}

fn append_escaped(output: &mut String, letter: char)
    ensures
        final(output)@ == (if needs_escape(letter) {
            old(output)@ + escaped(letter)
        } else {
            old(output)@.push(letter)
        }),
{
    if text::control_character(letter) || format_character(letter) {
        output.append(escape(letter).as_str());
    } else {
        output.push(letter);
    }
}

/// Preserves ordinary Unicode text while encoding terminal controls and all Unicode format
/// characters.
pub fn terminal_escape(value: &str) -> (result: String)
    ensures
        result@ == terminal_text(value@),
        text::inert(result@),
{
    proof {
        printed_text_cannot_change_terminal_state(value@);
    }
    let mut result = String::new();
    let length = value.unicode_len();
    let mut i: usize = 0;
    while i < length
        invariant
            i <= length,
            length == value@.len(),
            result@ == terminal_text(value@.take(i as int)),
        decreases length - i,
    {
        append_escaped(&mut result, value.get_char(i));
        assert(value@.take(i + 1).drop_last() =~= value@.take(i as int));
        i += 1;
    }
    assert(value@.take(length as int) =~= value@);
    result
}

proof fn lemma_digits_are_printable(value: nat)
    requires
        value < 16,
    ensures
        !needs_escape(text::digit(value)),
{
}

proof fn lemma_numerals_are_printable(value: nat, base: nat)
    requires
        2 <= base <= 16,
    ensures
        forall|i: int|
            0 <= i < text::numeral(value, base).len() ==> !needs_escape(
                #[trigger] text::numeral(value, base)[i],
            ),
    decreases value,
{
    if value >= base {
        vstd::arithmetic::div_mod::lemma_div_decreases(value as int, base as int);
        vstd::arithmetic::div_mod::lemma_mod_bound(value as int, base as int);
        lemma_numerals_are_printable(value / base, base);
        lemma_digits_are_printable(value % base);
        let front = text::numeral(value / base, base);
        assert forall|i: int| 0 <= i < text::numeral(value, base).len() implies !needs_escape(
            #[trigger] text::numeral(value, base)[i],
        ) by {
            if i < front.len() {
                assert(text::numeral(value, base)[i] == front[i]);
            }
        }
    } else {
        lemma_digits_are_printable(value);
    }
}

proof fn lemma_escapes_are_printable(letter: char)
    ensures
        forall|i: int|
            0 <= i < escaped(letter).len() ==> !needs_escape(#[trigger] escaped(letter)[i]),
{
    lemma_numerals_are_printable(letter as nat, 16);
    reveal_strlit("\\t");
    reveal_strlit("\\r");
    reveal_strlit("\\n");
    reveal_strlit("\\u{");
    reveal_strlit("}");
}

/// Whatever a text held, what is printed of it holds no control character and no format
/// character.
pub proof fn printed_text_cannot_change_terminal_state(value: Seq<char>)
    ensures
        forall|i: int|
            0 <= i < terminal_text(value).len() ==> !needs_escape(
                #[trigger] terminal_text(value)[i],
            ),
    decreases value.len(),
{
    if value.len() > 0 {
        printed_text_cannot_change_terminal_state(value.drop_last());
        lemma_escapes_are_printable(value.last());
        let front = terminal_text(value.drop_last());
        assert forall|i: int| 0 <= i < terminal_text(value).len() implies !needs_escape(
            #[trigger] terminal_text(value)[i],
        ) by {
            if i < front.len() {
                assert(terminal_text(value)[i] == front[i]);
            } else if needs_escape(value.last()) {
                assert(terminal_text(value)[i] == escaped(value.last())[i - front.len()]);
            }
        }
    }
}

/// A text without control and format characters is printed as it is.
pub proof fn ordinary_text_is_printed_as_it_is(value: Seq<char>)
    requires
        forall|i: int| 0 <= i < value.len() ==> !needs_escape(#[trigger] value[i]),
    ensures
        terminal_text(value) == value,
    decreases value.len(),
{
    if value.len() > 0 {
        ordinary_text_is_printed_as_it_is(value.drop_last());
    }
}

/// The colors and the width of a report.
#[derive(Clone, Copy, Debug, Eq, PartialEq, Structural)]
pub struct Theme {
    pub styled: bool,
    pub table_width: Option<u16>,
}

impl Theme {
    /// The number of columns that a line may take.
    pub open spec fn columns(self) -> usize {
        match self.table_width {
            Some(width) => width as usize,
            None => DEFAULT_WIDTH as usize,
        }
    }

    /// A text in the color of what it says.
    pub open spec fn tinted(self, tint: Tint, shown: Seq<char>) -> Seq<char> {
        if self.styled {
            bold_colored(tint.color(), shown)
        } else {
            shown
        }
    }

    /// The theme of a terminal of `detected` columns, kept between one column and the widest
    /// report.
    pub fn terminal(detected: Option<u16>) -> (result: Theme)
        ensures
            result.styled,
            result.table_width == Some(
                match detected {
                    Some(width) => if width < 1 {
                        1
                    } else if width > MAX_WIDTH {
                        MAX_WIDTH
                    } else {
                        width
                    },
                    None => DEFAULT_WIDTH,
                },
            ),
    {
        let width: u16 = match detected {
            Some(width) => if width < 1 {
                1
            } else if width > MAX_WIDTH {
                MAX_WIDTH
            } else {
                width
            },
            None => DEFAULT_WIDTH,
        };
        Theme { styled: true, table_width: Some(width) }
    }

    /// A theme without colors, a hundred columns wide.
    pub fn plain() -> (result: Theme)
        ensures
            result == (Theme { styled: false, table_width: Some(100) }),
    {
        Theme { styled: false, table_width: Some(100) }
    }

    /// A theme without colors.
    pub fn plain_with_width(width: u16) -> (result: Theme)
        ensures
            result == (Theme { styled: false, table_width: Some(width) }),
    {
        Theme { styled: false, table_width: Some(width) }
    }

    pub fn content_width(self) -> (result: usize)
        ensures
            result == self.columns(),
    {
        match self.table_width {
            Some(width) => width as usize,
            None => DEFAULT_WIDTH as usize,
        }
    }

    /// Writes a text in the color of what it says.
    pub fn paint(self, tint: Tint, shown: &str) -> (result: String)
        ensures
            result@ == self.tinted(tint, shown@),
            text::inert(shown@) ==> safety::safe(result@, self.styled),
    {
        proof {
            safety::lemma_inert_is_safe(shown@, self.styled);
            safety::lemma_colored_is_safe(tint.color(), shown@);
        }
        if self.styled {
            write_bold_colored(tint.color_number(), shown)
        } else {
            shown.to_owned()
        }
    }

    pub fn success(self, shown: &str) -> (result: String)
        ensures
            result@ == self.tinted(Tint::Success, shown@),
            text::inert(shown@) ==> safety::safe(result@, self.styled),
    {
        self.paint(Tint::Success, shown)
    }

    pub fn failure(self, shown: &str) -> (result: String)
        ensures
            result@ == self.tinted(Tint::Failure, shown@),
            text::inert(shown@) ==> safety::safe(result@, self.styled),
    {
        self.paint(Tint::Failure, shown)
    }

    pub fn warning(self, shown: &str) -> (result: String)
        ensures
            result@ == self.tinted(Tint::Warning, shown@),
            text::inert(shown@) ==> safety::safe(result@, self.styled),
    {
        self.paint(Tint::Warning, shown)
    }

    pub fn heading(self, shown: &str) -> (result: String)
        ensures
            result@ == self.tinted(Tint::Heading, shown@),
            text::inert(shown@) ==> safety::safe(result@, self.styled),
    {
        self.paint(Tint::Heading, shown)
    }
}

/// A report with one more line.
pub open spec fn with_line(report: Seq<char>, line: Seq<char>) -> Seq<char> {
    (report + line).push('\n')
}

/// A report with an empty line after it.
pub open spec fn with_blank(report: Seq<char>) -> Seq<char> {
    report.push('\n')
}

/// A report with lines of one color after it.
pub open spec fn with_tinted_lines(
    report: Seq<char>,
    theme: Theme,
    tint: Tint,
    lines: Seq<Seq<char>>,
) -> Seq<char>
    decreases lines.len(),
{
    if lines.len() == 0 {
        report
    } else {
        with_line(
            with_tinted_lines(report, theme, tint, lines.drop_last()),
            theme.tinted(tint, lines.last()),
        )
    }
}

/// A report with a title after it, wrapped to the width of the theme and colored line by line.
pub open spec fn with_headline(
    report: Seq<char>,
    theme: Theme,
    title: Seq<char>,
    tint: Tint,
) -> Seq<char> {
    with_tinted_lines(report, theme, tint, wrapped_lines(title, theme.columns()))
}

/// A report with the title of a section after it.
pub open spec fn with_section(report: Seq<char>, theme: Theme, title: Seq<char>) -> Seq<char> {
    with_headline(report, theme, title, Tint::Heading)
}

/// A report with a text after it that is wrapped to the width of the theme behind two indents.
pub open spec fn with_filled(
    report: Seq<char>,
    theme: Theme,
    shown: Seq<char>,
    first: Seq<char>,
    rest: Seq<char>,
) -> Seq<char> {
    with_line(report, filled(shown, theme.columns(), first, rest))
}

/// A number of spaces.
pub open spec fn spaces(count: nat) -> Seq<char> {
    Seq::new(count, |i: int| ' ')
}

/// A label on two spaces, filled up to eighteen characters, and one more space.
pub open spec fn label_column(label: Seq<char>) -> Seq<char> {
    "  "@ + label + spaces(
        if label.len() < 18 {
            (18 - label.len()) as nat
        } else {
            0
        },
    ) + " "@
}

/// A report with a label and its value after it: side by side, or below each other where the
/// theme is narrow.
pub open spec fn with_field(
    report: Seq<char>,
    theme: Theme,
    label: Seq<char>,
    value: Seq<char>,
) -> Seq<char> {
    if theme.columns() < NARROW_FIELD_WIDTH {
        with_filled(
            with_filled(report, theme, label, "  "@, "  "@),
            theme,
            value,
            "    "@,
            "    "@,
        )
    } else {
        with_filled(
            report,
            theme,
            value,
            label_column(label),
            spaces(text::byte_len(label_column(label))),
        )
    }
}

/// A report with one item of a list after it.
pub open spec fn with_bullet(report: Seq<char>, theme: Theme, value: Seq<char>) -> Seq<char> {
    with_filled(report, theme, value, "  - "@, "    "@)
}

/// A report with a list after it.
pub open spec fn with_bullets(
    report: Seq<char>,
    theme: Theme,
    values: Seq<Seq<char>>,
) -> Seq<char>
    decreases values.len(),
{
    if values.len() == 0 {
        report
    } else {
        with_bullet(with_bullets(report, theme, values.drop_last()), theme, values.last())
    }
}

/// A report with an indented paragraph after it.
pub open spec fn with_paragraph(report: Seq<char>, theme: Theme, value: Seq<char>) -> Seq<char> {
    with_filled(report, theme, value, "  "@, "  "@)
}

proof fn lemma_blank_is_safe(report: Seq<char>, styled: bool)
    ensures
        safety::safe(report, styled) ==> safety::safe(with_blank(report), styled),
{
    let end = seq!['\n'];
    safety::lemma_lined_is_safe(end, styled);
    safety::lemma_safe_join(report, end, styled);
    assert(report + end =~= with_blank(report));
}

proof fn lemma_line_is_safe(report: Seq<char>, line: Seq<char>, styled: bool)
    ensures
        safety::safe(report, styled) && safety::safe(line, styled) ==> safety::safe(
            with_line(report, line),
            styled,
        ),
{
    safety::lemma_safe_join(report, line, styled);
    lemma_blank_is_safe(report + line, styled);
}

pub(crate) fn line(output: &mut String, shown: &str)
    ensures
        final(output)@ == with_line(old(output)@, shown@),
        forall|styled: bool|
            safety::safe(old(output)@, styled) && safety::safe(shown@, styled)
                ==> #[trigger] safety::safe(final(output)@, styled),
{
    proof {
        lemma_line_is_safe(output@, shown@, true);
        lemma_line_is_safe(output@, shown@, false);
    }
    output.append(shown);
    output.push('\n');
}

pub(crate) fn blank(output: &mut String)
    ensures
        final(output)@ == with_blank(old(output)@),
        forall|styled: bool|
            safety::safe(old(output)@, styled) ==> #[trigger] safety::safe(final(output)@, styled),
{
    proof {
        lemma_blank_is_safe(output@, true);
        lemma_blank_is_safe(output@, false);
    }
    output.push('\n');
}

pub(crate) fn headline(output: &mut String, theme: Theme, title: &str, tint: Tint)
    ensures
        final(output)@ == with_headline(old(output)@, theme, title@, tint),
        safety::safe(old(output)@, theme.styled) && text::inert(title@)
            ==> safety::safe(final(output)@, theme.styled),
{
    let lines = wrap(title, theme.content_width());
    let ghost all = lines.deep_view();
    let ghost before = output@;
    let mut i: usize = 0;
    while i < lines.len()
        invariant
            i <= lines.len(),
            all == lines.deep_view(),
            output@ == with_tinted_lines(before, theme, tint, all.take(i as int)),
            safety::safe(before, theme.styled) && text::all_inert(all) ==> safety::safe(
                output@,
                theme.styled,
            ),
        decreases lines.len() - i,
    {
        assert(all[i as int] == lines[i as int]@);
        line(output, theme.paint(tint, lines[i].as_str()).as_str());
        assert(all.take(i + 1).drop_last() =~= all.take(i as int));
        i += 1;
    }
    assert(all.take(i as int) =~= all);
}

pub(crate) fn section(output: &mut String, theme: Theme, title: &str)
    ensures
        final(output)@ == with_section(old(output)@, theme, title@),
        safety::safe(old(output)@, theme.styled) && text::inert(title@)
            ==> safety::safe(final(output)@, theme.styled),
{
    headline(output, theme, title, Tint::Heading);
}

pub(crate) fn fill_line(output: &mut String, theme: Theme, shown: &str, first: &str, rest: &str)
    ensures
        final(output)@ == with_filled(old(output)@, theme, shown@, first@, rest@),
        safety::safe(old(output)@, theme.styled) && text::inert(shown@) && text::inert(first@)
            && text::inert(rest@)
            ==> safety::safe(final(output)@, theme.styled),
{
    let wrapped = fill(shown, theme.content_width(), first, rest);
    proof {
        safety::lemma_lined_is_safe(wrapped@, theme.styled);
    }
    line(output, wrapped.as_str());
}

fn write_spaces(count: usize) -> (result: String)
    ensures
        result@ == spaces(count as nat),
        text::inert(result@),
{
    let mut result = String::new();
    let mut i: usize = 0;
    while i < count
        invariant
            i <= count,
            result@ == spaces(i as nat),
        decreases count - i,
    {
        result.push(' ');
        assert(spaces((i + 1) as nat) =~= spaces(i as nat).push(' '));
        i += 1;
    }
    result
}

pub(crate) fn field(output: &mut String, theme: Theme, label: &str, value: &str)
    ensures
        final(output)@ == with_field(old(output)@, theme, label@, value@),
        safety::safe(old(output)@, theme.styled) && text::inert(label@) && text::inert(value@)
            ==> safety::safe(final(output)@, theme.styled),
{
    proof {
        reveal_strlit(" ");
        reveal_strlit("  ");
        reveal_strlit("    ");
    }
    if theme.content_width() < NARROW_FIELD_WIDTH {
        fill_line(output, theme, label, "  ", "  ");
        fill_line(output, theme, value, "    ", "    ");
        return;
    }
    let length = label.unicode_len();
    let padding: usize = if length < 18 {
        18 - length
    } else {
        0
    };
    let first = text::join4("  ", label, write_spaces(padding).as_str(), " ");
    let rest = write_spaces(text::byte_length(first.as_str()));
    fill_line(output, theme, value, first.as_str(), rest.as_str());
}

pub(crate) fn bullets(output: &mut String, theme: Theme, values: &Vec<String>)
    ensures
        final(output)@ == with_bullets(old(output)@, theme, values.deep_view()),
        safety::safe(old(output)@, theme.styled) && text::all_inert(values.deep_view())
            ==> safety::safe(final(output)@, theme.styled),
{
    let ghost all = values.deep_view();
    let ghost before = output@;
    let mut i: usize = 0;
    while i < values.len()
        invariant
            i <= values.len(),
            all == values.deep_view(),
            output@ == with_bullets(before, theme, all.take(i as int)),
            safety::safe(before, theme.styled) && text::all_inert(all) ==> safety::safe(
                output@,
                theme.styled,
            ),
        decreases values.len() - i,
    {
        proof {
            reveal_strlit("  - ");
            reveal_strlit("    ");
        }
        assert(all[i as int] == values[i as int]@);
        fill_line(output, theme, values[i].as_str(), "  - ", "    ");
        assert(all.take(i + 1).drop_last() =~= all.take(i as int));
        i += 1;
    }
    assert(all.take(i as int) =~= all);
}

pub(crate) fn paragraph(output: &mut String, theme: Theme, value: &str)
    ensures
        final(output)@ == with_paragraph(old(output)@, theme, value@),
        safety::safe(old(output)@, theme.styled) && text::inert(value@)
            ==> safety::safe(final(output)@, theme.styled),
{
    proof {
        reveal_strlit("  ");
    }
    fill_line(output, theme, value, "  ", "  ");
}

/// The report on the result of a run.
pub open spec fn report_text(result: DiagnosticResultView, theme: Theme) -> Seq<char> {
    match result {
        DiagnosticResultView::Completed(completed) => completed::completed_report(completed, theme),
        DiagnosticResultView::ExecutionError(error) => error::execution_report(error, theme),
        DiagnosticResultView::Cancelled(cancelled) => error::cancelled_report(cancelled, theme),
    }
}

fn append_report(output: &mut String, report: String, theme: Theme)
    ensures
        final(output)@ == old(output)@ + report@,
        safety::safe(old(output)@, theme.styled) && safety::safe(report@, theme.styled)
            ==> safety::safe(final(output)@, theme.styled),
{
    proof {
        safety::lemma_safe_join(output@, report@, theme.styled);
    }
    output.append(report.as_str());
}

/// Appends the report on the result of a run.
pub fn write_result(result: &DiagnosticResult, output: &mut String, theme: Theme)
    ensures
        final(output)@ == old(output)@ + report_text(result.deep_view(), theme),
        safety::safe(old(output)@, theme.styled) ==> safety::safe(final(output)@, theme.styled),
{
    let rendered = match result {
        DiagnosticResult::Completed(completed) => completed::render(completed, theme),
        DiagnosticResult::ExecutionError(error) => error::render_execution(error, theme),
        DiagnosticResult::Cancelled(cancelled) => error::render_cancelled(cancelled, theme),
    };
    append_report(output, rendered, theme);
}

/// Appends the report on input that could not be read.
pub fn write_input_error(
    input_error: &InputError,
    address: &str,
    port: Option<&str>,
    output: &mut String,
    theme: Theme,
)
    ensures
        final(output)@ == old(output)@ + error::input_report(
            *input_error,
            address@,
            match port {
                Some(port) => Some(port@),
                None => None,
            },
            theme,
        ),
        safety::safe(old(output)@, theme.styled) ==> safety::safe(final(output)@, theme.styled),
{
    append_report(output, error::render_input(input_error, address, port, theme), theme);
}

/// Appends the report on a command that was not understood.
pub fn write_command_error(missing_address: bool, output: &mut String, theme: Theme)
    ensures
        final(output)@ == old(output)@ + error::command_report(missing_address, theme),
        safety::safe(old(output)@, theme.styled) ==> safety::safe(final(output)@, theme.styled),
{
    append_report(output, error::render_command(missing_address, theme), theme);
}

/// Appends the report on a check that could not start.
pub fn write_startup_error(reason: &str, output: &mut String, theme: Theme)
    ensures
        final(output)@ == old(output)@ + error::startup_report(reason@, theme),
        safety::safe(old(output)@, theme.styled) ==> safety::safe(final(output)@, theme.styled),
{
    append_report(output, error::render_startup(reason, theme), theme);
}

/// Appends the report on a report that could not be written.
pub fn write_output_error(reason: &str, output: &mut String, theme: Theme)
    ensures
        final(output)@ == old(output)@ + error::output_failure_report(reason@, theme),
        safety::safe(old(output)@, theme.styled) ==> safety::safe(final(output)@, theme.styled),
{
    append_report(output, error::render_output_failure(reason, theme), theme);
}

} // verus!
