use vstd::prelude::*;
use crate::clock::now_timestamp;
use crate::graphemes::{first_grapheme, grapheme_first};
use crate::level::{Level, Output, lemma_level_text_chars, padded_level_text, shows_module_tag};
use crate::render::{
    count_char, head_text, indent_body, indented, lemma_absent_char_counts_zero,
    lemma_count_char_concat, lemma_indented_chars, lemma_indented_preserves_newline_count,
    level_allowance, level_field, make_spaces, module_tag, rendered_line, spaces, timestamp_field,
};

verus! {

/// Mathematical model of a formatter's state.
#[verifier::ext_equal]
pub struct FormatterModel {
    /// Length in characters of the line most recently rendered for this sink.
    pub line_previous_len: nat,
    /// The timestamp the previous line was bucketed under.
    pub line_previous_timestamp: Seq<char>,
    /// Minimum severity the sink was configured with.
    pub logging_level: Level,
    /// The timestamp computed for the previous call, printed or not.
    pub timestamp_previous: Seq<char>,
    /// The sink this formatter renders for.
    pub output: Output,
}

/// Stateful line formatter for one sink.
pub struct Formatter {
    line_previous_len: usize,
    line_previous_timestamp: String,
    logging_level: Level,
    timestamp_previous: String,
    output: Output,
}

impl View for Formatter {
    type V = FormatterModel;

    closed spec fn view(&self) -> FormatterModel {
        FormatterModel {
            line_previous_len: self.line_previous_len as nat,
            line_previous_timestamp: self.line_previous_timestamp@,
            logging_level: self.logging_level,
            timestamp_previous: self.timestamp_previous@,
            output: self.output,
        }
    }
}

/// What formatting one record produces: an optional console-erase escape
/// sequence, to be written to the console before the line, and the rendered
/// line itself.
pub struct Rendered {
    /// Cursor-up, line-clear and return-to-start escape sequence, present
    /// only for an overwrite record on a console sink.
    pub erase: Option<String>,
    /// The fully rendered line, without a trailing line break.
    pub line: String,
}

/// Whether a record whose message carried the control marker overwrites the
/// previous line: only a console sink does.
pub open spec fn spec_overwrite(m: FormatterModel, marker: bool) -> bool {
    marker && m.output is Console
}

/// The timestamp the new line is bucketed against: a new-line record takes
/// the timestamp of the previous call, an overwrite keeps the bucket of the
/// line it replaces.
pub open spec fn spec_reference(m: FormatterModel, marker: bool) -> Seq<char> {
    if spec_overwrite(m, marker) {
        m.line_previous_timestamp
    } else {
        m.timestamp_previous
    }
}

/// Escape sequence that moves the cursor up one line, blanks `width`
/// characters, and returns to the line start.
pub open spec fn erase_sequence(width: nat) -> Seq<char> {
    seq!['\u{1b}', '[', 'A'] + spaces(width) + seq!['\r']
}

/// The erase escape sequence a record produces, if any.
pub open spec fn spec_erase(m: FormatterModel, marker: bool) -> Option<Seq<char>> {
    if spec_overwrite(m, marker) {
        Some(erase_sequence(m.line_previous_len))
    } else {
        None
    }
}

/// The line a record renders to, given the marker-stripped body.
pub open spec fn spec_line(
    m: FormatterModel,
    ts: Seq<char>,
    level: Level,
    target: Seq<char>,
    body: Seq<char>,
    marker: bool,
) -> Seq<char> {
    rendered_line(spec_reference(m, marker), ts, m.logging_level, target, m.output, level, body)
}

/// The formatter state after a record: the rendered line's length and the
/// current timestamp are recorded, and the timestamp bucket advances only
/// for new-line records.
pub open spec fn spec_next(
    m: FormatterModel,
    ts: Seq<char>,
    level: Level,
    target: Seq<char>,
    body: Seq<char>,
    marker: bool,
) -> FormatterModel {
    FormatterModel {
        line_previous_len: spec_line(m, ts, level, target, body, marker).len(),
        line_previous_timestamp: spec_reference(m, marker),
        logging_level: m.logging_level,
        timestamp_previous: ts,
        output: m.output,
    }
}

/// Whether the message begins with the control marker: its first grapheme
/// cluster is a lone carriage return.
pub open spec fn has_marker(msg: Seq<char>) -> bool {
    msg.len() > 0 && grapheme_first(msg) == seq!['\r']
}

/// The message body: the message with the leading control marker, when it
/// carries one, stripped.
pub open spec fn marker_stripped(msg: Seq<char>) -> Seq<char> {
    if has_marker(msg) {
        msg.skip(1)
    } else {
        msg
    }
}

/// Law: when a record is emitted in the same second as the previous
/// emission to the sink and starts a new line, the timestamp region of its
/// line is a run of spaces exactly as long as the timestamp string.
pub proof fn lemma_same_second_suppresses_timestamp(
    m0: FormatterModel,
    ts: Seq<char>,
    l1: Level,
    t1: Seq<char>,
    b1: Seq<char>,
    mk1: bool,
    l2: Level,
    t2: Seq<char>,
    b2: Seq<char>,
)
    ensures
        ({
            let m1 = spec_next(m0, ts, l1, t1, b1, mk1);
            let line2 = spec_line(m1, ts, l2, t2, b2, false);
            line2.len() >= ts.len() && line2.subrange(0, ts.len() as int) == spaces(ts.len())
        }),
{
    let m1 = spec_next(m0, ts, l1, t1, b1, mk1);
    let line2 = spec_line(m1, ts, l2, t2, b2, false);
    assert(spec_reference(m1, false) == ts);
    assert(timestamp_field(ts, ts) == spaces(ts.len()));
    assert(line2.subrange(0, ts.len() as int) =~= spaces(ts.len()));
}

/// Law: a new-line record emitted after the one-second timestamp bucket has
/// changed renders the new timestamp literally at the start of its line.
pub proof fn lemma_new_second_prints_timestamp(
    m0: FormatterModel,
    ts1: Seq<char>,
    l1: Level,
    t1: Seq<char>,
    b1: Seq<char>,
    mk1: bool,
    ts2: Seq<char>,
    l2: Level,
    t2: Seq<char>,
    b2: Seq<char>,
)
    requires
        ts2 != ts1,
    ensures
        ({
            let m1 = spec_next(m0, ts1, l1, t1, b1, mk1);
            let line2 = spec_line(m1, ts2, l2, t2, b2, false);
            line2.len() >= ts2.len() && line2.subrange(0, ts2.len() as int) == ts2
        }),
{
    let m1 = spec_next(m0, ts1, l1, t1, b1, mk1);
    let line2 = spec_line(m1, ts2, l2, t2, b2, false);
    assert(spec_reference(m1, false) == ts1);
    assert(timestamp_field(ts1, ts2) == ts2);
    assert(line2.subrange(0, ts2.len() as int) =~= ts2);
}

/// Law: on a console sink, a record carrying the control marker produces
/// the cursor-up and line-clear escape sequence, and its clear width equals
/// the length of the line rendered just before it.
pub proof fn lemma_console_overwrite_erases_previous_line(
    m0: FormatterModel,
    ts: Seq<char>,
    l1: Level,
    t1: Seq<char>,
    b1: Seq<char>,
    mk1: bool,
)
    requires
        m0.output is Console,
    ensures
        spec_erase(spec_next(m0, ts, l1, t1, b1, mk1), true) == Some(
            erase_sequence(spec_line(m0, ts, l1, t1, b1, mk1).len()),
        ),
{
}

/// Law: on a file sink a record carrying the control marker produces no
/// escape sequence and no merging: it renders, and advances the state,
/// exactly as an ordinary new-line record does.
pub proof fn lemma_file_marker_is_plain_line(
    m: FormatterModel,
    ts: Seq<char>,
    level: Level,
    target: Seq<char>,
    body: Seq<char>,
)
    requires
        m.output is File,
    ensures
        spec_erase(m, true) is None,
        spec_line(m, ts, level, target, body, true) == spec_line(m, ts, level, target, body, false),
        spec_next(m, ts, level, target, body, true) == spec_next(m, ts, level, target, body, false),
{
}

/// Law: the module tag stands in a line, between the timestamp region and
/// the severity region, exactly when the sink's configured minimum level is
/// `Debug` or `Trace`; otherwise the severity region follows the timestamp
/// region directly.
pub proof fn lemma_module_tag_iff_debug_enabled(
    m: FormatterModel,
    ts: Seq<char>,
    level: Level,
    target: Seq<char>,
    body: Seq<char>,
    marker: bool,
)
    ensures
        ({
            let reference = spec_reference(m, marker);
            let field = timestamp_field(reference, ts);
            let line = spec_line(m, ts, level, target, body, marker);
            &&& shows_module_tag(m.logging_level) ==> line == field + module_tag(target)
                + level_field(m.output, level) + seq![' '] + indented(
                body,
                field.len() + module_tag(target).len() + level_allowance(),
            )
            &&& !shows_module_tag(m.logging_level) ==> line == field + level_field(m.output, level)
                + seq![' '] + indented(body, field.len() + level_allowance())
        }),
{
    let reference = spec_reference(m, marker);
    let field = timestamp_field(reference, ts);
    let line = spec_line(m, ts, level, target, body, marker);
    let head = head_text(reference, ts, m.logging_level, target);
    if shows_module_tag(m.logging_level) {
        assert(head =~= field + module_tag(target));
        assert(line =~= field + module_tag(target) + level_field(m.output, level) + seq![' ']
            + indented(body, field.len() + module_tag(target).len() + level_allowance()));
    } else {
        assert(head =~= field);
        assert(line =~= field + level_field(m.output, level) + seq![' '] + indented(
            body,
            field.len() + level_allowance(),
        ));
    }
}

/// Law: a rendered line holds exactly as many line breaks as the message
/// body, so a message with two embedded breaks renders with exactly two
/// continuation lines — each, by `lemma_indented_pads_after_newline`, padded
/// with spaces up to the message-start column.
pub proof fn lemma_line_breaks_match_body(
    m: FormatterModel,
    ts: Seq<char>,
    level: Level,
    target: Seq<char>,
    body: Seq<char>,
    marker: bool,
)
    requires
        forall|i: int| 0 <= i < ts.len() ==> ts[i] != '\n',
        forall|i: int| 0 <= i < target.len() ==> target[i] != '\n',
    ensures
        count_char(spec_line(m, ts, level, target, body, marker), '\n') == count_char(body, '\n'),
{
    let reference = spec_reference(m, marker);
    let field = timestamp_field(reference, ts);
    let head = head_text(reference, ts, m.logging_level, target);
    let lf = level_field(m.output, level);
    let width = head.len() + level_allowance();
    let ind = indented(body, width);
    let line = spec_line(m, ts, level, target, body, marker);
    assert(forall|i: int| 0 <= i < field.len() ==> field[i] != '\n');
    assert(forall|i: int| 0 <= i < head.len() ==> head[i] != '\n');
    lemma_absent_char_counts_zero(head, '\n');
    lemma_level_text_chars(level);
    assert(forall|i: int| 0 <= i < lf.len() ==> lf[i] != '\n');
    lemma_absent_char_counts_zero(lf, '\n');
    lemma_absent_char_counts_zero(seq![' '], '\n');
    lemma_indented_preserves_newline_count(body, width);
    assert(line =~= head + lf + seq![' '] + ind);
    lemma_count_char_concat(head, lf, '\n');
    lemma_count_char_concat(head + lf, seq![' '], '\n');
    lemma_count_char_concat(head + lf + seq![' '], ind, '\n');
}

/// Law: a file-sink line contains no ANSI escape character, whatever the
/// severity, as long as neither the timestamp nor the target nor the message
/// body carries one itself; and a file sink never produces an erase
/// sequence.
pub proof fn lemma_file_line_has_no_escape(
    m: FormatterModel,
    ts: Seq<char>,
    level: Level,
    target: Seq<char>,
    body: Seq<char>,
    marker: bool,
)
    requires
        m.output is File,
        forall|i: int| 0 <= i < ts.len() ==> ts[i] != '\u{1b}',
        forall|i: int| 0 <= i < target.len() ==> target[i] != '\u{1b}',
        forall|i: int| 0 <= i < body.len() ==> body[i] != '\u{1b}',
    ensures
        forall|i: int|
            0 <= i < spec_line(m, ts, level, target, body, marker).len() ==> spec_line(
                m,
                ts,
                level,
                target,
                body,
                marker,
            )[i] != '\u{1b}',
        spec_erase(m, marker) is None,
{
    let reference = spec_reference(m, marker);
    let field = timestamp_field(reference, ts);
    let head = head_text(reference, ts, m.logging_level, target);
    let lf = level_field(m.output, level);
    let width = head.len() + level_allowance();
    let ind = indented(body, width);
    let line = spec_line(m, ts, level, target, body, marker);
    assert(forall|i: int| 0 <= i < field.len() ==> field[i] != '\u{1b}');
    assert(forall|i: int| 0 <= i < head.len() ==> head[i] != '\u{1b}');
    assert(forall|i: int| 0 <= i < padded_level_text(level).len() ==> padded_level_text(level)[i]
        != '\u{1b}') by {
        lemma_padded_level_text_plain(level);
    }
    assert(forall|i: int| 0 <= i < lf.len() ==> lf[i] != '\u{1b}');
    lemma_indented_chars(body, width);
    assert(forall|i: int| 0 <= i < ind.len() ==> ind[i] != '\u{1b}');
    assert(line =~= head + lf + seq![' '] + ind);
    assert(forall|i: int| 0 <= i < line.len() ==> line[i] != '\u{1b}');
}

/// The padded severity names consist of letters and spaces alone, never an
/// escape character.
pub proof fn lemma_padded_level_text_plain(level: Level)
    ensures
        forall|i: int|
            0 <= i < padded_level_text(level).len() ==> padded_level_text(level)[i] != '\u{1b}',
{
    let t = padded_level_text(level);
    assert forall|i: int| 0 <= i < t.len() implies t[i] != '\u{1b}' by {
        assert(t.len() == 5);
        assert(t[0] != '\u{1b}' && t[1] != '\u{1b}' && t[2] != '\u{1b}' && t[3] != '\u{1b}' && t[4]
            != '\u{1b}');
    }
}

impl Formatter {
    /// A fresh formatter for one sink: no previous line, empty timestamp
    /// bucket.
    pub fn new(logging_level: Level, output: Output) -> (r: Formatter)
        ensures
            r@ == (FormatterModel {
                line_previous_len: 0,
                line_previous_timestamp: Seq::<char>::empty(),
                logging_level: logging_level,
                timestamp_previous: Seq::<char>::empty(),
                output: output,
            }),
    {
        let r = Formatter {
            line_previous_len: 0,
            line_previous_timestamp: String::new(),
            logging_level,
            timestamp_previous: String::new(),
            output,
        };
        proof {
            assert(r@ =~= (FormatterModel {
                line_previous_len: 0,
                line_previous_timestamp: Seq::<char>::empty(),
                logging_level: logging_level,
                timestamp_previous: Seq::<char>::empty(),
                output: output,
            }));
        }
        r
    }

    /// Renders one record whose control marker has already been split off:
    /// `marker` says whether the message began with it, `body` is the
    /// message without it.
    pub fn render_record(
        &mut self,
        timestamp_current: &str,
        level: Level,
        target: &str,
        body: &str,
        marker: bool,
    ) -> (r: Rendered)
        requires
            timestamp_current@.len() + target@.len() + 10 <= usize::MAX,
        ensures
            r.line@ == spec_line(old(self)@, timestamp_current@, level, target@, body@, marker),
            r.erase.deep_view() == spec_erase(old(self)@, marker),
            final(self)@ == spec_next(
                old(self)@,
                timestamp_current@,
                level,
                target@,
                body@,
                marker,
            ),
    {
        let ghost m = old(self)@;
        let overwrite: bool = match self.output {
            Output::Console => marker,
            Output::File => false,
        };
        let erase: Option<String> = if overwrite {
            let mut e = String::new();
            e.append("\u{1b}[A");
            e.append(make_spaces(self.line_previous_len).as_str());
            e.append("\r");
            proof {
                reveal_strlit("\u{1b}[A");
                reveal_strlit("\r");
                assert(e@ =~= erase_sequence(m.line_previous_len));
            }
            Some(e)
        } else {
            None
        };
        if !overwrite {
            self.line_previous_timestamp = self.timestamp_previous.clone();
        }
        proof {
            assert(self.line_previous_timestamp@ == spec_reference(m, marker));
        }
        let mut line = String::new();
        let ts_string = String::from_str(timestamp_current);
        if self.line_previous_timestamp == ts_string {
            let sp = make_spaces(self.line_previous_timestamp.as_str().unicode_len());
            line.append(sp.as_str());
        } else {
            line.append(timestamp_current);
        }
        proof {
            assert(line@ =~= timestamp_field(spec_reference(m, marker), timestamp_current@));
        }
        if self.logging_level.shows_module_tag() {
            line.append(" [");
            line.append(target);
            line.append("]");
            proof {
                reveal_strlit(" [");
                reveal_strlit("]");
            }
        }
        proof {
            assert(line@ =~= head_text(
                spec_reference(m, marker),
                timestamp_current@,
                m.logging_level,
                target@,
            ));
        }
        let head_len = line.as_str().unicode_len();
        let width = head_len + 7;
        let body_indented = indent_body(body, width);
        line.append(" ");
        match self.output {
            Output::Console => {
                line.append(level.colored_name());
            },
            Output::File => {
                line.append(level.padded_name());
            },
        }
        proof {
            reveal_strlit(" ");
            assert(line@ =~= head_text(
                spec_reference(m, marker),
                timestamp_current@,
                m.logging_level,
                target@,
            ) + level_field(m.output, level));
        }
        line.append(" ");
        line.append(body_indented.as_str());
        proof {
            reveal_strlit(" ");
            assert(line@ =~= spec_line(m, timestamp_current@, level, target@, body@, marker));
        }
        self.line_previous_len = line.as_str().unicode_len();
        self.timestamp_previous = ts_string;
        proof {
            assert(self@ =~= spec_next(m, timestamp_current@, level, target@, body@, marker));
        }
        Rendered { erase, line }
    }

    /// Formats one record: splits a leading control marker off the message
    /// and renders the rest.
    pub fn format(&mut self, timestamp_current: &str, level: Level, target: &str, message: &str) -> (r:
        Rendered)
        requires
            timestamp_current@.len() + target@.len() + 10 <= usize::MAX,
        ensures
            r.line@ == spec_line(
                old(self)@,
                timestamp_current@,
                level,
                target@,
                marker_stripped(message@),
                has_marker(message@),
            ),
            r.erase.deep_view() == spec_erase(old(self)@, has_marker(message@)),
            final(self)@ == spec_next(
                old(self)@,
                timestamp_current@,
                level,
                target@,
                marker_stripped(message@),
                has_marker(message@),
            ),
    {
        let marker: bool;
        let body: String;
        match first_grapheme(message) {
            None => {
                marker = false;
                body = String::from_str(message);
            },
            Some(g) => {
                let cr = String::from_str("\r");
                if g == cr {
                    proof {
                        reveal_strlit("\r");
                        assert(g@ =~= seq!['\r']);
                        assert(has_marker(message@));
                    }
                    marker = true;
                    let n = message.unicode_len();
                    body = String::from_str(message.substring_char(1, n));
                    proof {
                        assert(message@.subrange(1, message@.len() as int) =~= message@.skip(1));
                    }
                } else {
                    proof {
                        reveal_strlit("\r");
                        assert(cr@ =~= seq!['\r']);
                        assert(g@ != seq!['\r']);
                        assert(!has_marker(message@));
                    }
                    marker = false;
                    body = String::from_str(message);
                }
            },
        }
        self.render_record(timestamp_current, level, target, body.as_str(), marker)
    }

    /// Formats one record against the clock's current one-second timestamp.
    /// `None` is returned, with the state untouched, only when the timestamp
    /// and the target together are too long for the indentation width to fit
    /// in a machine word.
    pub fn format_now(&mut self, level: Level, target: &str, message: &str) -> (r: Option<
        Rendered,
    >)
        ensures
            r matches Some(rendered) ==> {
                &&& final(self)@ == spec_next(
                    old(self)@,
                    final(self)@.timestamp_previous,
                    level,
                    target@,
                    marker_stripped(message@),
                    has_marker(message@),
                )
                &&& rendered.line@ == spec_line(
                    old(self)@,
                    final(self)@.timestamp_previous,
                    level,
                    target@,
                    marker_stripped(message@),
                    has_marker(message@),
                )
                &&& rendered.erase.deep_view() == spec_erase(old(self)@, has_marker(message@))
            },
            r is None ==> *final(self) == *old(self),
    {
        let ts = now_timestamp();
        let ts_len = ts.as_str().unicode_len();
        let target_len = target.unicode_len();
        if ts_len <= usize::MAX - 10 && target_len <= usize::MAX - 10 - ts_len {
            Some(self.format(ts.as_str(), level, target, message))
        } else {
            None
        }
    }
}

} // verus!
