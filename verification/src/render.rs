use vstd::prelude::*;
use crate::level::{Level, Output, colored_level_text, padded_level_text, shows_module_tag};

verus! {

/// A run of `n` space characters.
pub open spec fn spaces(n: nat) -> Seq<char> {
    Seq::new(n, |i: int| ' ')
}

/// The timestamp region of a line: when the reference timestamp (the one the
/// previous line was bucketed under) equals the current one, the region is
/// blanked out with spaces of the same width; otherwise the current timestamp
/// is rendered literally.
pub open spec fn timestamp_field(reference: Seq<char>, current: Seq<char>) -> Seq<char> {
    if reference == current {
        spaces(reference.len())
    } else {
        current
    }
}

/// The source-module tag: `" [<target>]"`.
pub open spec fn module_tag(target: Seq<char>) -> Seq<char> {
    seq![' ', '['] + target + seq![']']
}

/// Timestamp region followed by the module tag, the latter present exactly
/// when the configured minimum level is `Debug` or `Trace`.
pub open spec fn head_text(
    reference: Seq<char>,
    current: Seq<char>,
    min: Level,
    target: Seq<char>,
) -> Seq<char> {
    timestamp_field(reference, current) + if shows_module_tag(min) {
        module_tag(target)
    } else {
        Seq::<char>::empty()
    }
}

/// The severity region: a space, then the padded severity name, colourized
/// on the console and plain in a file.
pub open spec fn level_field(out: Output, l: Level) -> Seq<char> {
    seq![' '] + match out {
        Output::Console => colored_level_text(l),
        Output::File => padded_level_text(l),
    }
}

/// Width of the severity region that separates the head from the message
/// body on every line: `" LEVEL "` is one space, five name characters and
/// one more space.
pub open spec fn level_allowance() -> nat {
    7
}

/// The message body with every line break followed by `width` spaces, so
/// that continuation lines align under the message-start column.
pub open spec fn indented(body: Seq<char>, width: nat) -> Seq<char>
    decreases body.len(),
{
    if body.len() == 0 {
        Seq::<char>::empty()
    } else if body[0] == '\n' {
        seq!['\n'] + spaces(width) + indented(body.skip(1), width)
    } else {
        seq![body[0]] + indented(body.skip(1), width)
    }
}

/// One fully rendered line: head, severity region, a separating space, and
/// the body indented under the column where the message starts.
pub open spec fn rendered_line(
    reference: Seq<char>,
    current: Seq<char>,
    min: Level,
    target: Seq<char>,
    out: Output,
    l: Level,
    body: Seq<char>,
) -> Seq<char> {
    let head = head_text(reference, current, min, target);
    head + level_field(out, l) + seq![' '] + indented(body, head.len() + level_allowance())
}

/// Appending one character to the body appends its rendering (the character,
/// or a line break with its indentation) to the indented body.
pub proof fn lemma_indented_push(body: Seq<char>, c: char, width: nat)
    ensures
        indented(body.push(c), width) == indented(body, width) + (if c == '\n' {
            seq!['\n'] + spaces(width)
        } else {
            seq![c]
        }),
    decreases body.len(),
{
    let piece = if c == '\n' {
        seq!['\n'] + spaces(width)
    } else {
        seq![c]
    };
    if body.len() == 0 {
        assert(body.push(c) =~= seq![c]);
        assert(body.push(c).skip(1) =~= Seq::<char>::empty());
        assert(indented(Seq::<char>::empty(), width) == Seq::<char>::empty());
        assert(indented(body, width) =~= Seq::<char>::empty());
        assert(indented(body.push(c), width) =~= indented(body, width) + piece);
    } else {
        assert(body.push(c)[0] == body[0]);
        assert(body.push(c).skip(1) =~= body.skip(1).push(c));
        lemma_indented_push(body.skip(1), c, width);
        assert(indented(body.push(c), width) =~= indented(body, width) + piece);
    }
}

/// How many times a character occurs in a sequence.
pub open spec fn count_char(s: Seq<char>, c: char) -> nat
    decreases s.len(),
{
    if s.len() == 0 {
        0
    } else {
        (if s[0] == c {
            1nat
        } else {
            0nat
        }) + count_char(s.skip(1), c)
    }
}

/// Occurrences in a concatenation are the occurrences in each part.
pub proof fn lemma_count_char_concat(a: Seq<char>, b: Seq<char>, c: char)
    ensures
        count_char(a + b, c) == count_char(a, c) + count_char(b, c),
    decreases a.len(),
{
    if a.len() == 0 {
        assert(a + b =~= b);
    } else {
        assert((a + b)[0] == a[0]);
        assert((a + b).skip(1) =~= a.skip(1) + b);
        lemma_count_char_concat(a.skip(1), b, c);
    }
}

/// A run of spaces holds no line break.
pub proof fn lemma_spaces_hold_no_newline(n: nat)
    ensures
        count_char(spaces(n), '\n') == 0,
    decreases n,
{
    if n > 0 {
        assert(spaces(n).skip(1) =~= spaces((n - 1) as nat));
        lemma_spaces_hold_no_newline((n - 1) as nat);
    }
}

/// A single character counts once for itself and never for another.
pub proof fn lemma_count_char_single(x: char, c: char)
    ensures
        count_char(seq![x], c) == if x == c {
            1nat
        } else {
            0nat
        },
{
    assert(seq![x].skip(1) =~= Seq::<char>::empty());
    assert(count_char(Seq::<char>::empty(), c) == 0);
}

/// A character that occurs nowhere in a sequence counts zero times.
pub proof fn lemma_absent_char_counts_zero(s: Seq<char>, c: char)
    requires
        forall|i: int| 0 <= i < s.len() ==> s[i] != c,
    ensures
        count_char(s, c) == 0,
    decreases s.len(),
{
    if s.len() > 0 {
        assert(forall|i: int| 0 <= i < s.skip(1).len() ==> s.skip(1)[i] == s[i + 1]);
        lemma_absent_char_counts_zero(s.skip(1), c);
    }
}

/// Law: indentation preserves the number of line breaks, so a message with
/// two embedded line breaks renders with exactly two continuation lines.
pub proof fn lemma_indented_preserves_newline_count(body: Seq<char>, width: nat)
    ensures
        count_char(indented(body, width), '\n') == count_char(body, '\n'),
    decreases body.len(),
{
    if body.len() == 0 {
    } else {
        let rest = indented(body.skip(1), width);
        lemma_indented_preserves_newline_count(body.skip(1), width);
        if body[0] == '\n' {
            lemma_count_char_single('\n', '\n');
            lemma_spaces_hold_no_newline(width);
            lemma_count_char_concat(seq!['\n'], spaces(width), '\n');
            lemma_count_char_concat(seq!['\n'] + spaces(width), rest, '\n');
        } else {
            lemma_count_char_single(body[0], '\n');
            lemma_count_char_concat(seq![body[0]], rest, '\n');
        }
    }
}

/// Law: in an indented body, every line break is followed by exactly
/// `width` spaces.
pub proof fn lemma_indented_pads_after_newline(body: Seq<char>, width: nat)
    ensures
        forall|i: int|
            0 <= i < indented(body, width).len() && indented(body, width)[i] == '\n' ==> i + 1
                + width <= indented(body, width).len() && indented(body, width).subrange(
                i + 1,
                i + 1 + width,
            ) == spaces(width),
    decreases body.len(),
{
    let r = indented(body, width);
    if body.len() == 0 {
    } else {
        let piece = if body[0] == '\n' {
            seq!['\n'] + spaces(width)
        } else {
            seq![body[0]]
        };
        let rest = indented(body.skip(1), width);
        lemma_indented_pads_after_newline(body.skip(1), width);
        assert(r =~= piece + rest);
        assert forall|i: int| 0 <= i < r.len() && r[i] == '\n' implies i + 1 + width <= r.len()
            && r.subrange(i + 1, i + 1 + width) == spaces(width) by {
            if i < piece.len() {
                if body[0] == '\n' {
                    if i == 0 {
                        assert(r.subrange(1, 1 + width as int) =~= spaces(width));
                    } else {
                        assert(piece[i] == spaces(width)[i - 1]);
                        assert(r[i] == ' ');
                    }
                } else {
                    assert(r[i] == body[0]);
                }
            } else {
                let j = i - piece.len();
                assert(rest[j] == '\n');
                assert(j + 1 + width <= rest.len() && rest.subrange(j + 1, j + 1 + width)
                    == spaces(width));
                assert(r.subrange(i + 1, i + 1 + width) =~= rest.subrange(j + 1, j + 1 + width));
            }
        }
    }
}

/// Every character of an indented body is a character of the body itself or
/// a space added by the indentation.
pub proof fn lemma_indented_chars(body: Seq<char>, width: nat)
    ensures
        forall|i: int|
            0 <= i < indented(body, width).len() ==> body.contains(
                #[trigger] indented(body, width)[i],
            ) || indented(body, width)[i] == ' ',
    decreases body.len(),
{
    let r = indented(body, width);
    if body.len() == 0 {
    } else {
        let piece = if body[0] == '\n' {
            seq!['\n'] + spaces(width)
        } else {
            seq![body[0]]
        };
        let rest = indented(body.skip(1), width);
        lemma_indented_chars(body.skip(1), width);
        assert(r =~= piece + rest);
        assert forall|i: int| 0 <= i < r.len() implies body.contains(#[trigger] r[i]) || r[i]
            == ' ' by {
            if i < piece.len() {
                if body[0] == '\n' {
                    if i == 0 {
                        assert(body[0] == r[i] && body.contains(r[i]));
                    } else {
                        assert(piece[i] == spaces(width)[i - 1]);
                    }
                } else {
                    assert(body[0] == r[i] && body.contains(r[i]));
                }
            } else {
                let j = i - piece.len();
                assert(rest[j] == r[i]);
                if body.skip(1).contains(r[i]) {
                    let k = choose|k: int| 0 <= k < body.skip(1).len() && body.skip(1)[k] == r[i];
                    assert(body[k + 1] == r[i]);
                }
            }
        }
    }
}

/// A string of `n` spaces.
pub fn make_spaces(n: usize) -> (r: String)
    ensures
        r@ == spaces(n as nat),
{
    let mut r = String::new();
    let mut i: usize = 0;
    while i < n
        invariant
            i <= n,
            r@ == spaces(i as nat),
        decreases n - i,
    {
        r.append(" ");
        proof {
            reveal_strlit(" ");
            assert(spaces(i as nat) + " "@ =~= spaces((i + 1) as nat));
        }
        i = i + 1;
    }
    r
}

/// The message body with every line break followed by `width` spaces.
pub fn indent_body(body: &str, width: usize) -> (r: String)
    ensures
        r@ == indented(body@, width as nat),
{
    let n = body.unicode_len();
    let pad = make_spaces(width);
    let mut r = String::new();
    let mut i: usize = 0;
    while i < n
        invariant
            i <= n,
            n == body@.len(),
            pad@ == spaces(width as nat),
            r@ == indented(body@.subrange(0, i as int), width as nat),
        decreases n - i,
    {
        let c = body.get_char(i);
        let piece = body.substring_char(i, i + 1);
        r.append(piece);
        if c == '\n' {
            r.append(pad.as_str());
        }
        proof {
            let prefix = body@.subrange(0, i as int);
            assert(piece@ =~= seq![body@[i as int]]);
            lemma_indented_push(prefix, body@[i as int], width as nat);
            assert(prefix.push(body@[i as int]) =~= body@.subrange(0, i + 1));
            if body@[i as int] == '\n' {
                assert(indented(prefix, width as nat) + piece@ + pad@ =~= indented(
                    prefix,
                    width as nat,
                ) + (seq!['\n'] + spaces(width as nat)));
            }
        }
        i = i + 1;
    }
    proof {
        assert(body@.subrange(0, n as int) =~= body@);
    }
    r
}

} // verus!
