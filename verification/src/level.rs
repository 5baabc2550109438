use vstd::prelude::*;

verus! {

/// Severity of a log record, ordered from highest priority (`Error`)
/// to lowest (`Trace`).
#[derive(Clone, Copy, Debug, PartialEq, Eq, Structural)]
pub enum Level {
    Error,
    Warn,
    Info,
    Debug,
    Trace,
}

/// The two sinks a formatter can render for.
#[derive(Clone, Copy, Debug, PartialEq, Eq, Structural)]
pub enum Output {
    Console,
    File,
}

/// Rank of a severity: `Error` is 1 (highest priority), `Trace` is 5 (lowest).
pub open spec fn level_rank(l: Level) -> nat {
    match l {
        Level::Error => 1,
        Level::Warn => 2,
        Level::Info => 3,
        Level::Debug => 4,
        Level::Trace => 5,
    }
}

/// The module tag is shown exactly when the configured minimum level is
/// `Debug` or lower-priority (`Trace`).
pub open spec fn shows_module_tag(min: Level) -> bool {
    level_rank(min) >= level_rank(Level::Debug)
}

/// Severity name, left-justified and padded with spaces to width 5.
pub open spec fn padded_level_text(l: Level) -> Seq<char> {
    match l {
        Level::Error => seq!['E', 'r', 'r', 'o', 'r'],
        Level::Warn => seq!['W', 'a', 'r', 'n', ' '],
        Level::Info => seq!['I', 'n', 'f', 'o', ' '],
        Level::Debug => seq!['D', 'e', 'b', 'u', 'g'],
        Level::Trace => seq!['T', 'r', 'a', 'c', 'e'],
    }
}

/// ANSI SGR foreground colour code for a severity on the console:
/// bright red for `Error`, bright yellow for `Warn`, green for `Info`,
/// white for `Debug` and `Trace`.
pub open spec fn color_code(l: Level) -> Seq<char> {
    match l {
        Level::Error => seq!['9', '1'],
        Level::Warn => seq!['9', '3'],
        Level::Info => seq!['3', '2'],
        Level::Debug => seq!['3', '7'],
        Level::Trace => seq!['3', '7'],
    }
}

/// The padded severity name wrapped in the SGR colour-on and colour-reset
/// escape sequences, as the console sink renders it.
pub open spec fn colored_level_text(l: Level) -> Seq<char> {
    seq!['\u{1b}', '['] + color_code(l) + seq!['m'] + padded_level_text(l) + seq![
        '\u{1b}',
        '[',
        '0',
        'm',
    ]
}

/// The severity texts hold spaces, letters, digits, brackets and, on the
/// console, the escape character — in particular never a line break.
pub proof fn lemma_level_text_chars(l: Level)
    ensures
        forall|i: int|
            0 <= i < padded_level_text(l).len() ==> ' ' <= #[trigger] padded_level_text(l)[i]
                <= 'z',
        forall|i: int|
            0 <= i < colored_level_text(l).len() ==> colored_level_text(l)[i] == '\u{1b}' || ' '
                <= #[trigger] colored_level_text(l)[i] <= 'z',
{
    let p = padded_level_text(l);
    assert forall|i: int| 0 <= i < p.len() implies ' ' <= #[trigger] p[i] <= 'z' by {
        assert(p.len() == 5);
        assert(' ' <= p[0] <= 'z' && ' ' <= p[1] <= 'z' && ' ' <= p[2] <= 'z' && ' ' <= p[3] <= 'z'
            && ' ' <= p[4] <= 'z');
    }
    let c = colored_level_text(l);
    assert forall|i: int| 0 <= i < c.len() implies c[i] == '\u{1b}' || ' ' <= #[trigger] c[i] <= 'z' by {
        assert(c.len() == 14);
        assert(c[0] == '\u{1b}');
        assert(c[1] == '[');
        assert('0' <= c[2] <= '9');
        assert('0' <= c[3] <= '9');
        assert(c[4] == 'm');
        assert(' ' <= c[5] <= 'z' && ' ' <= c[6] <= 'z' && ' ' <= c[7] <= 'z' && ' ' <= c[8] <= 'z'
            && ' ' <= c[9] <= 'z');
        assert(c[10] == '\u{1b}');
        assert(c[11] == '[');
        assert(c[12] == '0');
        assert(c[13] == 'm');
    }
}

impl Level {
    /// Whether the module tag is shown at this configured minimum level.
    pub fn shows_module_tag(&self) -> (r: bool)
        ensures
            r == shows_module_tag(*self),
    {
        match self {
            Level::Debug => true,
            Level::Trace => true,
            _ => false,
        }
    }

    /// Severity name padded to 5 characters.
    pub fn padded_name(&self) -> (r: &'static str)
        ensures
            r@ == padded_level_text(*self),
    {
        match self {
            Level::Error => {
                proof {
                    reveal_strlit("Error");
                    assert("Error"@ =~= padded_level_text(Level::Error));
                }
                "Error"
            },
            Level::Warn => {
                proof {
                    reveal_strlit("Warn ");
                    assert("Warn "@ =~= padded_level_text(Level::Warn));
                }
                "Warn "
            },
            Level::Info => {
                proof {
                    reveal_strlit("Info ");
                    assert("Info "@ =~= padded_level_text(Level::Info));
                }
                "Info "
            },
            Level::Debug => {
                proof {
                    reveal_strlit("Debug");
                    assert("Debug"@ =~= padded_level_text(Level::Debug));
                }
                "Debug"
            },
            Level::Trace => {
                proof {
                    reveal_strlit("Trace");
                    assert("Trace"@ =~= padded_level_text(Level::Trace));
                }
                "Trace"
            },
        }
    }

    /// Severity name padded to 5 characters and colourized for the console.
    pub fn colored_name(&self) -> (r: &'static str)
        ensures
            r@ == colored_level_text(*self),
    {
        match self {
            Level::Error => {
                proof {
                    reveal_strlit("\u{1b}[91mError\u{1b}[0m");
                    assert("\u{1b}[91mError\u{1b}[0m"@ =~= colored_level_text(Level::Error));
                }
                "\u{1b}[91mError\u{1b}[0m"
            },
            Level::Warn => {
                proof {
                    reveal_strlit("\u{1b}[93mWarn \u{1b}[0m");
                    assert("\u{1b}[93mWarn \u{1b}[0m"@ =~= colored_level_text(Level::Warn));
                }
                "\u{1b}[93mWarn \u{1b}[0m"
            },
            Level::Info => {
                proof {
                    reveal_strlit("\u{1b}[32mInfo \u{1b}[0m");
                    assert("\u{1b}[32mInfo \u{1b}[0m"@ =~= colored_level_text(Level::Info));
                }
                "\u{1b}[32mInfo \u{1b}[0m"
            },
            Level::Debug => {
                proof {
                    reveal_strlit("\u{1b}[37mDebug\u{1b}[0m");
                    assert("\u{1b}[37mDebug\u{1b}[0m"@ =~= colored_level_text(Level::Debug));
                }
                "\u{1b}[37mDebug\u{1b}[0m"
            },
            Level::Trace => {
                proof {
                    reveal_strlit("\u{1b}[37mTrace\u{1b}[0m");
                    assert("\u{1b}[37mTrace\u{1b}[0m"@ =~= colored_level_text(Level::Trace));
                }
                "\u{1b}[37mTrace\u{1b}[0m"
            },
        }
    }
}

} // verus!
