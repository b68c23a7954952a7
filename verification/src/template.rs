//! Message templates: text with placeholders in double braces that are
//! filled in for each message.

use crate::color::{close_sequence, close_sequence_of, open_sequence, open_sequence_of, Color};
use crate::decimal::{decimal, decimal_string};
use vstd::prelude::*;
use vstd::string::{StrSliceExecFns, StringExecFns};

verus! {

/// The templates of the four kinds of message.
#[derive(Clone, Debug, PartialEq, Eq)]
pub struct TemplateStrings {
    /// For a command that has started.
    pub start_message_template: String,
    /// For a command that has ended.
    pub done_message_template: String,
    /// For what stands before each line of a command's output.
    pub payload_message_template: String,
    /// For an error with a command.
    pub error_message_template: String,
}

/// The mathematical value of a [`TemplateStrings`].
pub struct TemplateStringsView {
    pub start_message_template: Seq<char>,
    pub done_message_template: Seq<char>,
    pub payload_message_template: Seq<char>,
    pub error_message_template: Seq<char>,
}

impl View for TemplateStrings {
    type V = TemplateStringsView;

    open spec fn view(&self) -> TemplateStringsView {
        TemplateStringsView {
            start_message_template: self.start_message_template@,
            done_message_template: self.done_message_template@,
            payload_message_template: self.payload_message_template@,
            error_message_template: self.error_message_template@,
        }
    }
}

/// The templates that are used where none are given.
pub open spec fn default_template_strings() -> TemplateStringsView {
    TemplateStringsView {
        start_message_template: "{{name}}: process started"@,
        done_message_template: "{{name}}: process exited with status: {{status_code}}"@,
        payload_message_template: "{{name}}{{handle_flag}}:"@,
        error_message_template: "currant (e): Encountered error with process {{name}}: {{error_message}}"@,
    }
}

impl TemplateStrings {
    /// The templates that are used where none are given.
    pub fn new() -> (t: TemplateStrings)
        ensures
            t@ == default_template_strings(),
    {
        TemplateStrings {
            start_message_template: "{{name}}: process started".to_owned(),
            done_message_template: "{{name}}: process exited with status: {{status_code}}".to_owned(),
            payload_message_template: "{{name}}{{handle_flag}}:".to_owned(),
            error_message_template: "currant (e): Encountered error with process {{name}}: {{error_message}}".to_owned(),
        }
    }
}

/// The values that the placeholders of a template stand for.
#[derive(Clone, Debug, PartialEq, Eq)]
pub struct Template {
    /// For `{{name}}`: the name of the command.
    pub name: String,
    /// For `{{begin_color}}`: what switches the terminal to the color of
    /// the command.
    pub begin_color: String,
    /// For `{{reset_color}}`: what switches the terminal back.
    pub reset_color: String,
    /// For `{{error_message}}`: the text of the error.
    pub error_message: String,
    /// For `{{status_code}}`: the exit code of the command, if it has one.
    pub status_code: Option<i32>,
    /// For `{{handle_flag}}`: the mark of the stream that a line came from.
    pub handle_flag: String,
}

/// The mathematical value of a [`Template`].
pub struct TemplateView {
    pub name: Seq<char>,
    pub begin_color: Seq<char>,
    pub reset_color: Seq<char>,
    pub error_message: Seq<char>,
    pub status_code: Option<i32>,
    pub handle_flag: Seq<char>,
}

impl View for Template {
    type V = TemplateView;

    open spec fn view(&self) -> TemplateView {
        TemplateView {
            name: self.name@,
            begin_color: self.begin_color@,
            reset_color: self.reset_color@,
            error_message: self.error_message@,
            status_code: self.status_code,
            handle_flag: self.handle_flag@,
        }
    }
}

/// `s` with every occurrence of `from` replaced by `to`. Occurrences are
/// found from the left and do not overlap: the search goes on behind each
/// one that was replaced.
pub open spec fn replaced(s: Seq<char>, from: Seq<char>, to: Seq<char>) -> Seq<char>
    decreases s.len(),
{
    if from.len() == 0 || s.len() < from.len() {
        s
    } else if s.subrange(0, from.len() as int) == from {
        to + replaced(s.skip(from.len() as int), from, to)
    } else {
        seq![s[0]] + replaced(s.skip(1), from, to)
    }
}

/// What stands for `{{status_code}}`: the code in decimal, or `(none)`.
pub open spec fn status_text(code: Option<i32>) -> Seq<char> {
    match code {
        Some(c) => decimal(c as int),
        None => "(none)"@,
    }
}

/// The text `s` with the placeholders filled in from `t`, one after the
/// other in this order: `{{name}}`, `{{begin_color}}`, `{{reset_color}}`,
/// `{{error_message}}`, `{{status_code}}`, `{{handle_flag}}`. A
/// placeholder that comes in with one value is filled in by the later
/// ones.
pub open spec fn executed(t: TemplateView, s: Seq<char>) -> Seq<char> {
    let s1 = replaced(s, "{{name}}"@, t.name);
    let s2 = replaced(s1, "{{begin_color}}"@, t.begin_color);
    let s3 = replaced(s2, "{{reset_color}}"@, t.reset_color);
    let s4 = replaced(s3, "{{error_message}}"@, t.error_message);
    let s5 = replaced(s4, "{{status_code}}"@, status_text(t.status_code));
    replaced(s5, "{{handle_flag}}"@, t.handle_flag)
}

/// `s` with every occurrence of `from` replaced by `to`.
pub fn replace(s: &str, from: &str, to: &str) -> (r: String)
    requires
        from@.len() > 0,
    ensures
        r@ == replaced(s@, from@, to@),
{
    let n: usize = s.unicode_len();
    let m: usize = from.unicode_len();
    let pattern: String = from.to_owned();
    let mut out = String::new();
    let mut i: usize = 0;
    proof {
        assert(s@.skip(0) =~= s@);
        assert(out@ + replaced(s@, from@, to@) =~= replaced(s@, from@, to@));
    }
    while i < n
        invariant
            i <= n,
            n == s@.len(),
            m == from@.len(),
            m > 0,
            pattern@ == from@,
            out@ + replaced(s@.skip(i as int), from@, to@) == replaced(s@, from@, to@),
        decreases n - i,
    {
        let ghost rest = s@.skip(i as int);
        let ghost done = out@;
        let mut matched = false;
        if m <= n - i {
            let candidate: String = s.substring_char(i, i + m).to_owned();
            matched = candidate == pattern;
            proof {
                assert(candidate@ =~= rest.subrange(0, m as int));
            }
        }
        if matched {
            out.append(to);
            i = i + m;
            proof {
                assert(s@.skip(i as int) =~= rest.skip(m as int));
                assert(out@ + replaced(s@.skip(i as int), from@, to@) =~= done + (to@ + replaced(
                    rest.skip(m as int),
                    from@,
                    to@,
                )));
            }
        } else {
            out.append(s.substring_char(i, i + 1));
            i = i + 1;
            proof {
                assert(s@.skip(i as int) =~= rest.skip(1));
                assert(s@.subrange(i - 1, i as int) =~= seq![rest[0]]);
                if rest.len() < m {
                    assert(rest.skip(1).len() < m);
                    assert(replaced(rest.skip(1), from@, to@) == rest.skip(1));
                    assert(seq![rest[0]] + rest.skip(1) =~= rest);
                }
                assert(out@ + replaced(s@.skip(i as int), from@, to@) =~= done + (seq![rest[0]]
                    + replaced(rest.skip(1), from@, to@)));
            }
        }
    }
    proof {
        assert(s@.skip(n as int) =~= Seq::<char>::empty());
        assert(out@ =~= replaced(s@, from@, to@));
    }
    out
}

impl Template {
    /// The values for a message in the color `msg_color`: the two color
    /// sequences of that color as they are to be printed at this moment,
    /// or none without a color; everything else empty.
    pub fn new(msg_color: Option<&Color>) -> (t: Template)
        ensures
            t@.name == Seq::<char>::empty(),
            t@.error_message == Seq::<char>::empty(),
            t@.status_code is None,
            t@.handle_flag == Seq::<char>::empty(),
            match msg_color {
                Some(color) => {
                    &&& exists|tty: bool, picked: (u8, u8, u8)|
                        t@.begin_color == open_sequence_of(*color, tty, picked)
                    &&& exists|tty: bool| t@.reset_color == close_sequence_of(tty)
                },
                None => t@.begin_color == Seq::<char>::empty() && t@.reset_color == Seq::<
                    char,
                >::empty(),
            },
    {
        Template {
            name: String::new(),
            begin_color: match msg_color {
                Some(col) => open_sequence(col),
                None => String::new(),
            },
            reset_color: match msg_color {
                Some(_) => close_sequence(),
                None => String::new(),
            },
            error_message: String::new(),
            status_code: None,
            handle_flag: String::new(),
        }
    }

    /// Fills in the placeholders of `template_string`.
    pub fn execute(&self, template_string: &str) -> (r: String)
        ensures
            r@ == executed(self@, template_string@),
    {
        let status_code_message = match self.status_code {
            Some(code) => decimal_string(code),
            None => "(none)".to_owned(),
        };
        proof {
            reveal_strlit("{{name}}");
            reveal_strlit("{{begin_color}}");
            reveal_strlit("{{reset_color}}");
            reveal_strlit("{{error_message}}");
            reveal_strlit("{{status_code}}");
            reveal_strlit("{{handle_flag}}");
        }
        let s1 = replace(template_string, "{{name}}", self.name.as_str());
        let s2 = replace(s1.as_str(), "{{begin_color}}", self.begin_color.as_str());
        let s3 = replace(s2.as_str(), "{{reset_color}}", self.reset_color.as_str());
        let s4 = replace(s3.as_str(), "{{error_message}}", self.error_message.as_str());
        let s5 = replace(s4.as_str(), "{{status_code}}", status_code_message.as_str());
        replace(s5.as_str(), "{{handle_flag}}", self.handle_flag.as_str())
    }
}

} // verus!
