use vstd::prelude::*;
use vstd::string::*;
use crate::listeners::Trigger;
use crate::workspaces::{indicator, workspaces, WorkspacesIcons};

verus! {

/// What the backlight segment shows.
#[derive(Clone, Copy, Debug, PartialEq, Eq, Structural)]
pub enum BacklightOpts {
    Perc,
    Value,
}

/// What the memory segment shows.
#[derive(Clone, Copy, Debug, PartialEq, Eq, Structural)]
pub enum RamOpts {
    PercUsed,
    PercFree,
    Used,
    Free,
}

/// What the CPU segment shows.
#[derive(Clone, Copy, Debug, PartialEq, Eq, Structural)]
pub enum CpuOpts {
    Perc,
}

/// A segment that runs a command of the user's and shows its output.
pub struct CustomSettings {
    pub command: String,
    pub name: String,
    pub event: Trigger,
    pub formatting: String,
}

/// What a segment shows.
pub enum Cmd {
    Custom(CustomSettings),
    Workspaces(WorkspacesIcons),
    Backlight(BacklightOpts),
    Memory(RamOpts),
    Cpu(CpuOpts),
    WindowTitle,
}

/// What was read from the system for a segment.
pub enum Reading {
    /// The standard output of a command, decoded.
    Output(String),
    /// The active workspace (numbered from 1) and the number of workspaces.
    Workspaces(usize, usize),
    /// A measured value, already formatted.
    Value(String),
    /// The reading failed.
    Failed,
}

/// Why a segment has no value.
#[derive(Clone, Copy, Debug, PartialEq, Eq, Structural)]
pub enum SegmentError {
    /// The command line holds no word.
    EmptyCommand,
    /// The segment's command could not be run or its output not decoded.
    CommandFailed,
    /// The system value could not be read.
    ReadFailed,
    /// The reading is not of the kind that the segment needs.
    Mismatch,
}

/// Unicode `White_Space`, as `char::is_whitespace` decides it.
pub uninterp spec fn white_space(c: char) -> bool;

/// Relies on `char::is_whitespace`: whether a character is Unicode white
/// space depends on the character alone.
#[verifier::external_body]
fn is_whitespace(c: char) -> (r: bool)
    ensures
        r == white_space(c),
{
    c.is_whitespace()
}

/// The words of a string, as `str::split_whitespace` cuts them.
pub uninterp spec fn words_of(s: Seq<char>) -> Seq<Seq<char>>;

/// Relies on `str::split_whitespace`: the white-space separated words of
/// the text, in order; they depend on the text alone.
#[verifier::external_body]
fn split_words(s: &str) -> (r: Vec<String>)
    ensures
        r@.map_values(|w: String| w@) == words_of(s@),
{
    s.split_whitespace().map(|w| w.to_string()).collect()
}

pub open spec fn trim_start(s: Seq<char>) -> Seq<char>
    decreases s.len(),
{
    if s.len() > 0 && white_space(s[0]) {
        trim_start(s.drop_first())
    } else {
        s
    }
}

pub open spec fn trim_end(s: Seq<char>) -> Seq<char>
    decreases s.len(),
{
    if s.len() > 0 && white_space(s.last()) {
        trim_end(s.drop_last())
    } else {
        s
    }
}

/// The text without its leading and trailing white space.
pub open spec fn trimmed(s: Seq<char>) -> Seq<char> {
    trim_end(trim_start(s))
}

proof fn lemma_trim_start(s: Seq<char>, a: int)
    requires
        0 <= a <= s.len(),
        forall|i: int| 0 <= i < a ==> white_space(#[trigger] s[i]),
        a == s.len() || !white_space(s[a]),
    ensures
        trim_start(s) == s.subrange(a, s.len() as int),
    decreases a,
{
    if a == 0 {
        assert(s.subrange(0, s.len() as int) =~= s);
    } else {
        let t = s.drop_first();
        assert forall|i: int| 0 <= i < a - 1 implies white_space(#[trigger] t[i]) by {
            assert(t[i] == s[i + 1]);
        }
        if a < s.len() {
            assert(t[a - 1] == s[a]);
        }
        lemma_trim_start(t, a - 1);
        assert(t.subrange(a - 1, t.len() as int) =~= s.subrange(a, s.len() as int));
    }
}

proof fn lemma_trim_end(s: Seq<char>, b: int)
    requires
        0 <= b <= s.len(),
        forall|i: int| b <= i < s.len() ==> white_space(#[trigger] s[i]),
        b == 0 || !white_space(s[b - 1]),
    ensures
        trim_end(s) == s.subrange(0, b),
    decreases s.len() - b,
{
    if b == s.len() {
        assert(s.subrange(0, b) =~= s);
    } else {
        let t = s.drop_last();
        assert(white_space(s[s.len() - 1]));
        assert forall|i: int| b <= i < t.len() implies white_space(#[trigger] t[i]) by {
            assert(t[i] == s[i]);
        }
        if b > 0 {
            assert(t[b - 1] == s[b - 1]);
        }
        lemma_trim_end(t, b);
        assert(t.subrange(0, b) =~= s.subrange(0, b));
    }
}

/// The text without its leading and trailing white space.
pub fn trim(s: &str) -> (r: String)
    ensures
        r@ == trimmed(s@),
{
    let n = s.unicode_len();
    let mut a: usize = 0;
    while a < n
        invariant
            n == s@.len(),
            0 <= a <= n,
            forall|i: int| 0 <= i < a ==> white_space(#[trigger] s@[i]),
        ensures
            0 <= a <= n,
            forall|i: int| 0 <= i < a ==> white_space(#[trigger] s@[i]),
            a == n || !white_space(s@[a as int]),
        decreases n - a,
    {
        if !is_whitespace(s.get_char(a)) {
            break;
        }
        a = a + 1;
    }
    let ghost t = s@.subrange(a as int, n as int);
    proof {
        lemma_trim_start(s@, a as int);
    }
    let mut b: usize = n;
    while b > a
        invariant
            n == s@.len(),
            0 <= a <= b <= n,
            t == s@.subrange(a as int, n as int),
            forall|i: int| b <= i < n ==> white_space(#[trigger] s@[i]),
        ensures
            0 <= a <= b <= n,
            forall|i: int| b <= i < n ==> white_space(#[trigger] s@[i]),
            b == a || !white_space(s@[b - 1]),
        decreases b - a,
    {
        if !is_whitespace(s.get_char(b - 1)) {
            break;
        }
        b = b - 1;
    }
    proof {
        assert forall|i: int| (b - a) <= i < t.len() implies white_space(#[trigger] t[i]) by {
            assert(t[i] == s@[a + i]);
        }
        if b > a {
            assert(t[b - a - 1] == s@[b - 1]);
        }
        lemma_trim_end(t, (b - a) as int);
        assert(t.subrange(0, (b - a) as int) =~= s@.subrange(a as int, b as int));
    }
    s.substring_char(a, b).to_string()
}

/// Splits a command line into the program and its arguments. A line with
/// no word is refused.
pub fn command_line(command: &str) -> (r: Result<(String, Vec<String>), SegmentError>)
    ensures
        r is Err <==> words_of(command@).len() == 0,
        r is Err ==> r == Err::<(String, Vec<String>), SegmentError>(SegmentError::EmptyCommand),
        r matches Ok((program, args)) ==> program@ == words_of(command@)[0]
            && args@.map_values(|w: String| w@) == words_of(command@).drop_first(),
{
    program_and_args(split_words(command))
}

/// The first word is the program, the others are its arguments; no word
/// at all is refused.
pub fn program_and_args(words: Vec<String>) -> (r: Result<(String, Vec<String>), SegmentError>)
    ensures
        r is Err <==> words@.len() == 0,
        r is Err ==> r == Err::<(String, Vec<String>), SegmentError>(SegmentError::EmptyCommand),
        r matches Ok((program, args)) ==> program@ == words@[0]@
            && args@.map_values(|w: String| w@) == words@.map_values(|w: String| w@).drop_first(),
{
    let mut words = words;
    if words.len() == 0 {
        return Err(SegmentError::EmptyCommand);
    }
    let ghost all = words@;
    let program = words.remove(0);
    proof {
        assert(words@.map_values(|w: String| w@) =~= all.map_values(|w: String| w@).drop_first());
    }
    Ok((program, words))
}

/// The white-space separated words of a text.
pub fn words(s: &str) -> (r: Vec<String>)
    ensures
        r@.map_values(|w: String| w@) == words_of(s@),
{
    split_words(s)
}

/// The total and used memory columns of `free -m`'s output, its eighth and
/// ninth words; nothing when the output is shorter.
pub fn ram_fields(words: &Vec<String>) -> (r: Option<(String, String)>)
    ensures
        r is Some <==> words@.len() > 8,
        r matches Some((total, used)) ==> total@ == words@[7]@ && used@ == words@[8]@,
{
    if words.len() > 8 {
        Some((words[7].clone(), words[8].clone()))
    } else {
        None
    }
}

/// The idle column of `mpstat`'s output, its last word; nothing when the
/// output holds no word.
pub fn cpu_idle_field(words: &Vec<String>) -> (r: Option<String>)
    ensures
        r is Some <==> words@.len() > 0,
        r matches Some(idle) ==> idle@ == words@.last()@,
{
    if words.len() > 0 {
        Some(words[words.len() - 1].clone())
    } else {
        None
    }
}

/// The text of a segment from what was read for it: a command's output is
/// shown trimmed, the workspace indicator is drawn from the workspace
/// state, a window title that could not be read shows empty, and a measured
/// value is shown as it was formatted.
pub fn get_command_output(command: &Cmd, reading: Reading) -> (r: Result<String, SegmentError>)
    ensures
        match (*command, reading) {
            (Cmd::Custom(_), Reading::Output(out)) => r matches Ok(s) && s@ == trimmed(out@),
            (Cmd::Custom(_), Reading::Failed) => r == Err::<String, SegmentError>(
                SegmentError::CommandFailed,
            ),
            (Cmd::Workspaces(icons), Reading::Workspaces(active, length)) => r matches Ok(s) && s@
                == indicator(icons.active@, icons.inactive@, active as int, length as int, length as nat),
            (Cmd::WindowTitle, Reading::Output(title)) => r matches Ok(s) && s@ == title@,
            (Cmd::WindowTitle, Reading::Failed) => r matches Ok(s) && s@.len() == 0,
            (Cmd::Backlight(_), Reading::Value(v)) => r matches Ok(s) && s@ == v@,
            (Cmd::Memory(_), Reading::Value(v)) => r matches Ok(s) && s@ == v@,
            (Cmd::Cpu(_), Reading::Value(v)) => r matches Ok(s) && s@ == v@,
            (Cmd::Workspaces(_), Reading::Failed) => r == Err::<String, SegmentError>(
                SegmentError::ReadFailed,
            ),
            (Cmd::Backlight(_), Reading::Failed) => r == Err::<String, SegmentError>(
                SegmentError::ReadFailed,
            ),
            (Cmd::Memory(_), Reading::Failed) => r == Err::<String, SegmentError>(
                SegmentError::ReadFailed,
            ),
            (Cmd::Cpu(_), Reading::Failed) => r == Err::<String, SegmentError>(
                SegmentError::ReadFailed,
            ),
            _ => r == Err::<String, SegmentError>(SegmentError::Mismatch),
        },
{
    match (command, reading) {
        (Cmd::Custom(_), Reading::Output(out)) => Ok(trim(out.as_str())),
        (Cmd::Custom(_), Reading::Failed) => Err(SegmentError::CommandFailed),
        (Cmd::Workspaces(icons), Reading::Workspaces(active, length)) => Ok(
            workspaces(icons, active, length),
        ),
        (Cmd::WindowTitle, Reading::Output(title)) => Ok(title),
        (Cmd::WindowTitle, Reading::Failed) => Ok(String::new()),
        (Cmd::Backlight(_), Reading::Value(v)) => Ok(v),
        (Cmd::Memory(_), Reading::Value(v)) => Ok(v),
        (Cmd::Cpu(_), Reading::Value(v)) => Ok(v),
        (Cmd::Workspaces(_), Reading::Failed) => Err(SegmentError::ReadFailed),
        (Cmd::Backlight(_), Reading::Failed) => Err(SegmentError::ReadFailed),
        (Cmd::Memory(_), Reading::Failed) => Err(SegmentError::ReadFailed),
        (Cmd::Cpu(_), Reading::Failed) => Err(SegmentError::ReadFailed),
        _ => Err(SegmentError::Mismatch),
    }
}

} // verus!
