//! The catalog of video encoders.
//!
//! The caller asks the encoder toolchain for its list of encoders and hands
//! the text over; the catalog is read from it. The text is taken line by
//! line. Everything up to the rule ` ------` is preamble. After it, a line
//! lists a video encoder when it has this shape:
//!
//! ```text
//!  VFSXBD name   description
//! ```
//!
//! a blank; `V`; five capability marks, each its letter or a dot; a blank;
//! the name, up to the next blank; blanks; and the description up to the end
//! of the line. A carriage return at the end of a line is not part of it.
//! Other lines, such as those of audio encoders, are passed over.

use crate::error::{ErrorKind, MediaError};
use vstd::prelude::*;
use vstd::slice::slice_subrange;
use vstd::std_specs::iter::IteratorSpec;
use vstd::string::*;

verus! {

/// What an encoder can do, as the toolchain marks it.
#[derive(Clone, Copy, Debug, PartialEq, Eq, Structural)]
pub struct Capabilities {
    /// Frames are encoded on several threads.
    pub frame_threads: bool,
    /// Slices of a frame are encoded on several threads.
    pub slice_threads: bool,
    /// The encoder is experimental.
    pub experimental: bool,
    /// The encoder can be handed a frame in horizontal bands.
    pub draw_horiz_band: bool,
    /// The encoder renders directly into the caller's buffers.
    pub direct_rendering: bool,
}

/// One video encoder of the catalog.
#[derive(Clone, Debug, PartialEq, Eq)]
pub struct Encoder {
    /// The identifier: what a conversion or a session takes as its codec.
    pub id: String,
    /// The description for a human reader.
    pub label: String,
    /// What the encoder can do.
    pub capabilities: Capabilities,
}

/// An encoder as the contracts speak of it: its texts as sequences of
/// characters.
pub struct EncoderEntry {
    pub id: Seq<char>,
    pub label: Seq<char>,
    pub capabilities: Capabilities,
}

impl View for Encoder {
    type V = EncoderEntry;

    open spec fn view(&self) -> EncoderEntry {
        EncoderEntry { id: self.id@, label: self.label@, capabilities: self.capabilities }
    }
}

/// The encoders of a list, as the contracts speak of them.
pub open spec fn entries_of(list: Seq<Encoder>) -> Seq<EncoderEntry> {
    Seq::new(list.len(), |i: int| list[i]@)
}

/// How many characters stand at `from` before the first `stop`, or before
/// the end where there is none.
pub open spec fn run_len(s: Seq<char>, from: int, stop: char) -> nat
    decreases s.len() - from,
{
    if from < 0 || from >= s.len() || s[from] == stop {
        0
    } else {
        1 + run_len(s, from + 1, stop)
    }
}

/// How many blanks stand at `from` in a row.
pub open spec fn blanks_len(s: Seq<char>, from: int) -> nat
    decreases s.len() - from,
{
    if from < 0 || from >= s.len() || s[from] != ' ' {
        0
    } else {
        1 + blanks_len(s, from + 1)
    }
}

/// A line without the carriage return at its end, if it has one.
pub open spec fn content(line: Seq<char>) -> Seq<char> {
    if line.len() > 0 && line.last() == '\r' {
        line.drop_last()
    } else {
        line
    }
}

/// The line is the rule that ends the preamble.
pub open spec fn is_rule(line: Seq<char>) -> bool {
    content(line) == seq![' ', '-', '-', '-', '-', '-', '-']
}

/// The line has the shape of a video encoder's line.
pub open spec fn is_video_line(line: Seq<char>) -> bool {
    let c = content(line);
    c.len() >= 9 && c[0] == ' ' && c[1] == 'V' && c[7] == ' ' && c[8] != ' '
}

/// The encoder that a video encoder's line lists.
pub open spec fn entry_of(line: Seq<char>) -> EncoderEntry {
    let c = content(line);
    let name_end: int = 8 + run_len(c, 8, ' ') as int;
    let label_start: int = name_end + blanks_len(c, name_end) as int;
    EncoderEntry {
        id: c.subrange(8, name_end),
        label: c.subrange(label_start, c.len() as int),
        capabilities: Capabilities {
            frame_threads: c[2] == 'F',
            slice_threads: c[3] == 'S',
            experimental: c[4] == 'X',
            draw_horiz_band: c[5] == 'B',
            direct_rendering: c[6] == 'D',
        },
    }
}

/// The encoders listed from index `start` of the text on, where `start` is
/// the start of a line and `listing` says whether the rule came before it.
pub open spec fn entries_from(text: Seq<char>, start: int, listing: bool) -> Seq<EncoderEntry>
    decreases text.len() - start,
{
    if start < 0 || start >= text.len() {
        Seq::empty()
    } else {
        let end: int = start + run_len(text, start, '\n') as int;
        let line = text.subrange(start, end);
        let rest = if end < text.len() {
            entries_from(text, end + 1, listing || is_rule(line))
        } else {
            Seq::empty()
        };
        if listing && is_video_line(line) {
            seq![entry_of(line)] + rest
        } else {
            rest
        }
    }
}

/// The video encoders that a listing names, in the order of its lines.
pub open spec fn listed_encoders(text: Seq<char>) -> Seq<EncoderEntry> {
    entries_from(text, 0, false)
}

/// The characters of a text, one by one.
fn characters(text: &str) -> (chars: Vec<char>)
    ensures
        chars@ == text@,
{
    let mut chars: Vec<char> = Vec::new();
    for c in it: text.chars()
        invariant
            it.seq() == text@,
            chars@ == it.seq().subrange(0, it.index() as int),
    {
        chars.push(c);
    }
    assert(chars@ =~= text@);
    chars
}

/// Counts the characters at `from` before the first `stop`.
fn run_length(s: &[char], from: usize, stop: char) -> (n: usize)
    requires
        from <= s@.len(),
    ensures
        n == run_len(s@, from as int, stop),
        from + n <= s@.len(),
{
    let mut i: usize = from;
    while i < s.len() && s[i] != stop
        invariant
            from <= i <= s@.len(),
            run_len(s@, from as int, stop) == (i - from) + run_len(s@, i as int, stop),
        decreases s@.len() - i,
    {
        i = i + 1;
    }
    i - from
}

/// Counts the blanks at `from`.
fn blanks_length(s: &[char], from: usize) -> (n: usize)
    requires
        from <= s@.len(),
    ensures
        n == blanks_len(s@, from as int),
        from + n <= s@.len(),
{
    let mut i: usize = from;
    while i < s.len() && s[i] == ' '
        invariant
            from <= i <= s@.len(),
            blanks_len(s@, from as int) == (i - from) + blanks_len(s@, i as int),
        decreases s@.len() - i,
    {
        i = i + 1;
    }
    i - from
}

/// Whether the line, without its carriage return, is the rule.
fn is_rule_line(c: &[char]) -> (rule: bool)
    ensures
        rule == (c@ == seq![' ', '-', '-', '-', '-', '-', '-']),
{
    let rule = c.len() == 7 && c[0] == ' ' && c[1] == '-' && c[2] == '-' && c[3] == '-' && c[4]
        == '-' && c[5] == '-' && c[6] == '-';
    assert(rule ==> c@ =~= seq![' ', '-', '-', '-', '-', '-', '-']);
    rule
}

/// Reads the encoder of the line that begins at index `start` of the text
/// and holds, without its carriage return, the characters `c`.
fn read_entry(text: &str, c: &[char], start: usize, Ghost(line): Ghost<Seq<char>>) -> (r: Option<
    Encoder,
>)
    requires
        c@ == content(line),
        start + c@.len() <= text@.len() <= usize::MAX,
        c@ == text@.subrange(start as int, start + c@.len()),
    ensures
        r.is_some() <==> is_video_line(line),
        r matches Some(e) ==> e@ == entry_of(line),
{
    let n: usize = c.len();
    if !(n >= 9 && c[0] == ' ' && c[1] == 'V' && c[7] == ' ' && c[8] != ' ') {
        return None;
    }
    let name_len: usize = run_length(c, 8, ' ');
    let name_end: usize = 8 + name_len;
    let gap: usize = blanks_length(c, name_end);
    let label_start: usize = name_end + gap;
    let id = text.substring_char(start + 8, start + name_end).to_owned();
    let label = text.substring_char(start + label_start, start + n).to_owned();
    assert(id@ =~= c@.subrange(8, name_end as int));
    assert(label@ =~= c@.subrange(label_start as int, n as int));
    Some(
        Encoder {
            id,
            label,
            capabilities: Capabilities {
                frame_threads: c[2] == 'F',
                slice_threads: c[3] == 'S',
                experimental: c[4] == 'X',
                draw_horiz_band: c[5] == 'B',
                direct_rendering: c[6] == 'D',
            },
        },
    )
}

/// Reads the catalog from the toolchain's list of encoders.
///
/// Every text is read: the result holds the video encoders that the text
/// lists after its rule, in the order of their lines, and nothing else. A
/// text without the rule lists none.
pub fn parse_encoder_listing(text: &str) -> (list: Vec<Encoder>)
    ensures
        entries_of(list@) == listed_encoders(text@),
{
    let chars = characters(text);
    let all: &[char] = chars.as_slice();
    let n: usize = all.len();
    let mut list: Vec<Encoder> = Vec::new();
    let mut listing = false;
    let mut start: usize = 0;
    assert(entries_of(list@) + entries_from(text@, 0, false) =~= listed_encoders(text@));
    while start < n
        invariant
            start <= n,
            n == text@.len(),
            all@ == text@,
            entries_of(list@) + entries_from(text@, start as int, listing) == listed_encoders(
                text@,
            ),
        decreases n - start,
    {
        let len: usize = run_length(all, start, '\n');
        let end: usize = start + len;
        let line = slice_subrange(all, start, end);
        let kept: usize = if len > 0 && line[len - 1] == '\r' {
            len - 1
        } else {
            len
        };
        let c = slice_subrange(line, 0, kept);
        assert(c@ =~= content(line@));
        assert(c@ =~= text@.subrange(start as int, start + kept));
        let ghost before = entries_of(list@);
        let ghost rest = if end < n {
            entries_from(text@, end + 1, listing || is_rule(line@))
        } else {
            Seq::<EncoderEntry>::empty()
        };
        if listing {
            match read_entry(text, c, start, Ghost(line@)) {
                Some(encoder) => {
                    list.push(encoder);
                    assert(entries_of(list@) =~= before + seq![entry_of(line@)]);
                    assert(entries_of(list@) + rest =~= before + (seq![entry_of(line@)] + rest));
                },
                None => {},
            }
        }
        if is_rule_line(c) {
            listing = true;
        }
        if end < n {
            start = end + 1;
        } else {
            start = n;
        }
    }
    assert(entries_from(text@, start as int, listing) =~= Seq::<EncoderEntry>::empty());
    assert(entries_of(list@) + Seq::<EncoderEntry>::empty() =~= entries_of(list@));
    list
}

/// Judges a probe of the encoder toolchain.
///
/// `probe` is the toolchain's list of encoders, or the diagnostic of the
/// attempt to get it. A list gives the catalog read from it. A failed probe
/// is an `EnvironmentError` that carries the diagnostic.
pub fn list_encoders(probe: Result<String, String>) -> (r: Result<Vec<Encoder>, MediaError>)
    ensures
        match probe {
            Ok(text) => r matches Ok(list) && entries_of(list@) == listed_encoders(text@),
            Err(diagnostic) => r matches Err(e) && e.kind == ErrorKind::EnvironmentError
                && e.message == diagnostic,
        },
{
    match probe {
        Ok(text) => Ok(parse_encoder_listing(text.as_str())),
        Err(diagnostic) => Err(
            MediaError { kind: ErrorKind::EnvironmentError, message: diagnostic },
        ),
    }
}

} // verus!
