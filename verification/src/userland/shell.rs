use vstd::prelude::*;
use vstd::string::{StrSliceExecFns, StringExecFns};
use crate::text::{lemma_split_nonempty, split_spec, split_str, strings_view, trim, trim_spec};

verus! {

/// Bytes in a user program's heap.
pub const HEAP_SIZE: usize = 1024 * 20;

/// A command line of the shell.
pub enum ShellCommand {
    /// `echo`, with what follows `echo ` (nothing when the line is just `echo`).
    Echo(Option<String>),
    /// `help`: list the commands.
    Help,
    /// `printheap`: ask for a range of the heap and print it.
    PrintHeap,
    /// Any other word: run the program at that path with the other words as arguments.
    Run { path: String, args: Vec<String> },
}

/// A shell command by the characters it holds.
pub ghost enum ShellCommandView {
    Echo(Option<Seq<char>>),
    Help,
    PrintHeap,
    Run(Seq<char>, Seq<Seq<char>>),
}

impl View for ShellCommand {
    type V = ShellCommandView;

    open spec fn view(&self) -> ShellCommandView {
        match self {
            ShellCommand::Echo(text) => ShellCommandView::Echo(
                match text {
                    Some(t) => Some(t@),
                    None => None,
                },
            ),
            ShellCommand::Help => ShellCommandView::Help,
            ShellCommand::PrintHeap => ShellCommandView::PrintHeap,
            ShellCommand::Run { path, args } => ShellCommandView::Run(path@, strings_view(args@)),
        }
    }
}

/// The command that a line asks for: the line is trimmed and split at its
/// spaces, and the first word decides.
pub open spec fn command_spec(input: Seq<char>) -> ShellCommandView {
    let line = trim_spec(input);
    let words = split_spec(line, ' ');
    let first = words[0];
    if first == seq!['e', 'c', 'h', 'o'] {
        if line.len() >= 5 {
            ShellCommandView::Echo(Some(line.subrange(5, line.len() as int)))
        } else {
            ShellCommandView::Echo(None)
        }
    } else if first == seq!['h', 'e', 'l', 'p'] {
        ShellCommandView::Help
    } else if first == seq!['p', 'r', 'i', 'n', 't', 'h', 'e', 'a', 'p'] {
        ShellCommandView::PrintHeap
    } else {
        ShellCommandView::Run(first, words.drop_first())
    }
}

/// The string holds exactly the characters of `literal`.
fn is_word(s: &String, literal: &str) -> (r: bool)
    ensures
        r == (s@ == literal@),
{
    let w = String::from_str(literal);
    *s == w
}

/// Reads a command line of the shell.
pub fn parse_command(input: &str) -> (r: ShellCommand)
    ensures
        r@ == command_spec(input@),
{
    let line = trim(input);
    let mut words = split_str(line, ' ');
    proof {
        lemma_split_nonempty(line@, ' ');
        reveal_strlit("echo");
        reveal_strlit("help");
        reveal_strlit("printheap");
        assert("echo"@ =~= seq!['e', 'c', 'h', 'o']);
        assert("help"@ =~= seq!['h', 'e', 'l', 'p']);
        assert("printheap"@ =~= seq!['p', 'r', 'i', 'n', 't', 'h', 'e', 'a', 'p']);
    }
    assert(words@.len() >= 1 && words@[0]@ == split_spec(line@, ' ')[0]);
    if is_word(&words[0], "echo") {
        let len = line.unicode_len();
        if len >= 5 {
            let text = line.substring_char(5, len);
            ShellCommand::Echo(Some(String::from_str(text)))
        } else {
            ShellCommand::Echo(None)
        }
    } else if is_word(&words[0], "help") {
        ShellCommand::Help
    } else if is_word(&words[0], "printheap") {
        ShellCommand::PrintHeap
    } else {
        let ghost all = words@;
        let path = words.remove(0);
        assert(strings_view(words@) =~= split_spec(line@, ' ').drop_first()) by {
            assert(words@ =~= all.drop_first());
        }
        ShellCommand::Run { path, args: words }
    }
}

/// What `printheap` does with a start and a size.
#[derive(Copy, Clone, PartialEq, Eq, Structural, Debug)]
pub enum HeapRead {
    /// The start is not inside the heap.
    StartOutOfBounds,
    /// The range runs past the heap: where it would end, and the most bytes
    /// that can be read from the start.
    EndOutOfBounds { end: usize, max: usize },
    /// Print the heap's bytes from `start` up to `end`.
    Bytes { start: usize, end: usize },
}

/// Checks the range of `size` bytes from `start` against a heap of
/// `heap_size` bytes.
pub fn heap_read(start: usize, size: usize, heap_size: usize) -> (r: HeapRead)
    requires
        start < heap_size ==> start + size <= usize::MAX,
    ensures
        r == (if start >= heap_size {
            HeapRead::StartOutOfBounds
        } else if start + size > heap_size {
            HeapRead::EndOutOfBounds {
                end: (start + size) as usize,
                max: (heap_size - start) as usize,
            }
        } else {
            HeapRead::Bytes { start, end: (start + size) as usize }
        }),
{
    if start >= heap_size {
        HeapRead::StartOutOfBounds
    } else if start + size > heap_size {
        HeapRead::EndOutOfBounds { end: start + size, max: heap_size - start }
    } else {
        HeapRead::Bytes { start, end: start + size }
    }
}

/// The character is a decimal digit.
pub open spec fn is_digit(c: char) -> bool {
    '0' <= c <= '9'
}

/// The number that a string of decimal digits writes.
pub open spec fn digits_value(s: Seq<char>) -> nat
    decreases s.len(),
{
    if s.len() == 0 {
        0
    } else {
        digits_value(s.drop_last()) * 10 + ((s.last() as u32) - ('0' as u32)) as nat
    }
}

/// The digits of a number as text, without its optional leading `+`.
pub open spec fn unsigned_digits(s: Seq<char>) -> Seq<char> {
    if s.len() > 0 && s[0] == '+' {
        s.drop_first()
    } else {
        s
    }
}

/// What parsing text as an unsigned number gives: an optional `+` and at
/// least one decimal digit, nothing else (no white space), and a value that
/// fits in a `usize`.
pub open spec fn parse_spec(s: Seq<char>) -> Option<usize> {
    let d = unsigned_digits(s);
    if d.len() > 0 && (forall|i: int| 0 <= i < d.len() ==> is_digit(#[trigger] d[i]))
        && digits_value(d) <= usize::MAX {
        Some(digits_value(d) as usize)
    } else {
        None
    }
}

proof fn lemma_digits_value_grows(d: Seq<char>, i: int, j: int)
    requires
        0 <= i <= j <= d.len(),
        forall|k: int| 0 <= k < d.len() ==> is_digit(#[trigger] d[k]),
    ensures
        digits_value(d.take(i)) <= digits_value(d.take(j)),
    decreases j - i,
{
    if i < j {
        lemma_digits_value_grows(d, i, j - 1);
        assert(d.take(j).drop_last() =~= d.take(j - 1));
        assert(is_digit(d[j - 1]));
    }
}

/// Reads a number typed by the user, as `str::parse::<usize>` does.
pub fn parse_number(s: &str) -> (r: Option<usize>)
    ensures
        r == parse_spec(s@),
{
    let len = s.unicode_len();
    let mut i: usize = 0;
    if len > 0 && s.get_char(0) == '+' {
        i = 1;
    }
    let ghost d = unsigned_digits(s@);
    assert(d =~= s@.subrange(i as int, len as int));
    if i == len {
        return None;
    }
    let start = i;
    let mut value: usize = 0;
    while i < len
        invariant
            d == s@.subrange(start as int, len as int),
            d == unsigned_digits(s@),
            len == s@.len(),
            start < len,
            start <= i <= len,
            value == digits_value(d.take(i - start)),
            forall|k: int| 0 <= k < i - start ==> is_digit(#[trigger] d[k]),
        decreases len - i,
    {
        let c = s.get_char(i);
        assert(c == d[i - start]);
        assert(d.take(i - start + 1).drop_last() =~= d.take(i - start));
        if c < '0' || c > '9' {
            assert(!is_digit(d[i - start]));
            return None;
        }
        let digit: usize = ((c as u32) - ('0' as u32)) as usize;
        assert(digits_value(d.take(i - start + 1)) == value * 10 + digit);
        let next = match value.checked_mul(10) {
            Some(v) => v.checked_add(digit),
            None => None,
        };
        match next {
            Some(v) => {
                value = v;
            },
            None => {
                proof {
                    assert(value * 10 + digit > usize::MAX);
                    if forall|k: int| 0 <= k < d.len() ==> is_digit(#[trigger] d[k]) {
                        lemma_digits_value_grows(d, i - start + 1, d.len() as int);
                        assert(d.take(d.len() as int) =~= d);
                    }
                }
                return None;
            },
        }
        i = i + 1;
    }
    assert(d.take(i - start) =~= d);
    Some(value)
}

} // verus!
