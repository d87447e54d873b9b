use vstd::prelude::*;
use crate::text::char_to_string;
use vstd::string::StringExecFns;

verus! {

/// What the character-reading call returns for the backspace key.
pub const DELETE_KEY: usize = 0xffffffff;

/// The character that a key code stands for: its low byte, read as a
/// Latin-1 code point.
pub open spec fn key_char(key: usize) -> char {
    ((key as u8) as u32) as char
}

/// What the line editor does with a key.
#[derive(Copy, Clone, PartialEq, Eq, Structural, Debug)]
pub enum LineEvent {
    /// Nothing: the key is `7`, or a backspace on an empty line.
    Skipped,
    /// Enter: the line is done (print a new line).
    Finished,
    /// Backspace: the last character went (delete it from the screen).
    Erased,
    /// The character was added to the line (print it).
    Echoed(char),
}

/// The line and the event after `key`, with `line` typed so far.
pub open spec fn feed_spec(line: Seq<char>, key: usize) -> (Seq<char>, LineEvent) {
    let c = key_char(key);
    if c == '7' {
        (line, LineEvent::Skipped)
    } else if c == '\n' {
        (line, LineEvent::Finished)
    } else if key == DELETE_KEY {
        if line.len() > 0 {
            (line.drop_last(), LineEvent::Erased)
        } else {
            (line, LineEvent::Skipped)
        }
    } else {
        (line.push(c), LineEvent::Echoed(c))
    }
}

/// A line of keyboard input being typed.
pub struct LineEditor {
    chars: Vec<char>,
}

impl LineEditor {
    /// The characters typed so far.
    pub closed spec fn line(&self) -> Seq<char> {
        self.chars@
    }

    pub fn new() -> (r: Self)
        ensures
            r.line() == Seq::<char>::empty(),
    {
        LineEditor { chars: Vec::new() }
    }

    /// Takes one key from the keyboard.
    pub fn feed(&mut self, key: usize) -> (r: LineEvent)
        ensures
            (final(self).line(), r) == feed_spec(old(self).line(), key),
    {
        let c: char = (key as u8) as char;
        assert(c == key_char(key)) by {
            assert((key as u8) as char == ((key as u8) as u32) as char);
        }
        if c == '7' {
            LineEvent::Skipped
        } else if c == '\n' {
            LineEvent::Finished
        } else if key == DELETE_KEY {
            if self.chars.len() > 0 {
                self.chars.pop();
                LineEvent::Erased
            } else {
                LineEvent::Skipped
            }
        } else {
            self.chars.push(c);
            LineEvent::Echoed(c)
        }
    }

    /// The line as a string.
    pub fn to_string(&self) -> (r: String)
        ensures
            r@ == self.line(),
    {
        let mut s = String::new();
        let mut i: usize = 0;
        while i < self.chars.len()
            invariant
                i <= self.chars@.len(),
                s@ == self.chars@.take(i as int),
            decreases self.chars@.len() - i,
        {
            let ghost before = s@;
            s.append(char_to_string(self.chars[i]).as_str());
            i = i + 1;
            assert(s@ =~= self.chars@.take(i as int)) by {
                assert(self.chars@.take(i as int) =~= before.push(self.chars@[i - 1]));
            }
        }
        assert(self.chars@.take(i as int) =~= self.chars@);
        s
    }
}

/// A backspace right after a typed character takes the line back to what it
/// was before that character.
pub proof fn lemma_erase_undoes_echo(line: Seq<char>, key: usize)
    requires
        feed_spec(line, key).1 is Echoed,
    ensures
        feed_spec(feed_spec(line, key).0, DELETE_KEY).0 == line,
{
    let k: usize = DELETE_KEY;
    assert(k as u8 == 0xffu8) by (bit_vector)
        requires
            k == 0xffffffffusize,
    ;
    assert(feed_spec(line, key).0.drop_last() =~= line);
}

} // verus!
