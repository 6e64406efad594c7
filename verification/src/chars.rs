//! Text as a sequence of characters.

use vstd::prelude::*;

verus! {

/// The characters of `s`, one by one.
pub fn chars_of(s: &str) -> (chars: Vec<char>)
    ensures
        chars@ == s@,
{
    let mut chars: Vec<char> = Vec::new();
    for c in it: s.chars()
        invariant
            chars@ == it.seq().take(it.index()),
            it.seq() == s@,
    {
        chars.push(c);
    }
    chars
}

/// Whether `text` is the word `word`, no more and no less.
pub fn is_word(text: &[char], word: &str) -> (same: bool)
    ensures
        same == (text@ == word@),
{
    let mut pos: usize = 0;
    for c in it: word.chars()
        invariant
            it.seq() == word@,
            pos == it.index(),
            pos <= text.len(),
            text@.take(pos as int) == word@.take(pos as int),
    {
        if pos >= text.len() || text[pos] != c {
            proof {
                if text@ == word@ {
                    assert(text@[pos as int] == c);
                }
            }
            return false;
        }
        proof {
            assert(text@.take(pos + 1) =~= text@.take(pos as int).push(text@[pos as int]));
            assert(word@.take(pos + 1) =~= word@.take(pos as int).push(word@[pos as int]));
        }
        pos += 1;
    }
    proof {
        assert(word@.take(pos as int) =~= word@);
        if pos == text.len() {
            assert(text@.take(pos as int) =~= text@);
        }
    }
    pos == text.len()
}

/// Where the word `word` ends in `text` if it stands there at `at`.
pub fn word_end(text: &[char], at: usize, word: &str) -> (end: Option<usize>)
    requires
        at <= text.len(),
    ensures
        end == if word@.is_prefix_of(text@.skip(at as int)) {
            Some((at + word@.len()) as usize)
        } else {
            None
        },
{
    let ghost rest = text@.skip(at as int);
    let mut pos: usize = at;
    for c in it: word.chars()
        invariant
            it.seq() == word@,
            rest == text@.skip(at as int),
            pos == at + it.index(),
            pos <= text.len(),
            rest.take(pos - at) == word@.take(pos - at),
    {
        if pos >= text.len() || text[pos] != c {
            proof {
                if word@.is_prefix_of(rest) {
                    assert(rest.subrange(0, word@.len() as int)[pos - at] == c);
                }
            }
            return None;
        }
        proof {
            assert(rest.take(pos - at + 1) =~= rest.take(pos - at).push(rest[pos - at]));
            assert(word@.take(pos - at + 1) =~= word@.take(pos - at).push(word@[pos - at]));
        }
        pos += 1;
    }
    proof {
        assert(word@.take(pos - at) =~= word@);
    }
    Some(pos)
}

} // verus!
