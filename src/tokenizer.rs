use vstd::prelude::*;
use crate::text::{push_char, texts};

verus! {

/// The character that an escape `\c` inside a quoted literal stands for.
pub open spec fn escaped(c: char) -> Option<char> {
    if c == 'n' {
        Some('\n')
    } else if c == 't' {
        Some('\t')
    } else if c == '\\' {
        Some('\\')
    } else if c == '"' {
        Some('"')
    } else {
        None
    }
}

/// The body of a quoted literal that starts at `j` (just past the opening
/// quote), with the number of characters from `j` up to the closing quote or
/// to the end of the line; `None` on an unknown or unfinished escape.
pub open spec fn quoted(s: Seq<char>, j: int) -> Option<(Seq<char>, nat)>
    decreases s.len() - j,
{
    if j < 0 || j >= s.len() {
        Some((Seq::empty(), 0))
    } else if s[j] == '"' {
        Some((Seq::empty(), 0))
    } else if s[j] == '\\' {
        if j + 1 < s.len() && escaped(s[j + 1]) is Some {
            match quoted(s, j + 2) {
                Some((r, n)) => Some((seq![escaped(s[j + 1]).unwrap()] + r, n + 2)),
                None => None,
            }
        } else {
            None
        }
    } else {
        match quoted(s, j + 1) {
            Some((r, n)) => Some((seq![s[j]] + r, n + 1)),
            None => None,
        }
    }
}

/// `toks` with `cur` appended when `cur` is not empty.
pub open spec fn flush(toks: Seq<Seq<char>>, cur: Seq<char>) -> Seq<Seq<char>> {
    if cur.len() > 0 {
        toks.push(cur)
    } else {
        toks
    }
}

/// The tokens of `s` from position `i` on, given the partial word `cur` and
/// the tokens `toks` found before. Words are split at spaces and newlines; a
/// quoted literal ends the word before it and is one token of its own.
pub open spec fn lex(s: Seq<char>, i: int, cur: Seq<char>, toks: Seq<Seq<char>>) -> Option<Seq<Seq<char>>>
    decreases s.len() - i,
{
    if i < 0 || i >= s.len() {
        Some(flush(toks, cur))
    } else if s[i] == ' ' || s[i] == '\n' {
        lex(s, i + 1, Seq::empty(), flush(toks, cur))
    } else if s[i] == '"' {
        match quoted(s, i + 1) {
            Some((q, n)) => lex(s, if i + 2 + n < s.len() { i + 2 + n } else { s.len() as int }, Seq::empty(), flush(toks, cur).push(q)),
            None => None,
        }
    } else {
        lex(s, i + 1, cur.push(s[i]), toks)
    }
}

/// The tokens of a whole line; `None` when a quoted literal holds a malformed
/// escape.
pub open spec fn tokens_of(s: Seq<char>) -> Option<Seq<Seq<char>>> {
    lex(s, 0, Seq::empty(), Seq::empty())
}

/// Reads a quoted literal of `line` from `start` on, resolving escapes. Returns
/// the literal and the position of its closing quote (the line's length when
/// it does not close), or `None` on a malformed escape.
pub fn get_string(line: &String, start: usize) -> (r: Option<(String, usize)>)
    requires
        line@.len() < usize::MAX,
    ensures
        match quoted(line@, start as int) {
            Some((q, n)) => r is Some && r.unwrap().0@ == q && r.unwrap().1 == start + n,
            None => r is None,
        },
        r is Some ==> r.unwrap().1 <= line@.len() || r.unwrap().1 == start,
{
    let s = line.as_str();
    let len = s.unicode_len();
    if start >= len {
        return Some((String::new(), start));
    }
    let mut index: usize = start;
    let mut result = String::new();
    while index < len
        invariant
            start <= index < len,
            len == line@.len(),
            s@ == line@,
            len < usize::MAX,
            quoted(line@, start as int) == match quoted(line@, index as int) {
                Some((r, n)) => Some((result@ + r, (n + index - start) as nat)),
                None => None,
            },
        decreases len + 1 - index,
    {
        let ch = s.get_char(index);
        if ch == '"' {
            assert(result@ + Seq::<char>::empty() == result@);
            return Some((result, index));
        } else if ch == '\\' {
            if index + 1 >= len {
                return None;
            }
            let next = s.get_char(index + 1);
            let c: char;
            if next == 'n' {
                c = '\n';
            } else if next == 't' {
                c = '\t';
            } else if next == '\\' {
                c = '\\';
            } else if next == '"' {
                c = '"';
            } else {
                return None;
            }
            let ghost before = result@;
            push_char(&mut result, c);
            proof {
                assert(before + (seq![c] + quoted(line@, index + 2).unwrap_or((Seq::empty(), 0)).0) =~= result@ + quoted(line@, index + 2).unwrap_or((Seq::empty(), 0)).0);
            }
            index += 2;
        } else {
            let ghost before = result@;
            push_char(&mut result, ch);
            proof {
                assert(before + (seq![ch] + quoted(line@, index + 1).unwrap_or((Seq::empty(), 0)).0) =~= result@ + quoted(line@, index + 1).unwrap_or((Seq::empty(), 0)).0);
            }
            index += 1;
        }
        if index >= len {
            assert(result@ + Seq::<char>::empty() == result@);
            return Some((result, len));
        }
    }
    Some((result, index))
}

/// Splits a line into tokens: words separated by spaces or newlines, and
/// quoted literals with `\n`, `\t`, `\\` and `\"` resolved. `None` when a
/// quoted literal holds any other escape.
pub fn tokenize(line: &String) -> (r: Option<Vec<String>>)
    requires
        line@.len() < usize::MAX - 2,
    ensures
        match tokens_of(line@) {
            Some(t) => r is Some && texts(r.unwrap()@) == t,
            None => r is None,
        },
{
    let s = line.as_str();
    let len = s.unicode_len();
    let mut tokens: Vec<String> = Vec::new();
    let mut current = String::new();
    let mut index: usize = 0;
    assert(texts(tokens@) =~= Seq::<Seq<char>>::empty());
    while index < len
        invariant
            len == line@.len(),
            s@ == line@,
            len < usize::MAX - 2,
            tokens_of(line@) == lex(line@, index as int, current@, texts(tokens@)),
        decreases len - index,
    {
        let ch = s.get_char(index);
        if ch == ' ' || ch == '\n' {
            if current.unicode_len() > 0 {
                let ghost before = tokens@;
                tokens.push(current);
                assert(texts(tokens@) =~= texts(before).push(current@));
                current = String::new();
            } else {
                assert(current@ =~= Seq::<char>::empty());
            }
            index += 1;
        } else if ch == '"' {
            if current.unicode_len() > 0 {
                let ghost before = tokens@;
                tokens.push(current);
                assert(texts(tokens@) =~= texts(before).push(current@));
                current = String::new();
            } else {
                assert(current@ =~= Seq::<char>::empty());
            }
            match get_string(line, index + 1) {
                Some((q, end)) => {
                    let ghost before = tokens@;
                    tokens.push(q);
                    assert(texts(tokens@) =~= texts(before).push(q@));
                    index = end + 1;
                    if index > len {
                        index = len;
                    }
                },
                None => {
                    return None;
                },
            }
        } else {
            push_char(&mut current, ch);
            index += 1;
        }
    }
    if current.unicode_len() > 0 {
        let ghost before = tokens@;
        tokens.push(current);
        assert(texts(tokens@) =~= texts(before).push(current@));
    }
    Some(tokens)
}

} // verus!
