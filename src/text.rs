use vstd::prelude::*;

verus! {

/// Relies on `<str as PartialEq>::eq`: two string slices are equal exactly
/// when they hold the same characters.
#[verifier::external_body]
pub(crate) fn same_text(a: &str, b: &str) -> (r: bool)
    ensures
        r == (a@ == b@),
{
    a == b
}

/// White space as `char::is_whitespace` has it: the Unicode `White_Space`
/// characters.
pub open spec fn is_white(c: char) -> bool {
    ('\t' <= c <= '\r') || c == ' ' || c == '\u{85}' || c == '\u{A0}' || c == '\u{1680}'
        || ('\u{2000}' <= c <= '\u{200A}') || c == '\u{2028}' || c == '\u{2029}' || c == '\u{202F}'
        || c == '\u{205F}' || c == '\u{3000}'
}

/// `t` without its leading white space.
pub open spec fn trim_start(t: Seq<char>) -> Seq<char>
    decreases t.len(),
{
    if t.len() > 0 && is_white(t[0]) {
        trim_start(t.drop_first())
    } else {
        t
    }
}

/// `t` without its trailing white space.
pub open spec fn trim_end(t: Seq<char>) -> Seq<char>
    decreases t.len(),
{
    if t.len() > 0 && is_white(t.last()) {
        trim_end(t.drop_last())
    } else {
        t
    }
}

/// `t` without leading and trailing white space.
pub open spec fn trimmed(t: Seq<char>) -> Seq<char> {
    trim_end(trim_start(t))
}

/// Relies on `str::trim`: the slice without leading and trailing white space,
/// white space being what `char::is_whitespace` accepts.
#[verifier::external_body]
pub(crate) fn trim_text(t: &str) -> (r: &str)
    ensures
        r@ == trimmed(t@),
{
    t.trim()
}

/// Relies on `String::push`: the character is appended at the end.
#[verifier::external_body]
pub(crate) fn push_char(s: &mut String, c: char)
    ensures
        final(s)@ == old(s)@.push(c),
{
    s.push(c)
}

/// The characters of each string of a sequence.
pub open spec fn texts(v: Seq<String>) -> Seq<Seq<char>> {
    v.map_values(|s: String| s@)
}

/// A copy of a list of strings.
pub fn copy_vec(vector: &Vec<String>) -> (r: Vec<String>)
    ensures
        texts(r@) == texts(vector@),
{
    let mut res: Vec<String> = Vec::new();
    let mut i: usize = 0;
    while i < vector.len()
        invariant
            i <= vector@.len(),
            texts(res@) == texts(vector@.subrange(0, i as int)),
        decreases vector@.len() - i,
    {
        let item = vector[i].clone();
        let ghost prev = res@;
        res.push(item);
        proof {
            assert(res@ == prev.push(item));
            assert(texts(res@) =~= texts(prev).push(item@));
            assert(vector@.subrange(0, i + 1) == vector@.subrange(0, i as int).push(vector@[i as int]));
            assert(texts(res@) =~= texts(vector@.subrange(0, i + 1)));
        }
        i += 1;
    }
    assert(vector@.subrange(0, i as int) == vector@);
    res
}

/// Tokens joined into one line, one space between neighbours.
pub open spec fn join(toks: Seq<Seq<char>>) -> Seq<char>
    decreases toks.len(),
{
    if toks.len() == 0 {
        Seq::empty()
    } else if toks.len() == 1 {
        toks[0]
    } else {
        join(toks.drop_last()) + seq![' '] + toks.last()
    }
}

/// The tokens of a list joined into one line, one space between neighbours.
pub fn vec_to_line(vector: &Vec<String>) -> (r: String)
    ensures
        r@ == join(texts(vector@)),
{
    let mut res = String::new();
    let mut i: usize = 0;
    while i < vector.len()
        invariant
            i <= vector@.len(),
            res@ == join(texts(vector@.subrange(0, i as int))),
        decreases vector@.len() - i,
    {
        let ghost before = texts(vector@.subrange(0, i as int));
        if i > 0 {
            res.append(" ");
            proof { reveal_strlit(" "); }
        }
        res.append(vector[i].as_str());
        proof {
            let after = texts(vector@.subrange(0, i + 1));
            assert(after =~= before.push(vector@[i as int]@));
            assert(after.drop_last() =~= before);
            assert(res@ =~= join(after));
        }
        i += 1;
    }
    assert(vector@.subrange(0, i as int) == vector@);
    res
}

} // verus!
