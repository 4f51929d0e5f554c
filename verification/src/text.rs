//! Text that the bus and the status line are made of: object paths, decimal
//! numbers, and placeholders filled in.

use vstd::prelude::*;
use vstd::string::StringExecFns;

verus! {

/// `String::push` appends the character to the end of the string.
pub assume_specification[ String::push ](s: &mut String, c: char)
    ensures
        final(s)@ == old(s)@.push(c),
;

/// The characters of `name` with every `-` replaced by `_`.
pub open spec fn sanitized(name: Seq<char>) -> Seq<char> {
    Seq::new(name.len(), |i: int| if name[i] == '-' { '_' } else { name[i] })
}

/// The path of the container under which every named display has its object.
pub open spec fn outputs_path() -> Seq<char> {
    seq!['/', 'o', 'u', 't', 'p', 'u', 't', 's']
}

/// The path of the object of the display that the compositor calls `name`:
/// `/outputs/`, then the name with every `-` replaced by `_`.
pub open spec fn object_path_of(name: Seq<char>) -> Seq<char> {
    outputs_path().push('/') + sanitized(name)
}

/// The decimal digit for `d`, which is below ten.
pub open spec fn digit(d: int) -> char {
    if d == 0 {
        '0'
    } else if d == 1 {
        '1'
    } else if d == 2 {
        '2'
    } else if d == 3 {
        '3'
    } else if d == 4 {
        '4'
    } else if d == 5 {
        '5'
    } else if d == 6 {
        '6'
    } else if d == 7 {
        '7'
    } else if d == 8 {
        '8'
    } else {
        '9'
    }
}

/// `n` written in decimal, without leading zeros.
pub open spec fn decimal(n: nat) -> Seq<char>
    decreases n,
{
    if n < 10 {
        seq![digit(n as int)]
    } else {
        decimal(n / 10).push(digit((n % 10) as int))
    }
}

/// `text` with each occurrence of `placeholder` replaced by `value`. The
/// occurrences are found from the left and do not overlap; what is put in is
/// not searched again. An empty placeholder occurs nowhere.
pub open spec fn substituted(text: Seq<char>, placeholder: Seq<char>, value: Seq<char>) -> Seq<char>
    decreases text.len(),
{
    if placeholder.len() == 0 || text.len() < placeholder.len() {
        text
    } else if text.take(placeholder.len() as int) == placeholder {
        value + substituted(text.skip(placeholder.len() as int), placeholder, value)
    } else {
        seq![text[0]] + substituted(text.skip(1), placeholder, value)
    }
}

/// Whether two texts are the same text.
pub fn same_text(a: &str, b: &str) -> (r: bool)
    ensures
        r == (a@ == b@),
{
    String::from_str(a) == String::from_str(b)
}

/// Replaces every `-` in `name` by `_`.
pub fn sanitize(name: &str) -> (r: String)
    ensures
        r@ == sanitized(name@),
{
    let mut out = String::new();
    for c in it: name.chars()
        invariant
            it.seq() == name@,
            out@ == sanitized(name@.take(it.index() as int)),
    {
        let d: char = if c == '-' {
            '_'
        } else {
            c
        };
        out.push(d);
        assert(name@.take(it.index() + 1).drop_last() == name@.take(it.index() as int));
    }
    assert(name@.take(name@.len() as int) == name@);
    out
}

/// The bus path of the display that the compositor calls `name`.
pub fn object_path(name: &str) -> (r: String)
    ensures
        r@ == object_path_of(name@),
{
    let prefix = "/outputs/";
    proof {
        reveal_strlit("/outputs/");
    }
    let tail = sanitize(name);
    String::from_str(prefix).concat(tail.as_str())
}

fn digit_char(d: u16) -> (c: char)
    requires
        d < 10,
    ensures
        c == digit(d as int),
{
    if d == 0 {
        '0'
    } else if d == 1 {
        '1'
    } else if d == 2 {
        '2'
    } else if d == 3 {
        '3'
    } else if d == 4 {
        '4'
    } else if d == 5 {
        '5'
    } else if d == 6 {
        '6'
    } else if d == 7 {
        '7'
    } else if d == 8 {
        '8'
    } else {
        '9'
    }
}

fn push_decimal(out: &mut String, n: u16)
    ensures
        final(out)@ == old(out)@ + decimal(n as nat),
    decreases n,
{
    if n >= 10 {
        push_decimal(out, n / 10);
    }
    out.push(digit_char(n % 10));
}

/// `n` in decimal.
pub fn decimal_string(n: u16) -> (r: String)
    ensures
        r@ == decimal(n as nat),
{
    let mut out = String::new();
    push_decimal(&mut out, n);
    out
}

fn chars_of(s: &str) -> (r: Vec<char>)
    ensures
        r@ == s@,
{
    let mut out: Vec<char> = Vec::new();
    for c in it: s.chars()
        invariant
            it.seq() == s@,
            out@ == s@.take(it.index() as int),
    {
        out.push(c);
    }
    assert(s@.take(s@.len() as int) == s@);
    out
}

fn occurs_at(text: &Vec<char>, at: usize, word: &Vec<char>) -> (r: bool)
    requires
        at + word.len() <= text.len(),
    ensures
        r == (text@.skip(at as int).take(word.len() as int) == word@),
{
    let mut j: usize = 0;
    while j < word.len()
        invariant
            j <= word.len(),
            at + word.len() <= text.len(),
            forall|k: int| 0 <= k < j ==> text@[at + k] == word@[k],
        decreases word.len() - j,
    {
        if text[at + j] != word[j] {
            assert(text@.skip(at as int).take(word.len() as int)[j as int] != word@[j as int]);
            return false;
        }
        j += 1;
    }
    assert(text@.skip(at as int).take(word.len() as int) =~= word@);
    true
}

/// Replaces each occurrence of `placeholder` in `text` by `value`.
pub fn substitute(text: &str, placeholder: &str, value: &str) -> (r: String)
    ensures
        r@ == substituted(text@, placeholder@, value@),
{
    let t = chars_of(text);
    let p = chars_of(placeholder);
    let mut out = String::new();
    let mut i: usize = 0;
    proof {
        assert(t@.skip(0) == t@);
    }
    while i < t.len()
        invariant
            i <= t.len(),
            t@ == text@,
            p@ == placeholder@,
            out@ + substituted(t@.skip(i as int), p@, value@) == substituted(t@, p@, value@),
        decreases t.len() - i,
    {
        let ghost rest = t@.skip(i as int);
        if p.len() > 0 && t.len() - i >= p.len() && occurs_at(&t, i, &p) {
            out.append(value);
            proof {
                assert(rest.skip(p.len() as int) == t@.skip(i + p.len()));
            }
            i += p.len();
        } else {
            out.push(t[i]);
            proof {
                assert(rest.skip(1) == t@.skip(i + 1));
            }
            i += 1;
        }
    }
    out
}

} // verus!
