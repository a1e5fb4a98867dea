//! Text helpers shared by the rest of the library: line clean-up, splitting
//! into tokens, decimal rendering, padding, and the byte order of strings.

use vstd::prelude::*;

verus! {

/// `String::push` appends one character to the end of the string.
pub assume_specification[ String::push ](s: &mut String, ch: char)
    ensures
        final(s)@ == old(s)@.push(ch),
;

/// The characters of `s` that are not line feeds, in their order.
pub open spec fn without_newlines(s: Seq<char>) -> Seq<char> {
    s.filter(|c: char| c != '\n')
}

/// Drops every line feed from `line`.
pub fn strip_newlines(line: &str) -> (out: String)
    ensures
        out@ == without_newlines(line@),
{
    let mut out = String::new();
    proof {
        reveal(Seq::filter);
    }
    for c in it: line.chars()
        invariant
            it.seq() == line@,
            out@ == without_newlines(line@.take(it.index() as int)),
    {
        proof {
            reveal(Seq::filter);
            let k = it.index() as int;
            assert(line@.take(k + 1).drop_last() =~= line@.take(k));
            assert(line@.take(k + 1).last() == c);
        }
        if c != '\n' {
            out.push(c);
        }
    }
    proof {
        assert(line@.take(line@.len() as int) =~= line@);
    }
    out
}

/// The character that separates tokens: space, tab, line feed, form feed or
/// carriage return.
pub open spec fn is_space(c: char) -> bool {
    c == ' ' || c == '\t' || c == '\n' || c == '\x0C' || c == '\r'
}

/// Decides `is_space`.
pub fn is_space_char(c: char) -> (b: bool)
    ensures
        b == is_space(c),
{
    c == ' ' || c == '\t' || c == '\n' || c == '\x0C' || c == '\r'
}

/// Reading `s` from the left: the tokens already closed by a separator, and
/// the token still open at the end of `s` (empty when `s` ends in a separator
/// or is empty).
pub open spec fn token_scan(s: Seq<char>) -> (Seq<Seq<char>>, Seq<char>)
    decreases s.len(),
{
    if s.len() == 0 {
        (Seq::empty(), Seq::empty())
    } else {
        let (closed, open) = token_scan(s.drop_last());
        if !is_space(s.last()) {
            (closed, open.push(s.last()))
        } else if open.len() > 0 {
            (closed.push(open), Seq::empty())
        } else {
            (closed, open)
        }
    }
}

/// The maximal runs of non-separator characters of `s`, from left to right.
pub open spec fn tokens_of(s: Seq<char>) -> Seq<Seq<char>> {
    let (closed, open) = token_scan(s);
    if open.len() > 0 {
        closed.push(open)
    } else {
        closed
    }
}

/// The views of a vector of strings.
pub open spec fn views(v: Seq<String>) -> Seq<Seq<char>> {
    v.map_values(|s: String| s@)
}

/// Splits `line` into its whitespace-separated tokens.
pub fn tokens(line: &str) -> (out: Vec<String>)
    ensures
        views(out@) == tokens_of(line@),
{
    let mut closed: Vec<String> = Vec::new();
    let mut open = String::new();
    for c in it: line.chars()
        invariant
            it.seq() == line@,
            (views(closed@), open@) == token_scan(line@.take(it.index() as int)),
    {
        proof {
            let k = it.index() as int;
            assert(line@.take(k + 1).drop_last() =~= line@.take(k));
            assert(line@.take(k + 1).last() == c);
        }
        if !is_space_char(c) {
            open.push(c);
        } else if !open.as_str().is_empty() {
            let ghost before = views(closed@);
            closed.push(open);
            open = String::new();
            assert(views(closed@) =~= before.push(token_scan(line@.take(it.index() as int)).1));
        }
    }
    proof {
        assert(line@.take(line@.len() as int) =~= line@);
    }
    if !open.as_str().is_empty() {
        let ghost before = views(closed@);
        let ghost last = open@;
        closed.push(open);
        assert(views(closed@) =~= before.push(last));
    }
    closed
}

/// The character that writes the digit `d`.
pub open spec fn digit_char(d: nat) -> char
    recommends
        d < 10,
{
    if d == 0 {
        '0'
    } else if d == 1 {
        '1'
    } else if d == 2 {
        '2'
    } else if d == 3 {
        '3'
    } else if d == 4 {
        '4'
    } else if d == 5 {
        '5'
    } else if d == 6 {
        '6'
    } else if d == 7 {
        '7'
    } else if d == 8 {
        '8'
    } else {
        '9'
    }
}

/// The decimal numeral of `n`: no sign, no leading zero, `"0"` for zero.
pub open spec fn decimal(n: nat) -> Seq<char>
    decreases n,
{
    if n < 10 {
        seq![digit_char(n)]
    } else {
        decimal(n / 10).push(digit_char(n % 10))
    }
}

/// The digit that the character `c` writes; 0 for any other character.
pub open spec fn digit_value(c: char) -> nat {
    if c == '1' {
        1
    } else if c == '2' {
        2
    } else if c == '3' {
        3
    } else if c == '4' {
        4
    } else if c == '5' {
        5
    } else if c == '6' {
        6
    } else if c == '7' {
        7
    } else if c == '8' {
        8
    } else if c == '9' {
        9
    } else {
        0
    }
}

/// The number that the decimal numeral `s` writes.
pub open spec fn decimal_value(s: Seq<char>) -> nat
    decreases s.len(),
{
    if s.len() == 0 {
        0
    } else {
        decimal_value(s.drop_last()) * 10 + digit_value(s.last())
    }
}

/// The numeral of a number writes that number, so two numbers with the same
/// numeral are the same number.
pub proof fn lemma_decimal_reads_back(n: nat)
    ensures
        decimal_value(decimal(n)) == n,
        decimal(n).len() > 0,
    decreases n,
{
    if n < 10 {
        let s = seq![digit_char(n)];
        assert(s.drop_last() =~= Seq::<char>::empty());
        assert(decimal_value(s.drop_last()) == 0);
        assert(s.last() == digit_char(n));
    } else {
        lemma_decimal_reads_back(n / 10);
        let s = decimal(n / 10).push(digit_char(n % 10));
        assert(s.drop_last() =~= decimal(n / 10));
        assert(s.last() == digit_char(n % 10));
    }
}

fn digit(d: u8) -> (c: char)
    requires
        d < 10,
    ensures
        c == digit_char(d as nat),
{
    if d == 0 {
        '0'
    } else if d == 1 {
        '1'
    } else if d == 2 {
        '2'
    } else if d == 3 {
        '3'
    } else if d == 4 {
        '4'
    } else if d == 5 {
        '5'
    } else if d == 6 {
        '6'
    } else if d == 7 {
        '7'
    } else if d == 8 {
        '8'
    } else {
        '9'
    }
}

/// Writes `n` as a decimal numeral.
pub fn decimal_string(n: u128) -> (out: String)
    ensures
        out@ == decimal(n as nat),
    decreases n,
{
    if n < 10 {
        let mut out = String::new();
        out.push(digit(n as u8));
        assert(out@ =~= seq![digit_char(n as nat)]);
        out
    } else {
        let mut out = decimal_string(n / 10);
        out.push(digit((n % 10) as u8));
        out
    }
}

/// The string `s` followed by `n` spaces.
pub open spec fn with_spaces(s: Seq<char>, n: nat) -> Seq<char> {
    s + Seq::new(n, |i: int| ' ')
}

/// The length of `s` in bytes of UTF-8.
pub open spec fn byte_len(s: Seq<char>) -> nat {
    vstd::utf8::encode_utf8(s).len()
}

/// `s` filled up with spaces on the right to `width` bytes; `s` itself where
/// it is that long already.
pub open spec fn padded(s: Seq<char>, width: nat) -> Seq<char> {
    if byte_len(s) < width {
        with_spaces(s, (width - byte_len(s)) as nat)
    } else {
        s
    }
}

/// Pads `s` on the right with spaces to `width` bytes.
pub fn pad_right(s: &str, width: usize) -> (out: String)
    ensures
        out@ == padded(s@, width as nat),
{
    let mut out = s.to_owned();
    let have = s.as_bytes().len();
    if have < width {
        let missing = width - have;
        let mut i: usize = 0;
        assert(out@ =~= with_spaces(s@, 0));
        while i < missing
            invariant
                i <= missing,
                out@ == with_spaces(s@, i as nat),
            decreases missing - i,
        {
            out.push(' ');
            i = i + 1;
            assert(out@ =~= with_spaces(s@, i as nat));
        }
    }
    out
}

/// The ending of a noun after the count `n`: nothing after 1, an `s` after
/// any other count.
pub open spec fn plural(n: nat) -> Seq<char> {
    if n != 1 {
        "s"@
    } else {
        Seq::empty()
    }
}

/// Picks the ending of a noun after the count `n`.
pub fn plural_str(n: usize) -> (out: &'static str)
    ensures
        out@ == plural(n as nat),
{
    if n != 1 {
        "s"
    } else {
        proof {
            reveal_strlit("");
        }
        ""
    }
}

/// A token: at least one character, and no separator among its characters.
pub open spec fn is_word(t: Seq<char>) -> bool {
    t.len() > 0 && forall|k: int| 0 <= k < t.len() ==> !is_space(#[trigger] t[k])
}

/// The test "is no separator".
pub open spec fn no_space() -> spec_fn(char) -> bool {
    |c: char| !is_space(c)
}

proof fn lemma_token_scan(s: Seq<char>)
    ensures
        forall|i: int| 0 <= i < token_scan(s).0.len() ==> is_word(#[trigger] token_scan(s).0[i]),
        forall|k: int| 0 <= k < token_scan(s).1.len() ==> !is_space(#[trigger] token_scan(s).1[k]),
        token_scan(s).0.flatten() + token_scan(s).1 == s.filter(no_space()),
    decreases s.len(),
{
    reveal(Seq::filter);
    if s.len() == 0 {
        assert(token_scan(s).0.flatten() + token_scan(s).1 =~= Seq::<char>::empty());
    } else {
        let front = s.drop_last();
        lemma_token_scan(front);
        let (closed, open) = token_scan(front);
        if !is_space(s.last()) {
            assert(closed.flatten() + open.push(s.last()) =~= (closed.flatten() + open).push(
                s.last(),
            ));
        } else if open.len() > 0 {
            closed.lemma_flatten_push(open);
            assert(closed.push(open).flatten() + Seq::<char>::empty() =~= closed.flatten() + open);
        }
    }
}

/// Every token holds at least one character and no separator, and the
/// tokens one after the other are the line without its separators.
pub proof fn lemma_tokens_are_words(s: Seq<char>)
    ensures
        forall|i: int| 0 <= i < tokens_of(s).len() ==> is_word(#[trigger] tokens_of(s)[i]),
        tokens_of(s).flatten() == s.filter(no_space()),
{
    lemma_token_scan(s);
    let (closed, open) = token_scan(s);
    if open.len() > 0 {
        closed.lemma_flatten_push(open);
    } else {
        assert(closed.flatten() + open =~= closed.flatten());
    }
}

/// The bytes of two texts, one after the other, are the bytes of the texts
/// joined.
pub proof fn lemma_byte_len_add(a: Seq<char>, b: Seq<char>)
    ensures
        byte_len(a + b) == byte_len(a) + byte_len(b),
    decreases a.len(),
{
    if a.len() == 0 {
        assert(a + b =~= b);
    } else {
        lemma_byte_len_add(a.drop_first(), b);
        assert((a + b).drop_first() =~= a.drop_first() + b);
    }
}

/// Padding fills a text up to the width and never cuts it: the result is as
/// long as the wider of the two, and begins with the text.
pub proof fn lemma_padded_width(s: Seq<char>, width: nat)
    ensures
        byte_len(padded(s, width)) == if byte_len(s) < width {
            width
        } else {
            byte_len(s)
        },
        padded(s, width).len() >= s.len(),
        padded(s, width).take(s.len() as int) == s,
{
    if byte_len(s) < width {
        let n = (width - byte_len(s)) as nat;
        let spaces = Seq::new(n, |i: int| ' ');
        lemma_byte_len_add(s, spaces);
        assert(vstd::utf8::is_ascii_chars(spaces));
        vstd::utf8::is_ascii_chars_encode_utf8(spaces);
        assert(padded(s, width).take(s.len() as int) =~= s);
    } else {
        assert(s.take(s.len() as int) =~= s);
    }
}

} // verus!
