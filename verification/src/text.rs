//! Text helpers shared by the parsers and the renderer: searching for a
//! character, cutting text into lines, copying ranges and writing numbers.

use vstd::prelude::*;

verus! {

/// Position of the first `c` in `s` at or after `from`; `s.len()` when there is none.
pub open spec fn find_char(s: Seq<char>, c: char, from: int) -> int
    decreases s.len() - from,
{
    if from < 0 || from >= s.len() {
        s.len() as int
    } else if s[from] == c {
        from
    } else {
        find_char(s, c, from + 1)
    }
}

/// `find_char` returns the least position at or after `from` that holds `c`.
pub proof fn lemma_find_char(s: Seq<char>, c: char, from: int)
    requires
        0 <= from <= s.len(),
    ensures
        from <= find_char(s, c, from) <= s.len(),
        forall|j: int| from <= j < find_char(s, c, from) ==> s[j] != c,
        find_char(s, c, from) < s.len() ==> s[find_char(s, c, from)] == c,
    decreases s.len() - from,
{
    if from < s.len() && s[from] != c {
        lemma_find_char(s, c, from + 1);
    }
}

/// A position that is as `lemma_find_char` says is the one that `find_char` returns.
pub proof fn lemma_find_char_unique(s: Seq<char>, c: char, from: int, at: int)
    requires
        0 <= from <= at <= s.len(),
        forall|j: int| from <= j < at ==> s[j] != c,
        at < s.len() ==> s[at] == c,
    ensures
        find_char(s, c, from) == at,
    decreases at - from,
{
    if from < at {
        lemma_find_char_unique(s, c, from + 1, at);
    }
}

/// Searching the tail of a text is searching the text from that offset.
pub proof fn lemma_find_char_skip(s: Seq<char>, c: char, from: int)
    requires
        0 <= from <= s.len(),
    ensures
        find_char(s.skip(from), c, 0) == find_char(s, c, from) - from,
{
    lemma_find_char(s, c, from);
    let at = find_char(s, c, from);
    let t = s.skip(from);
    assert forall|j: int| 0 <= j < at - from implies t[j] != c by {
        assert(t[j] == s[j + from]);
    }
    lemma_find_char_unique(t, c, 0, at - from);
}

/// The characters of `s`, in order.
pub fn chars_of(s: &str) -> (v: Vec<char>)
    ensures
        v@ == s@,
{
    let mut v: Vec<char> = Vec::new();
    for c in it: s.chars()
        invariant
            v@ == it.seq().take(it.index() as int),
            it.seq() == s@,
    {
        v.push(c);
    }
    v
}

/// Position of the first `c` in `chars` at or after `from`.
pub fn find(chars: &Vec<char>, c: char, from: usize) -> (at: usize)
    requires
        from <= chars.len(),
    ensures
        at == find_char(chars@, c, from as int),
        from <= at <= chars.len(),
{
    let mut i: usize = from;
    while i < chars.len() && chars[i] != c
        invariant
            from <= i <= chars.len(),
            find_char(chars@, c, i as int) == find_char(chars@, c, from as int),
        decreases chars.len() - i,
    {
        i = i + 1;
    }
    proof {
        lemma_find_char(chars@, c, from as int);
    }
    i
}

/// The characters `chars[from..to]` as a vector of their own.
pub fn copy_range(chars: &Vec<char>, from: usize, to: usize) -> (part: Vec<char>)
    requires
        from <= to <= chars.len(),
    ensures
        part@ == chars@.subrange(from as int, to as int),
{
    let mut part: Vec<char> = Vec::new();
    let mut k: usize = from;
    while k < to
        invariant
            from <= k <= to <= chars.len(),
            part@ == chars@.subrange(from as int, k as int),
        decreases to - k,
    {
        part.push(chars[k]);
        k = k + 1;
    }
    part
}

/// Calls `String::push` of std. Taken on trust: the call appends `c` to the
/// end of the string and changes nothing else.
#[verifier::external_body]
fn push_char(s: &mut String, c: char)
    ensures
        final(s)@ == old(s)@.push(c),
{
    s.push(c)
}

/// Appends `chars[from..to]` to `out`.
pub fn push_range(out: &mut String, chars: &Vec<char>, from: usize, to: usize)
    requires
        from <= to <= chars.len(),
    ensures
        final(out)@ == old(out)@ + chars@.subrange(from as int, to as int),
{
    let mut i: usize = from;
    while i < to
        invariant
            from <= i <= to <= chars.len(),
            out@ == old(out)@ + chars@.subrange(from as int, i as int),
        decreases to - i,
    {
        push_char(out, chars[i]);
        assert(chars@.subrange(from as int, i + 1) == chars@.subrange(from as int, i as int).push(
            chars@[i as int],
        ));
        i = i + 1;
    }
}

/// The text `chars[from..to]` as a string of its own.
pub fn text_of(chars: &Vec<char>, from: usize, to: usize) -> (r: String)
    requires
        from <= to <= chars.len(),
    ensures
        r@ == chars@.subrange(from as int, to as int),
{
    let mut r = String::new();
    push_range(&mut r, chars, from, to);
    r
}

/// The lines of a text: the pieces between its newline characters. A text
/// without a newline is one line, and a text that ends in a newline ends in
/// an empty line.
pub open spec fn lines_of(text: Seq<char>) -> Seq<Seq<char>>
    decreases text.len(),
{
    let end = find_char(text, '\n', 0);
    if end < 0 || end >= text.len() {
        seq![text]
    } else {
        seq![text.take(end)] + lines_of(text.skip(end + 1))
    }
}

/// Lines put together again, with a newline between each two.
pub open spec fn joined(lines: Seq<Seq<char>>) -> Seq<char>
    decreases lines.len(),
{
    if lines.len() == 0 {
        Seq::empty()
    } else if lines.len() == 1 {
        lines[0]
    } else {
        lines[0] + seq!['\n'] + joined(lines.drop_first())
    }
}

/// A text has at least one line, no line holds a newline, and the lines
/// put together again are the text.
pub proof fn lemma_lines_of(text: Seq<char>)
    ensures
        lines_of(text).len() >= 1,
        forall|i: int, j: int|
            0 <= i < lines_of(text).len() && 0 <= j < lines_of(text)[i].len() ==> lines_of(
                text,
            )[i][j] != '\n',
        joined(lines_of(text)) == text,
    decreases text.len(),
{
    lemma_find_char(text, '\n', 0);
    let end = find_char(text, '\n', 0);
    if end < text.len() {
        let rest = lines_of(text.skip(end + 1));
        lemma_lines_of(text.skip(end + 1));
        assert forall|i: int, j: int|
            0 <= i < lines_of(text).len() && 0 <= j < lines_of(text)[i].len() implies lines_of(
            text,
        )[i][j] != '\n' by {
            if i > 0 {
                assert(lines_of(text)[i] == rest[i - 1]);
            }
        }
        assert(lines_of(text).drop_first() == rest);
        assert(text.take(end) + seq!['\n'] + text.skip(end + 1) == text);
    }
}

/// Cuts a text into its lines.
pub fn split_lines(text: &str) -> (lines: Vec<Vec<char>>)
    ensures
        lines.len() == lines_of(text@).len(),
        forall|i: int| 0 <= i < lines.len() ==> (#[trigger] lines[i])@ == lines_of(text@)[i],
{
    let chars = chars_of(text);
    let mut lines: Vec<Vec<char>> = Vec::new();
    let mut start: usize = 0;
    let ghost mut done: Seq<Seq<char>> = Seq::empty();
    proof {
        assert(chars@.skip(0) == chars@);
        assert(done + lines_of(chars@) == lines_of(chars@));
    }
    loop
        invariant_except_break
            start <= chars.len(),
            chars@ == text@,
            lines.len() == done.len(),
            forall|i: int| 0 <= i < lines.len() ==> (#[trigger] lines[i])@ == done[i],
            done + lines_of(chars@.skip(start as int)) == lines_of(chars@),
        ensures
            chars@ == text@,
            lines.len() == lines_of(chars@).len(),
            forall|i: int| 0 <= i < lines.len() ==> (#[trigger] lines[i])@ == lines_of(chars@)[i],
        decreases chars.len() - start,
    {
        let end = find(&chars, '\n', start);
        let line = copy_range(&chars, start, end);
        proof {
            let tail = chars@.skip(start as int);
            lemma_find_char_skip(chars@, '\n', start as int);
            assert(tail.take(end - start) == chars@.subrange(start as int, end as int));
            if end < chars.len() {
                assert(tail.skip(end - start + 1) == chars@.skip(end + 1));
                assert(done.push(line@) + lines_of(chars@.skip(end + 1)) == done + lines_of(tail));
            } else {
                assert(tail.take(end - start) == tail);
                assert(done.push(line@) == done + lines_of(tail));
            }
            done = done.push(line@);
        }
        lines.push(line);
        if end >= chars.len() {
            break ;
        }
        start = end + 1;
    }
    lines
}

/// The character that stands for the digit `d`.
pub open spec fn digit(d: nat) -> char {
    ((48 + d) as u8) as char
}

/// A natural number in decimal, without leading zeros.
pub open spec fn decimal(n: nat) -> Seq<char>
    decreases n,
{
    if n < 10 {
        seq![digit(n)]
    } else {
        decimal(n / 10).push(digit(n % 10))
    }
}

/// An integer in decimal, with a minus sign in front of a negative one.
pub open spec fn signed_decimal(n: int) -> Seq<char> {
    if n < 0 {
        seq!['-'] + decimal((-n) as nat)
    } else {
        decimal(n as nat)
    }
}

/// Appends `n` in decimal to `out`.
pub fn push_decimal(out: &mut String, n: u64)
    ensures
        final(out)@ == old(out)@ + decimal(n as nat),
    decreases n,
{
    if n >= 10 {
        push_decimal(out, n / 10);
    }
    let d: u8 = (n % 10) as u8;
    push_char(out, (48u8 + d) as char);
    assert(out@ == old(out)@ + decimal(n as nat));
}

/// Appends `n` in decimal to `out`, with its sign where it is negative.
pub fn push_signed_decimal(out: &mut String, n: i64)
    ensures
        final(out)@ == old(out)@ + signed_decimal(n as int),
{
    if n < 0 {
        push_char(out, '-');
        let magnitude: u64 = if n == i64::MIN {
            9223372036854775808u64
        } else {
            (-n) as u64
        };
        push_decimal(out, magnitude);
        assert(out@ == old(out)@ + signed_decimal(n as int));
    } else {
        push_decimal(out, n as u64);
    }
}

} // verus!
