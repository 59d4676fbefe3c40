//! Text building blocks shared by the SQL the extension sends and the plans it reads.

use vstd::prelude::*;

verus! {

/// `String::push`: appends one character to the end of the string.
pub assume_specification[ String::push ](s: &mut String, c: char)
    ensures
        final(s)@ == old(s)@.push(c),
;

/// `s` with every occurrence of `quote` written twice.
pub open spec fn doubled(s: Seq<char>, quote: char) -> Seq<char>
    decreases s.len(),
{
    if s.len() == 0 {
        s
    } else if s.last() == quote {
        doubled(s.drop_last(), quote).push(quote).push(quote)
    } else {
        doubled(s.drop_last(), quote).push(s.last())
    }
}

/// `s` between two `quote` characters, the inner ones doubled.
pub open spec fn quoted(s: Seq<char>, quote: char) -> Seq<char> {
    seq![quote] + doubled(s, quote) + seq![quote]
}

/// Writes `s` between `mark`s, doubling the ones inside.
pub fn quote_with(s: &str, mark: char) -> (r: String)
    ensures
        r@ == quoted(s@, mark),
{
    let mut out = String::new();
    out.push(mark);
    assert(s@.take(0) =~= Seq::<char>::empty());
    for c in it: s.chars()
        invariant
            it.seq() == s@,
            out@ == seq![mark] + doubled(s@.take(it.index() as int), mark),
    {
        assert(s@.take(it.index() + 1).drop_last() =~= s@.take(it.index() as int));
        if c == mark {
            out.push(mark);
        }
        out.push(c);
    }
    assert(s@.take(s@.len() as int) =~= s@);
    out.push(mark);
    out
}

/// Whether two strings are the same text.
pub fn same_text(a: &str, b: &str) -> (r: bool)
    ensures
        r == (a@ == b@),
{
    let x = a.as_bytes();
    let y = b.as_bytes();
    proof {
        vstd::utf8::encode_utf8_decode_utf8(a@);
        vstd::utf8::encode_utf8_decode_utf8(b@);
    }
    if x.len() != y.len() {
        return false;
    }
    let mut i: usize = 0;
    while i < x.len()
        invariant
            x@.len() == y@.len(),
            0 <= i <= x@.len(),
            forall|j: int| 0 <= j < i ==> x@[j] == y@[j],
            x@ == vstd::utf8::encode_utf8(a@),
            y@ == vstd::utf8::encode_utf8(b@),
        decreases x@.len() - i,
    {
        if x[i] != y[i] {
            return false;
        }
        i += 1;
    }
    assert(x@ =~= y@);
    true
}

/// The characters of a string.
pub fn chars_of(s: &str) -> (r: Vec<char>)
    ensures
        r@ == s@,
{
    let mut out: Vec<char> = Vec::new();
    for c in it: s.chars()
        invariant
            it.seq() == s@,
            out@ == s@.take(it.index() as int),
    {
        assert(s@.take(it.index() + 1) =~= s@.take(it.index() as int).push(c));
        out.push(c);
    }
    assert(s@.take(s@.len() as int) =~= s@);
    out
}

/// `needle` stands in `text` at position `at`.
pub open spec fn occurs_at(text: Seq<char>, needle: Seq<char>, at: int) -> bool {
    &&& 0 <= at
    &&& at + needle.len() <= text.len()
    &&& text.subrange(at, at + needle.len()) == needle
}

/// `needle` stands somewhere in `text`.
pub open spec fn mentions(text: Seq<char>, needle: Seq<char>) -> bool {
    exists|at: int| occurs_at(text, needle, at)
}

/// `needle` is the end of `text`.
pub open spec fn ends_in(text: Seq<char>, needle: Seq<char>) -> bool {
    occurs_at(text, needle, text.len() - needle.len())
}

/// How many occurrences of `needle` a left-to-right scan from `from` meets, each search
/// starting behind the occurrence before it.
pub open spec fn occurrences(text: Seq<char>, needle: Seq<char>, from: int) -> nat
    decreases text.len() - from,
{
    if from < 0 || needle.len() == 0 || from + needle.len() > text.len() {
        0
    } else if occurs_at(text, needle, from) {
        1 + occurrences(text, needle, from + needle.len())
    } else {
        occurrences(text, needle, from + 1)
    }
}

fn found_at(text: &Vec<char>, needle: &Vec<char>, at: usize) -> (r: bool)
    requires
        at <= text@.len(),
    ensures
        r == occurs_at(text@, needle@, at as int),
{
    if needle.len() > text.len() - at {
        return false;
    }
    let mut i: usize = 0;
    while i < needle.len()
        invariant
            0 <= i <= needle@.len(),
            at + needle@.len() <= text.len(),
            forall|j: int| 0 <= j < i ==> text@[at + j] == needle@[j],
        decreases needle@.len() - i,
    {
        if text[at + i] != needle[i] {
            assert(text@.subrange(at as int, at + needle@.len())[i as int] != needle@[i as int]);
            return false;
        }
        i += 1;
    }
    assert(text@.subrange(at as int, at + needle@.len()) =~= needle@);
    true
}

/// Whether `needle` stands anywhere in `text`.
pub fn contains(text: &str, needle: &str) -> (r: bool)
    ensures
        r == mentions(text@, needle@),
{
    let t = chars_of(text);
    let n = chars_of(needle);
    let mut at: usize = 0;
    while at < t.len()
        invariant
            0 <= at <= t@.len(),
            t@ == text@,
            n@ == needle@,
            forall|k: int| 0 <= k < at ==> !occurs_at(t@, n@, k),
        decreases t@.len() - at,
    {
        if found_at(&t, &n, at) {
            return true;
        }
        at += 1;
    }
    found_at(&t, &n, at)
}

/// Whether `text` ends in `needle`.
pub fn ends_with(text: &str, needle: &str) -> (r: bool)
    ensures
        r == ends_in(text@, needle@),
{
    let t = chars_of(text);
    let n = chars_of(needle);
    if n.len() > t.len() {
        return false;
    }
    found_at(&t, &n, t.len() - n.len())
}

/// How often `needle` stands in `text`, counted left to right without overlaps. An empty `needle`
/// is not counted.
pub fn count_matches(text: &str, needle: &str) -> (r: usize)
    ensures
        r == occurrences(text@, needle@, 0),
{
    let t = chars_of(text);
    let n = chars_of(needle);
    if n.len() == 0 {
        return 0;
    }
    let mut at: usize = 0;
    let mut count: usize = 0;
    while at < t.len() && n.len() <= t.len() - at
        invariant
            0 <= at <= t@.len(),
            count <= at,
            t@ == text@,
            n@ == needle@,
            n@.len() > 0,
            count + occurrences(t@, n@, at as int) == occurrences(t@, n@, 0),
        decreases t@.len() - at,
    {
        if found_at(&t, &n, at) {
            count += 1;
            at += n.len();
        } else {
            at += 1;
        }
    }
    count
}

/// The decimal digits of `n`.
pub open spec fn decimal(n: nat) -> Seq<char>
    decreases n,
{
    if n < 10 {
        seq![digit(n)]
    } else {
        decimal(n / 10).push(digit(n % 10))
    }
}

/// The character of a single digit.
pub open spec fn digit(d: nat) -> char {
    ('0' as u32 + d as u32) as char
}

/// The decimal text of an integer, with a minus sign where it is negative.
pub open spec fn signed_decimal(n: int) -> Seq<char> {
    if n < 0 {
        seq!['-'] + decimal((-n) as nat)
    } else {
        decimal(n as nat)
    }
}

fn digit_char(d: u32) -> (c: char)
    requires
        d < 10,
    ensures
        c == digit(d as nat),
{
    if d == 0 {
        '0'
    } else if d == 1 {
        '1'
    } else if d == 2 {
        '2'
    } else if d == 3 {
        '3'
    } else if d == 4 {
        '4'
    } else if d == 5 {
        '5'
    } else if d == 6 {
        '6'
    } else if d == 7 {
        '7'
    } else if d == 8 {
        '8'
    } else {
        '9'
    }
}

/// Appends the decimal digits of `n`.
pub fn push_decimal(out: &mut String, n: u32)
    ensures
        final(out)@ == old(out)@ + decimal(n as nat),
    decreases n,
{
    if n < 10 {
        out.push(digit_char(n));
        assert(out@ =~= old(out)@ + decimal(n as nat));
    } else {
        push_decimal(out, n / 10);
        out.push(digit_char(n % 10));
        assert(out@ =~= old(out)@ + decimal(n as nat));
    }
}

/// Appends the decimal text of a signed number.
pub fn push_signed(out: &mut String, n: i16)
    ensures
        final(out)@ == old(out)@ + signed_decimal(n as int),
{
    let wide: i32 = n as i32;
    if wide < 0 {
        out.push('-');
        push_decimal(out, (-wide) as u32);
        assert(out@ =~= old(out)@ + signed_decimal(n as int));
    } else {
        push_decimal(out, wide as u32);
    }
}

// ---- laws ------------------------------------------------------------------------

/// What an SQL scanner makes of a text that was opened by `quote`, read from position `i` on: the
/// characters up to the closing mark, two marks in a row standing for one, and the position
/// behind it. Nothing where no mark closes the text.
pub open spec fn read_quoted(text: Seq<char>, quote: char, i: int) -> Option<(Seq<char>, int)>
    decreases text.len() - i,
{
    if i < 0 || i >= text.len() {
        None
    } else if text[i] != quote {
        match read_quoted(text, quote, i + 1) {
            Some((rest, end)) => Some((seq![text[i]] + rest, end)),
            None => None,
        }
    } else if i + 1 < text.len() && text[i + 1] == quote {
        match read_quoted(text, quote, i + 2) {
            Some((rest, end)) => Some((seq![quote] + rest, end)),
            None => None,
        }
    } else {
        Some((Seq::empty(), i + 1))
    }
}

proof fn lemma_doubled_front(s: Seq<char>, quote: char)
    requires
        s.len() > 0,
    ensures
        doubled(s, quote) == (if s[0] == quote {
            seq![quote, quote]
        } else {
            seq![s[0]]
        }) + doubled(s.skip(1), quote),
    decreases s.len(),
{
    if s.len() == 1 {
        assert(doubled(s.drop_last(), quote) =~= Seq::<char>::empty());
        assert(doubled(s.skip(1), quote) =~= Seq::<char>::empty());
    } else {
        lemma_doubled_front(s.drop_last(), quote);
        assert(s.drop_last().skip(1) =~= s.skip(1).drop_last());
    }
    assert(doubled(s, quote) =~= (if s[0] == quote {
        seq![quote, quote]
    } else {
        seq![s[0]]
    }) + doubled(s.skip(1), quote));
}

proof fn lemma_read_doubled(text: Seq<char>, quote: char, i: int, s: Seq<char>)
    requires
        occurs_at(text, doubled(s, quote).push(quote), i),
        ({
            let end = i + doubled(s, quote).len() + 1;
            end == text.len() || text[end] != quote
        }),
    ensures
        read_quoted(text, quote, i) == Some((s, i + doubled(s, quote).len() + 1)),
    decreases s.len(),
{
    let piece = doubled(s, quote).push(quote);
    assert forall|k: int| 0 <= k < piece.len() implies text[i + k] == #[trigger] piece[k] by {
        assert(text.subrange(i, i + piece.len())[k] == text[i + k]);
    }
    if s.len() == 0 {
        assert(piece[0] == quote);
        assert(s =~= Seq::<char>::empty());
    } else {
        lemma_doubled_front(s, quote);
        let tail = s.skip(1);
        let step: int = if s[0] == quote {
            2
        } else {
            1
        };
        let rest = doubled(tail, quote).push(quote);
        assert(text.subrange(i + step, i + step + rest.len()) =~= rest) by {
            assert forall|k: int| 0 <= k < rest.len() implies text[i + step + k]
                == #[trigger] rest[k] by {
                assert(piece[step + k] == rest[k]);
            }
        }
        lemma_read_doubled(text, quote, i + step, tail);
        assert(piece[0] == s[0]);
        if s[0] == quote {
            assert(piece[1] == quote);
        }
        assert(seq![s[0]] + tail =~= s);
    }
}

/// A quoted text reads back as the text itself, wherever it stands in a statement, as long as no
/// further quote follows it: no character of it can end it early.
pub proof fn law_quoted_reads_back(before: Seq<char>, s: Seq<char>, quote: char, after: Seq<char>)
    requires
        after.len() == 0 || after[0] != quote,
    ensures
        ({
            let text = before + quoted(s, quote) + after;
            let at = before.len() as int;
            &&& text[at] == quote
            &&& read_quoted(text, quote, at + 1) == Some((s, at + quoted(s, quote).len()))
        }),
{
    let text = before + quoted(s, quote) + after;
    let piece = doubled(s, quote).push(quote);
    let at = before.len() as int;
    assert(text.subrange(at + 1, at + 1 + piece.len()) =~= piece);
    lemma_read_doubled(text, quote, at + 1, s);
}

/// An occurrence is counted where it is met, and the count goes on behind it; where there is none,
/// none is counted.
pub proof fn law_occurrences_are_counted(text: Seq<char>, needle: Seq<char>, from: int)
    requires
        needle.len() > 0,
        0 <= from,
    ensures
        occurs_at(text, needle, from) ==> occurrences(text, needle, from) == 1 + occurrences(
            text,
            needle,
            from + needle.len(),
        ),
        !occurs_at(text, needle, from) ==> occurrences(text, needle, from) == occurrences(
            text,
            needle,
            from + 1,
        ),
        occurrences(text, needle, from) == 0 <==> forall|at: int|
            from <= at ==> !#[trigger] occurs_at(text, needle, at),
    decreases text.len() - from,
{
    if from + needle.len() <= text.len() {
        law_occurrences_are_counted(text, needle, from + 1);
        if !occurs_at(text, needle, from) && occurrences(text, needle, from) == 0 {
            assert forall|at: int| from <= at implies !#[trigger] occurs_at(text, needle, at) by {
                if at > from {
                    assert(from + 1 <= at);
                }
            }
        }
    }
}

} // verus!
