//! Text primitives: whitespace, wrapping, truncation and padding, all stated
//! over sequences of characters.

use vstd::prelude::*;

verus! {

/// `String::push` appends the given character to the end of the string.
pub assume_specification[ String::push ](s: &mut String, c: char)
    ensures
        final(s)@ == old(s)@.push(c),
;

/// The line break that wrapping inserts.
pub const LINE_BREAK: char = '\n';

/// The characters of `s`, in order.
pub fn chars_of(s: &str) -> (out: Vec<char>)
    ensures
        out@ == s@,
{
    let mut out: Vec<char> = Vec::new();
    for c in it: s.chars()
        invariant
            out@ == it.seq().take(it.index() as int),
            it.seq() == s@,
    {
        out.push(c);
    }
    out
}

/// The string made of the characters of `v`, in order.
pub fn string_of(v: &Vec<char>) -> (out: String)
    ensures
        out@ == v@,
{
    let mut out = String::new();
    let mut i: usize = 0;
    while i < v.len()
        invariant
            i <= v.len(),
            out@ == v@.take(i as int),
        decreases v.len() - i,
    {
        out.push(v[i]);
        i += 1;
    }
    assert(v@.take(v.len() as int) == v@);
    out
}

/// Whether `c` has the Unicode property White_Space.
pub open spec fn is_whitespace(c: char) -> bool {
    let u = c as u32;
    ||| 0x09 <= u <= 0x0D
    ||| u == 0x20
    ||| u == 0x85
    ||| u == 0xA0
    ||| u == 0x1680
    ||| 0x2000 <= u <= 0x200A
    ||| u == 0x2028
    ||| u == 0x2029
    ||| u == 0x202F
    ||| u == 0x205F
    ||| u == 0x3000
}

/// Decides `is_whitespace`.
pub fn char_is_whitespace(c: char) -> (b: bool)
    ensures
        b == is_whitespace(c),
{
    let u: u32 = c as u32;
    (0x09 <= u && u <= 0x0D) || u == 0x20 || u == 0x85 || u == 0xA0 || u == 0x1680 || (0x2000 <= u
        && u <= 0x200A) || u == 0x2028 || u == 0x2029 || u == 0x202F || u == 0x205F || u == 0x3000
}

/// The number of characters that stand on the current line before position
/// `n` of `s`, when a line ends at the first whitespace that comes once
/// `interval` characters stand on it.
pub open spec fn column_at(s: Seq<char>, interval: nat, n: int) -> nat
    decreases n,
{
    if n <= 0 {
        0
    } else {
        let before = column_at(s, interval, n - 1);
        if before >= interval && is_whitespace(s[n - 1]) {
            0
        } else {
            before + 1
        }
    }
}

/// Whether wrapping replaces the character at position `i` of `s` by a line
/// break: it is whitespace, and at least `interval` characters stand on its
/// line before it.
pub open spec fn breaks_at(s: Seq<char>, interval: nat, i: int) -> bool {
    column_at(s, interval, i) >= interval && is_whitespace(s[i])
}

/// `s` wrapped at `interval`: every character stays in its place but the
/// whitespace at which a line ends, which becomes a line break.
pub open spec fn wrapped(s: Seq<char>, interval: nat) -> Seq<char> {
    Seq::new(
        s.len(),
        |i: int|
            if breaks_at(s, interval, i) {
                LINE_BREAK
            } else {
                s[i]
            },
    )
}

/// Wraps `s` at `interval` characters: a line break takes the place of the
/// first whitespace at or after the threshold on each line, so no word is
/// split.
pub fn insert_newlines(s: &str, interval: usize) -> (out: String)
    ensures
        out@ == wrapped(s@, interval as nat),
{
    let chars = chars_of(s);
    let mut out = String::new();
    let mut count: usize = 0;
    let mut i: usize = 0;
    while i < chars.len()
        invariant
            i <= chars.len(),
            chars@ == s@,
            count == column_at(s@, interval as nat, i as int),
            count <= i,
            out@ == wrapped(s@, interval as nat).take(i as int),
        decreases chars.len() - i,
    {
        let ch = chars[i];
        if count >= interval && char_is_whitespace(ch) {
            out.push(LINE_BREAK);
            count = 0;
        } else {
            out.push(ch);
            count += 1;
        }
        i += 1;
        assert(wrapped(s@, interval as nat).take(i as int) == wrapped(s@, interval as nat).take(
            i - 1,
        ).push(wrapped(s@, interval as nat)[i - 1]));
    }
    assert(wrapped(s@, interval as nat).take(i as int) == wrapped(s@, interval as nat));
    out
}

/// The marker that ends a description cut to a single line.
pub const ELLIPSIS: char = '\u{2026}';

/// The width, in characters, at which descriptions are wrapped and cut.
pub const DESCRIPTION_WIDTH: usize = 60;

/// `s` cut to a single line of at most `width` characters: its first `width`
/// characters, with the marker in the place of the last of them where `s`
/// reaches the width.
pub open spec fn truncated(s: Seq<char>, width: nat) -> Seq<char> {
    Seq::new(
        if s.len() < width {
            s.len()
        } else {
            width
        },
        |i: int|
            if i == width - 1 {
                ELLIPSIS
            } else {
                s[i]
            },
    )
}

/// Cuts `s` to a single line of at most `width` characters, ending in the
/// marker where `s` reaches the width.
pub fn truncate_line(s: &str, width: usize) -> (out: String)
    ensures
        out@ == truncated(s@, width as nat),
{
    let chars = chars_of(s);
    let mut out = String::new();
    let mut i: usize = 0;
    while i < chars.len() && i < width
        invariant
            i <= chars.len(),
            i <= width,
            chars@ == s@,
            out@ == truncated(s@, width as nat).take(i as int),
        decreases chars.len() - i,
    {
        if i == width - 1 {
            out.push(ELLIPSIS);
        } else {
            out.push(chars[i]);
        }
        i += 1;
        assert(truncated(s@, width as nat).take(i as int) == truncated(s@, width as nat).take(
            i - 1,
        ).push(truncated(s@, width as nat)[i - 1]));
    }
    assert(truncated(s@, width as nat).take(i as int) == truncated(s@, width as nat));
    out
}

/// `s` followed by as many spaces as it lacks to be `width` characters long.
pub open spec fn padded(s: Seq<char>, width: nat) -> Seq<char> {
    if s.len() >= width {
        s
    } else {
        s + Seq::new((width - s.len()) as nat, |i: int| ' ')
    }
}

/// Pads `s` on the right with spaces to `width` characters; a longer `s`
/// stays as it is.
pub fn pad_right(s: &str, width: usize) -> (out: String)
    ensures
        out@ == padded(s@, width as nat),
{
    let mut v = chars_of(s);
    while v.len() < width
        invariant
            s@.len() <= v.len(),
            v.len() <= width || v.len() == s@.len(),
            v@ == s@ + Seq::new((v.len() - s@.len()) as nat, |i: int| ' '),
        decreases width - v.len(),
    {
        v.push(' ');
    }
    proof {
        if s@.len() >= width {
            assert(v@ =~= s@);
        }
    }
    string_of(&v)
}

/// The decimal digit that stands for `d`.
pub open spec fn digit(d: nat) -> char {
    if d == 0 {
        '0'
    } else if d == 1 {
        '1'
    } else if d == 2 {
        '2'
    } else if d == 3 {
        '3'
    } else if d == 4 {
        '4'
    } else if d == 5 {
        '5'
    } else if d == 6 {
        '6'
    } else if d == 7 {
        '7'
    } else if d == 8 {
        '8'
    } else {
        '9'
    }
}

/// `n` written in decimal, without leading zeros.
pub open spec fn decimal(n: nat) -> Seq<char>
    decreases n,
{
    if n < 10 {
        seq![digit(n)]
    } else {
        decimal(n / 10).push(digit(n % 10))
    }
}

fn digit_char(d: u64) -> (c: char)
    requires
        d < 10,
    ensures
        c == digit(d as nat),
{
    if d == 0 {
        '0'
    } else if d == 1 {
        '1'
    } else if d == 2 {
        '2'
    } else if d == 3 {
        '3'
    } else if d == 4 {
        '4'
    } else if d == 5 {
        '5'
    } else if d == 6 {
        '6'
    } else if d == 7 {
        '7'
    } else if d == 8 {
        '8'
    } else {
        '9'
    }
}

/// Writes `n` in decimal.
pub fn decimal_text(n: u64) -> (out: String)
    ensures
        out@ == decimal(n as nat),
{
    // The digits from the last to the first.
    let mut low: Vec<char> = Vec::new();
    let mut rest: u64 = n;
    while rest >= 10
        invariant
            decimal(n as nat) == decimal(rest as nat) + low@.reverse(),
        decreases rest,
    {
        let c = digit_char(rest % 10);
        proof {
            let tail = low@.reverse();
            assert(decimal(rest as nat) == decimal((rest / 10) as nat).push(c));
            assert(low@.push(c).reverse() == seq![c] + tail);
            assert(decimal((rest / 10) as nat).push(c) + tail == decimal((rest / 10) as nat) + (
            seq![c] + tail));
        }
        low.push(c);
        rest = rest / 10;
    }
    let mut out = String::new();
    out.push(digit_char(rest));
    let mut k: usize = low.len();
    while k > 0
        invariant
            k <= low.len(),
            rest < 10,
            out@ == seq![digit(rest as nat)] + low@.reverse().take(low.len() - k),
        decreases k,
    {
        k -= 1;
        out.push(low[k]);
        assert(low@.reverse().take(low.len() - k) == low@.reverse().take(low.len() - k - 1).push(
            low@[k as int],
        ));
    }
    assert(low@.reverse().take(low.len() as int) == low@.reverse());
    out
}

/// The text that an optional string holds, if any.
pub open spec fn text_of(o: Option<String>) -> Option<Seq<char>> {
    match o {
        Some(s) => Some(s@),
        None => None,
    }
}

/// The text of `t`, or the empty text where there is none.
pub open spec fn text_or_empty(t: Option<Seq<char>>) -> Seq<char> {
    match t {
        Some(s) => s,
        None => Seq::empty(),
    }
}

/// Hands out the text that `t` holds, or an empty string where it holds none.
pub fn optional_to_string_or_empty(t: Option<String>) -> (out: String)
    ensures
        out@ == text_or_empty(text_of(t)),
{
    match t {
        Some(s) => s,
        None => String::new(),
    }
}

/// The column never runs ahead of the position.
pub proof fn lemma_column_bounded(s: Seq<char>, interval: nat, n: int)
    ensures
        column_at(s, interval, n) <= n || n < 0,
    decreases n,
{
    if n > 0 {
        lemma_column_bounded(s, interval, n - 1);
    }
}

/// Over a stretch without a break the column grows by one with each
/// character.
pub proof fn lemma_column_run(s: Seq<char>, interval: nat, k: int, j: int)
    requires
        0 <= k <= j,
        forall|i: int| k <= i < j ==> !breaks_at(s, interval, i),
    ensures
        column_at(s, interval, j) == column_at(s, interval, k) + (j - k),
    decreases j - k,
{
    if k < j {
        lemma_column_run(s, interval, k, j - 1);
        assert(!breaks_at(s, interval, j - 1));
    }
}

/// Wrapping splits no word: the wrapped text is as long as the text, and it
/// differs from it only where a whitespace character became a line break.
pub proof fn lemma_wrapped_splits_no_word(s: Seq<char>, interval: nat)
    ensures
        wrapped(s, interval).len() == s.len(),
        forall|i: int|
            0 <= i < s.len() ==> #[trigger] wrapped(s, interval)[i] == s[i] || (is_whitespace(s[i])
                && wrapped(s, interval)[i] == LINE_BREAK),
{
}

/// Wrapping breaks a line at its first chance: where `interval` characters
/// follow one another and no line ends among them, the character after them
/// is a line break in the wrapped text, or part of a word.
pub proof fn lemma_wrapped_breaks_at_first_whitespace(s: Seq<char>, interval: nat, k: int)
    requires
        0 <= k,
        k + interval < s.len(),
        forall|i: int| k <= i < k + interval ==> !breaks_at(s, interval, i),
    ensures
        wrapped(s, interval)[k + interval] == LINE_BREAK || !is_whitespace(
            wrapped(s, interval)[k + interval],
        ),
{
    lemma_column_run(s, interval, k, k + interval);
}

/// Whether a whitespace character stands wherever a line of `s` reaches
/// `interval` characters, so that no word runs over the threshold.
pub open spec fn breaks_fall_on_threshold(s: Seq<char>, interval: nat) -> bool {
    forall|i: int|
        0 <= i < s.len() && #[trigger] column_at(s, interval, i) == interval ==> is_whitespace(
            s[i],
        )
}

proof fn lemma_column_within_threshold(s: Seq<char>, interval: nat, n: int)
    requires
        breaks_fall_on_threshold(s, interval),
        n <= s.len(),
    ensures
        column_at(s, interval, n) <= interval,
    decreases n,
{
    if n > 0 {
        lemma_column_within_threshold(s, interval, n - 1);
    }
}

/// Where a whitespace character stands wherever a line reaches `interval`
/// characters, no line of the wrapped text is longer than `interval`: among
/// every `interval + 1` characters that follow one another a line ends, and
/// the wrapped text holds a line break there.
pub proof fn lemma_wrapped_lines_within_interval(s: Seq<char>, interval: nat, k: int)
    requires
        breaks_fall_on_threshold(s, interval),
        0 <= k,
        k + interval < s.len(),
    ensures
        exists|j: int|
            k <= j <= k + interval && #[trigger] breaks_at(s, interval, j) && wrapped(
                s,
                interval,
            )[j] == LINE_BREAK,
{
    lemma_column_within_threshold(s, interval, k);
    let j = k + interval - column_at(s, interval, k);
    if exists|i: int| k <= i < j && breaks_at(s, interval, i) {
        let i = choose|i: int| k <= i < j && breaks_at(s, interval, i);
        assert(wrapped(s, interval)[i] == LINE_BREAK);
    } else {
        lemma_column_run(s, interval, k, j);
        assert(breaks_at(s, interval, j));
        assert(wrapped(s, interval)[j] == LINE_BREAK);
    }
}

/// Where a word runs over the threshold, a line of the wrapped text is
/// longer than `interval`: the `interval + 1` characters up to the one that
/// runs over hold no end of a line.
pub proof fn lemma_word_over_threshold_makes_long_line(s: Seq<char>, interval: nat, i: int)
    requires
        0 <= i < s.len(),
        column_at(s, interval, i) == interval,
        !is_whitespace(s[i]),
    ensures
        i - interval >= 0,
        forall|j: int| i - interval <= j <= i ==> !breaks_at(s, interval, j),
{
    lemma_column_bounded(s, interval, i);
    assert forall|j: int| i - interval <= j <= i implies !breaks_at(s, interval, j) by {
        if j < i && breaks_at(s, interval, j) {
            // The column is zero right after a break, and cannot reach
            // `interval` in fewer than `interval` characters.
            lemma_column_after(s, interval, j + 1, i);
        }
    }
}

proof fn lemma_column_after(s: Seq<char>, interval: nat, from: int, to: int)
    requires
        0 <= from <= to,
    ensures
        column_at(s, interval, to) <= column_at(s, interval, from) + (to - from),
    decreases to - from,
{
    if from < to {
        lemma_column_after(s, interval, from, to - 1);
    }
}

/// A text that reaches the width is cut to exactly `width` characters: its
/// own first `width - 1`, then the marker.
pub proof fn lemma_truncated_long(s: Seq<char>, width: nat)
    requires
        0 < width <= s.len(),
    ensures
        truncated(s, width).len() == width,
        truncated(s, width)[width - 1] == ELLIPSIS,
        truncated(s, width).take(width - 1) == s.take(width - 1),
{
    assert(truncated(s, width).take(width - 1) =~= s.take(width - 1));
}

/// A text shorter than the width is its own single line.
pub proof fn lemma_truncated_short(s: Seq<char>, width: nat)
    requires
        s.len() < width,
    ensures
        truncated(s, width) == s,
{
    assert(truncated(s, width) =~= s);
}

/// Wrapping at the width changes nothing of the single line: the first break
/// comes after what the cut keeps.
pub proof fn lemma_truncated_ignores_wrapping(s: Seq<char>, width: nat)
    ensures
        truncated(wrapped(s, width), width) == truncated(s, width),
{
    assert forall|i: int| 0 <= i < s.len() && i < width - 1 implies wrapped(s, width)[i]
        == s[i] by {
        lemma_column_bounded(s, width, i);
    }
    assert(truncated(wrapped(s, width), width) =~= truncated(s, width));
}

/// A text shorter than the interval is wrapped to itself.
pub proof fn lemma_wrapped_short(s: Seq<char>, interval: nat)
    requires
        s.len() <= interval,
    ensures
        wrapped(s, interval) == s,
{
    assert forall|i: int| 0 <= i < s.len() implies wrapped(s, interval)[i] == s[i] by {
        lemma_column_bounded(s, interval, i);
    }
    assert(wrapped(s, interval) =~= s);
}

} // verus!
