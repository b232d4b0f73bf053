//! Text: decimal numbers, white space, and SQL put on one line.

use vstd::prelude::*;

verus! {

/// `String::push`: appends one character to the end of the string.
pub assume_specification[ std::string::String::push ](s: &mut std::string::String, c: char)
    ensures
        final(s)@ == old(s)@.push(c),
;

/// A text, if there is one.
pub open spec fn text_of(text: Option<String>) -> Option<Seq<char>> {
    match text {
        Some(text) => Some(text@),
        None => None,
    }
}

/// The character of a decimal digit.
pub open spec fn digit(d: nat) -> char {
    (48 + d) as char
}

/// A number written in decimal, without leading zeros.
pub open spec fn decimal(n: nat) -> Seq<char>
    decreases n,
{
    if n < 10 {
        seq![digit(n)]
    } else {
        decimal(n / 10).push(digit(n % 10))
    }
}

/// Writes a number in decimal.
pub fn decimal_text(n: u64) -> (text: String)
    ensures
        text@ == decimal(n as nat),
    decreases n,
{
    let mut text = if n < 10 {
        String::new()
    } else {
        decimal_text(n / 10)
    };
    text.push((48u8 + (n % 10) as u8) as char);
    text
}

/// How a time of so many nanoseconds is written: what `format!` makes with `{:?}` of the
/// `std::time::Duration` of that length.
pub uninterp spec fn shown_nanos(nanos: u64) -> Seq<char>;

/// The `Debug` text of what `std::time::Duration::from_nanos` makes, which depends on the number
/// alone. Which text that is, is not said.
#[verifier::external_body]
pub(crate) fn nanos_text(nanos: u64) -> (text: String)
    ensures
        text@ == shown_nanos(nanos),
{
    format!("{:?}", std::time::Duration::from_nanos(nanos))
}

/// The `White_Space` property of Unicode.
pub open spec fn is_white_space(c: char) -> bool {
    ||| '\u{9}' <= c <= '\u{d}'
    ||| c == ' '
    ||| c == '\u{85}'
    ||| c == '\u{a0}'
    ||| c == '\u{1680}'
    ||| '\u{2000}' <= c <= '\u{200a}'
    ||| c == '\u{2028}'
    ||| c == '\u{2029}'
    ||| c == '\u{202f}'
    ||| c == '\u{205f}'
    ||| c == '\u{3000}'
}

/// Whether a character is white space.
pub fn white_space(c: char) -> (b: bool)
    ensures
        b == is_white_space(c),
{
    ('\u{9}' <= c && c <= '\u{d}') || c == ' ' || c == '\u{85}' || c == '\u{a0}' || c == '\u{1680}'
        || ('\u{2000}' <= c && c <= '\u{200a}') || c == '\u{2028}' || c == '\u{2029}' || c
        == '\u{202f}' || c == '\u{205f}' || c == '\u{3000}'
}

/// A text without the white space it starts with.
pub open spec fn trim_start(s: Seq<char>) -> Seq<char>
    decreases s.len(),
{
    if s.len() > 0 && is_white_space(s[0]) {
        trim_start(s.drop_first())
    } else {
        s
    }
}

/// A text without the white space it ends with.
pub open spec fn trim_end(s: Seq<char>) -> Seq<char>
    decreases s.len(),
{
    if s.len() > 0 && is_white_space(s.last()) {
        trim_end(s.drop_last())
    } else {
        s
    }
}

/// A text without the white space around it.
pub open spec fn trim(s: Seq<char>) -> Seq<char> {
    trim_end(trim_start(s))
}

/// The number of characters before the first line feed: all of them if there is none.
pub open spec fn line_len(s: Seq<char>) -> nat
    decreases s.len(),
{
    if s.len() == 0 || s[0] == '\n' {
        0
    } else {
        1 + line_len(s.drop_first())
    }
}

/// The lines of a text. A line feed ends a line, the last line need not have one, and the end of
/// a text whose last character is a line feed starts no further line.
pub open spec fn lines(s: Seq<char>) -> Seq<Seq<char>>
    decreases s.len(),
{
    let n = line_len(s) as int;
    if s.len() == 0 {
        Seq::empty()
    } else if n >= s.len() {
        seq![s]
    } else {
        seq![s.take(n)] + lines(s.skip(n + 1))
    }
}

/// Texts joined with one space between each two.
pub open spec fn join_spaced(parts: Seq<Seq<char>>) -> Seq<char>
    decreases parts.len(),
{
    if parts.len() == 0 {
        Seq::empty()
    } else if parts.len() == 1 {
        parts[0]
    } else {
        join_spaced(parts.drop_last()).push(' ') + parts.last()
    }
}

/// The lines of a text, each without the white space around it.
pub open spec fn trimmed_lines(s: Seq<char>) -> Seq<Seq<char>> {
    lines(s).map_values(|line: Seq<char>| trim(line))
}

/// A statement on one line: its lines, trimmed, with one space between each two. A carriage
/// return before a line feed is white space, and goes with the rest of it.
pub open spec fn one_line(sql: Seq<char>) -> Seq<char> {
    join_spaced(trimmed_lines(sql))
}

proof fn lemma_line_len(s: Seq<char>, n: nat)
    requires
        n <= s.len(),
        forall|k: int| 0 <= k < n ==> s[k] != '\n',
        n < s.len() ==> s[n as int] == '\n',
    ensures
        line_len(s) == n,
    decreases n,
{
    if n > 0 {
        lemma_line_len(s.drop_first(), (n - 1) as nat);
    }
}

proof fn lemma_line_len_bound(s: Seq<char>)
    ensures
        line_len(s) <= s.len(),
        forall|k: int| 0 <= k < line_len(s) ==> s[k] != '\n',
    decreases s.len(),
{
    if s.len() > 0 && s[0] != '\n' {
        lemma_line_len_bound(s.drop_first());
        assert forall|k: int| 0 <= k < line_len(s) implies s[k] != '\n' by {
            if k > 0 {
                assert(s[k] == s.drop_first()[k - 1]);
            }
        }
    }
}

/// Dropping white space from the front of a range of a text, then from its back, trims it.
proof fn lemma_trim(s: Seq<char>, a: int, b: int)
    requires
        0 <= a <= b <= s.len(),
        forall|k: int| 0 <= k < a ==> is_white_space(#[trigger] s[k]),
        a < s.len() ==> !is_white_space(s[a]) || b == a,
        forall|k: int| b <= k < s.len() ==> is_white_space(#[trigger] s[k]),
        a < b ==> !is_white_space(s[b - 1]),
    ensures
        trim(s) == s.subrange(a, b),
    decreases s.len(),
{
    if s.len() > 0 && is_white_space(s[0]) {
        let t = s.drop_first();
        if a > 0 {
            lemma_trim(t, a - 1, b - 1);
            assert(t.subrange(a - 1, b - 1) =~= s.subrange(a, b));
        } else {
            // Everything is white space.
            lemma_trim(t, 0, 0);
            assert(t.subrange(0, 0) =~= s.subrange(a, b));
        }
    } else {
        lemma_trim_end(s, b);
        assert(a == 0);
        assert(s.take(b) =~= s.subrange(a, b));
    }
}

proof fn lemma_trim_end(s: Seq<char>, b: int)
    requires
        0 <= b <= s.len(),
        forall|k: int| b <= k < s.len() ==> is_white_space(#[trigger] s[k]),
        b > 0 ==> !is_white_space(s[b - 1]),
    ensures
        trim_end(s) == s.take(b),
    decreases s.len(),
{
    if b < s.len() {
        lemma_trim_end(s.drop_last(), b);
        assert(s.drop_last().take(b) =~= s.take(b));
    } else {
        assert(s.take(b) =~= s);
    }
}

/// Puts a statement on one line.
pub fn to_one_line(sql: &str) -> (text: String)
    ensures
        text@ == one_line(sql@),
{
    let mut chars: Vec<char> = Vec::new();
    for c in iter: sql.chars()
        invariant
            iter.seq() == sql@,
            chars@ == sql@.take(iter.index() as int),
    {
        chars.push(c);
    }
    let ghost s = chars@;
    assert(s == sql@);

    let mut text = String::new();
    let mut start: usize = 0;
    let ghost mut done: Seq<Seq<char>> = Seq::empty();
    assert(s.skip(0) =~= s);
    assert(done + trimmed_lines(s) =~= trimmed_lines(s));
    while start < chars.len()
        invariant
            chars@ == s,
            start <= s.len(),
            done + trimmed_lines(s.skip(start as int)) == trimmed_lines(s),
            text@ == join_spaced(done),
            start == 0 <==> done.len() == 0,
        decreases s.len() - start,
    {
        let first = start == 0;
        let mut end: usize = start;
        while end < chars.len() && chars[end] != '\n'
            invariant
                chars@ == s,
                start <= end <= s.len(),
                forall|k: int| start <= k < end ==> s[k] != '\n',
            decreases s.len() - end,
        {
            end += 1;
        }
        let mut a: usize = start;
        while a < end && white_space(chars[a])
            invariant
                chars@ == s,
                start <= a <= end <= s.len(),
                forall|k: int| start <= k < a ==> is_white_space(#[trigger] s[k]),
            decreases end - a,
        {
            a += 1;
        }
        let mut b: usize = end;
        while b > a && white_space(chars[b - 1])
            invariant
                chars@ == s,
                a <= b <= end <= s.len(),
                forall|k: int| b <= k < end ==> is_white_space(#[trigger] s[k]),
            decreases b,
        {
            b -= 1;
        }
        let ghost rest = s.skip(start as int);
        let ghost line = s.subrange(start as int, end as int);
        let ghost kept = s.subrange(a as int, b as int);
        proof {
            lemma_line_len(rest, (end - start) as nat);
            lemma_trim(line, a - start, b - start);
            assert(line.subrange(a - start, b - start) =~= kept);
        }
        if !first {
            text.push(' ');
        }
        let ghost before = text@;
        let mut i: usize = a;
        while i < b
            invariant
                chars@ == s,
                a <= i <= b <= s.len(),
                text@ == before + s.subrange(a as int, i as int),
            decreases b - i,
        {
            text.push(chars[i]);
            i += 1;
        }
        let next: usize = if end < chars.len() {
            end + 1
        } else {
            end
        };
        proof {
            let more = done.push(kept);
            assert(more.drop_last() =~= done);
            assert(text@ =~= join_spaced(more));
            let tail = s.skip(next as int);
            let f = |l: Seq<char>| trim(l);
            if end < s.len() {
                assert(rest.take(end - start) =~= line);
                assert(rest.skip(end - start + 1) =~= tail);
                assert(lines(rest) == seq![line] + lines(tail));
            } else {
                assert(rest =~= line);
                assert(tail.len() == 0);
                assert(lines(rest) =~= seq![line] + lines(tail));
            }
            assert(lines(rest).map_values(f) =~= seq![kept] + lines(tail).map_values(f));
            assert(more + trimmed_lines(tail) =~= done + trimmed_lines(rest));
            done = more;
        }
        start = next;
    }
    proof {
        assert(trimmed_lines(s.skip(start as int)) =~= Seq::empty());
        assert(done =~= trimmed_lines(s));
    }
    text
}

proof fn lemma_trim_is_part(s: Seq<char>)
    ensures
        forall|k: int| 0 <= k < trim(s).len() ==> s.contains(#[trigger] trim(s)[k]),
    decreases s.len(),
{
    lemma_trim_start_is_part(s);
    lemma_trim_end_is_part(trim_start(s));
    let t = trim_start(s);
    assert forall|k: int| 0 <= k < trim(s).len() implies s.contains(#[trigger] trim(s)[k]) by {
        assert(t.contains(trim_end(t)[k]));
        let m = choose|m: int| 0 <= m < t.len() && t[m] == trim_end(t)[k];
        assert(s.contains(t[m]));
    }
}

proof fn lemma_trim_start_is_part(s: Seq<char>)
    ensures
        forall|k: int| 0 <= k < trim_start(s).len() ==> s.contains(#[trigger] trim_start(s)[k]),
    decreases s.len(),
{
    if s.len() > 0 && is_white_space(s[0]) {
        let t = s.drop_first();
        lemma_trim_start_is_part(t);
        assert forall|k: int| 0 <= k < trim_start(s).len() implies s.contains(
            #[trigger] trim_start(s)[k],
        ) by {
            assert(t.contains(trim_start(t)[k]));
            let m = choose|m: int| 0 <= m < t.len() && t[m] == trim_start(t)[k];
            assert(s[m + 1] == t[m]);
        }
    }
}

proof fn lemma_trim_end_is_part(s: Seq<char>)
    ensures
        forall|k: int| 0 <= k < trim_end(s).len() ==> s.contains(#[trigger] trim_end(s)[k]),
    decreases s.len(),
{
    if s.len() > 0 && is_white_space(s.last()) {
        let t = s.drop_last();
        lemma_trim_end_is_part(t);
        assert forall|k: int| 0 <= k < trim_end(s).len() implies s.contains(
            #[trigger] trim_end(s)[k],
        ) by {
            assert(t.contains(trim_end(t)[k]));
            let m = choose|m: int| 0 <= m < t.len() && t[m] == trim_end(t)[k];
            assert(s[m] == t[m]);
        }
    }
}

proof fn lemma_lines_have_no_line_feed(s: Seq<char>)
    ensures
        forall|i: int| 0 <= i < lines(s).len() ==> !(#[trigger] lines(s)[i]).contains('\n'),
    decreases s.len(),
{
    lemma_line_len_bound(s);
    let n = line_len(s) as int;
    if s.len() > 0 && n < s.len() {
        lemma_lines_have_no_line_feed(s.skip(n + 1));
        assert forall|i: int| 0 <= i < lines(s).len() implies !(#[trigger] lines(
            s,
        )[i]).contains('\n') by {
            if i > 0 {
                assert(lines(s)[i] == lines(s.skip(n + 1))[i - 1]);
            }
        }
    }
}

proof fn lemma_join_keeps_line_feeds_out(parts: Seq<Seq<char>>)
    requires
        forall|i: int| 0 <= i < parts.len() ==> !(#[trigger] parts[i]).contains('\n'),
    ensures
        !join_spaced(parts).contains('\n'),
    decreases parts.len(),
{
    if parts.len() > 1 {
        let rest = parts.drop_last();
        assert forall|i: int| 0 <= i < rest.len() implies !(#[trigger] rest[i]).contains('\n') by {
            assert(rest[i] == parts[i]);
        }
        lemma_join_keeps_line_feeds_out(rest);
        let joined = join_spaced(parts);
        let head = join_spaced(rest);
        let last = parts.last();
        assert(!parts[parts.len() - 1].contains('\n'));
        assert forall|k: int| 0 <= k < joined.len() implies joined[k] != '\n' by {
            if k < head.len() {
                assert(joined[k] == head[k]);
                assert(head.contains(head[k]));
            } else if k > head.len() {
                assert(joined[k] == last[k - head.len() - 1]);
                assert(last.contains(last[k - head.len() - 1]));
            }
        }
    } else if parts.len() == 1 {
        assert(!parts[0].contains('\n'));
    }
}

/// A statement put on one line holds no line feed, whatever statement it was.
pub proof fn law_one_line_has_no_line_feed(sql: Seq<char>)
    ensures
        !one_line(sql).contains('\n'),
{
    lemma_lines_have_no_line_feed(sql);
    let parts = trimmed_lines(sql);
    assert forall|i: int| 0 <= i < parts.len() implies !(#[trigger] parts[i]).contains('\n') by {
        let line = lines(sql)[i];
        lemma_trim_is_part(line);
        if parts[i].contains('\n') {
            let k = choose|k: int| 0 <= k < parts[i].len() && parts[i][k] == '\n';
            assert(line.contains(trim(line)[k]));
        }
    }
    lemma_join_keeps_line_feeds_out(parts);
}

/// What a text of decimal digits says.
pub open spec fn decimal_value(text: Seq<char>) -> int
    decreases text.len(),
{
    if text.len() == 0 {
        0
    } else {
        decimal_value(text.drop_last()) * 10 + (text.last() as int - '0' as int)
    }
}

/// A number can be read back from its decimal text, which holds digits only, at least one, and
/// starts with no zero that could be left out.
pub proof fn law_decimal_reads_back(n: nat)
    ensures
        decimal_value(decimal(n)) == n,
        decimal(n).len() > 0,
        forall|i: int| 0 <= i < decimal(n).len() ==> '0' <= #[trigger] decimal(n)[i] <= '9',
        decimal(n).len() > 1 ==> decimal(n)[0] != '0',
    decreases n,
{
    if n < 10 {
        assert(decimal(n).drop_last() =~= Seq::<char>::empty());
        assert(decimal_value(decimal(n).drop_last()) == 0);
    } else {
        let rest = decimal(n / 10);
        law_decimal_reads_back(n / 10);
        assert(decimal(n).drop_last() =~= rest);
        assert forall|i: int| 0 <= i < decimal(n).len() implies '0' <= #[trigger] decimal(n)[i]
            <= '9' by {
            if i < rest.len() {
                assert(decimal(n)[i] == rest[i]);
            }
        }
        assert(decimal(n)[0] == rest[0]);
        if rest.len() == 1 {
            assert(rest.drop_last() =~= Seq::<char>::empty());
            assert(decimal_value(rest.drop_last()) == 0);
        }
    }
}

proof fn lemma_first_kept(s: Seq<char>) -> (a: int)
    ensures
        0 <= a <= s.len(),
        forall|k: int| 0 <= k < a ==> is_white_space(#[trigger] s[k]),
        a < s.len() ==> !is_white_space(s[a]),
    decreases s.len(),
{
    if s.len() > 0 && is_white_space(s[0]) {
        let t = s.drop_first();
        let a = lemma_first_kept(t) + 1;
        assert forall|k: int| 0 <= k < a implies is_white_space(#[trigger] s[k]) by {
            if k > 0 {
                assert(s[k] == t[k - 1]);
            }
        }
        a
    } else {
        0
    }
}

proof fn lemma_last_kept(s: Seq<char>, a: int) -> (b: int)
    requires
        0 <= a <= s.len(),
        a < s.len() ==> !is_white_space(s[a]),
    ensures
        a <= b <= s.len(),
        forall|k: int| b <= k < s.len() ==> is_white_space(#[trigger] s[k]),
        a < b ==> !is_white_space(s[b - 1]),
        a < s.len() ==> a < b,
    decreases s.len() - a,
{
    if a < s.len() && is_white_space(s.last()) {
        let t = s.drop_last();
        let b = lemma_last_kept(t, a);
        assert forall|k: int| b <= k < s.len() implies is_white_space(#[trigger] s[k]) by {
            if k < t.len() {
                assert(s[k] == t[k]);
            }
        }
        b
    } else {
        s.len() as int
    }
}

/// Trimming takes white space from both ends, as much as there is, and nothing else: what is left
/// stands in the text, has only white space before and after it there, and neither starts nor ends
/// with white space.
pub proof fn law_trimming_takes_white_space_alone(s: Seq<char>)
    ensures
        exists|a: int|
            {
                &&& 0 <= a <= s.len() - trim(s).len()
                &&& #[trigger] s.subrange(a, a + trim(s).len()) == trim(s)
                &&& forall|k: int|
                    0 <= k < s.len() && !(a <= k < a + trim(s).len()) ==> is_white_space(
                        #[trigger] s[k],
                    )
            },
        trim(s).len() > 0 ==> !is_white_space(trim(s)[0]) && !is_white_space(trim(s).last()),
{
    let a = lemma_first_kept(s);
    let b = lemma_last_kept(s, a);
    lemma_trim(s, a, b);
    assert(s.subrange(a, a + trim(s).len()) == trim(s));
}

proof fn lemma_join_first(first: Seq<char>, rest: Seq<Seq<char>>)
    requires
        rest.len() > 0,
    ensures
        join_spaced(seq![first] + rest) == first.push(' ') + join_spaced(rest),
    decreases rest.len(),
{
    let all = seq![first] + rest;
    if rest.len() == 1 {
        assert(all.drop_last() =~= seq![first]);
        assert(join_spaced(all.drop_last()) == first);
    } else {
        lemma_join_first(first, rest.drop_last());
        assert(all.drop_last() =~= seq![first] + rest.drop_last());
        assert(all.last() == rest.last());
        assert(join_spaced(all) =~= first.push(' ') + join_spaced(rest));
    }
}

/// A statement is put on one line by its lines: one line alone is trimmed, whether or not a line
/// feed ends it, and a line before others is trimmed and goes before them with one space between.
pub proof fn law_lines_are_trimmed_and_joined(line: Seq<char>, rest: Seq<char>)
    requires
        !line.contains('\n'),
    ensures
        one_line(line) == trim(line),
        one_line(line.push('\n')) == trim(line),
        rest.len() > 0 ==> one_line(line.push('\n') + rest) == trim(line).push(' ') + one_line(rest),
{
    let n = line.len() as int;
    let f = |l: Seq<char>| trim(l);
    assert forall|k: int| 0 <= k < n implies line[k] != '\n' by {
        assert(line.contains(line[k]));
    }
    // One line alone.
    lemma_line_len(line, n as nat);
    if n == 0 {
        assert(trimmed_lines(line) =~= Seq::empty());
        assert(trim(line) =~= Seq::<char>::empty());
    } else {
        assert(trimmed_lines(line) =~= seq![trim(line)]);
    }
    // The same with a line feed.
    let ended = line.push('\n');
    lemma_line_len(ended, n as nat);
    assert(ended.take(n) =~= line);
    assert(lines(ended.skip(n + 1)) =~= Seq::empty());
    assert(trimmed_lines(ended) =~= seq![trim(line)]);
    // A line before others.
    if rest.len() > 0 {
        let all = ended + rest;
        lemma_line_len(all, n as nat);
        assert(all.take(n) =~= line);
        assert(all.skip(n + 1) =~= rest);
        assert(lines(all) == seq![line] + lines(rest));
        assert(trimmed_lines(all) =~= seq![trim(line)] + trimmed_lines(rest));
        lemma_line_len_bound(rest);
        assert(lines(rest).len() > 0);
        lemma_join_first(trim(line), trimmed_lines(rest));
    }
}

/// A text that is there is seen as what it holds, and only one that is not there as none.
pub proof fn law_text_is_seen(text: Option<String>)
    ensures
        text is None <==> text_of(text) is None,
        text matches Some(text) ==> text_of(Some(text)) == Some(text@),
{
}

} // verus!
