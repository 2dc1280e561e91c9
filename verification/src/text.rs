//! Text: white space, trimming, flattening to one line.

use vstd::prelude::*;
use vstd::string::*;

verus! {

broadcast use vstd::string::group_string_axioms;

/// `String::push`: the character is appended, nothing else changes.
pub assume_specification[ String::push ](text: &mut String, c: char)
    ensures
        final(text)@ == old(text)@.push(c),
;

/// The characters with the Unicode `White_Space` property.
pub open spec fn white_space(c: char) -> bool {
    let n = c as u32;
    ||| 0x9 <= n <= 0xd
    ||| n == 0x20
    ||| n == 0x85
    ||| n == 0xa0
    ||| n == 0x1680
    ||| 0x2000 <= n <= 0x200a
    ||| n == 0x2028
    ||| n == 0x2029
    ||| n == 0x202f
    ||| n == 0x205f
    ||| n == 0x3000
}

/// Whether `c` is white space.
pub fn is_white_space(c: char) -> (r: bool)
    ensures
        r == white_space(c),
{
    let n: u32 = c as u32;
    (0x9 <= n && n <= 0xd) || n == 0x20 || n == 0x85 || n == 0xa0 || n == 0x1680 || (0x2000 <= n
        && n <= 0x200a) || n == 0x2028 || n == 0x2029 || n == 0x202f || n == 0x205f || n == 0x3000
}

/// A line break: what a shell would take for Enter.
pub open spec fn line_break(c: char) -> bool {
    c == '\n' || c == '\r'
}

/// `s` without its leading white space.
pub open spec fn trimmed_start(s: Seq<char>) -> Seq<char>
    decreases s.len(),
{
    if s.len() > 0 && white_space(s[0]) {
        trimmed_start(s.drop_first())
    } else {
        s
    }
}

/// `s` without its trailing white space.
pub open spec fn trimmed_end(s: Seq<char>) -> Seq<char>
    decreases s.len(),
{
    if s.len() > 0 && white_space(s.last()) {
        trimmed_end(s.drop_last())
    } else {
        s
    }
}

/// `s` without white space at either end.
pub open spec fn trimmed(s: Seq<char>) -> Seq<char> {
    trimmed_end(trimmed_start(s))
}

/// `s` neither begins nor ends with white space.
pub open spec fn is_trim(s: Seq<char>) -> bool {
    s.len() > 0 ==> !white_space(s[0]) && !white_space(s.last())
}

/// No character of `s` is a line break.
pub open spec fn one_line(s: Seq<char>) -> bool {
    forall|i: int| 0 <= i < s.len() ==> !line_break(#[trigger] s[i])
}

/// Trimming the start drops a white prefix and nothing else.
pub proof fn lemma_trimmed_start(s: Seq<char>)
    ensures
        trimmed_start(s).len() <= s.len(),
        trimmed_start(s) == s.skip(s.len() - trimmed_start(s).len()),
        trimmed_start(s).len() > 0 ==> !white_space(trimmed_start(s)[0]),
        forall|i: int|
            0 <= i < s.len() - trimmed_start(s).len() ==> white_space(#[trigger] s[i]),
    decreases s.len(),
{
    if s.len() > 0 && white_space(s[0]) {
        let t = s.drop_first();
        lemma_trimmed_start(t);
        assert forall|i: int| 0 <= i < s.len() - trimmed_start(s).len() implies white_space(
            #[trigger] s[i],
        ) by {
            if i > 0 {
                assert(s[i] == t[i - 1]);
            }
        }
        assert(t.skip(t.len() - trimmed_start(t).len()) =~= s.skip(
            s.len() - trimmed_start(s).len(),
        ));
    } else {
        assert(s.skip(0) =~= s);
    }
}

/// Trimming the end drops a white suffix and nothing else.
pub proof fn lemma_trimmed_end(s: Seq<char>)
    ensures
        trimmed_end(s).len() <= s.len(),
        trimmed_end(s) == s.take(trimmed_end(s).len() as int),
        trimmed_end(s).len() > 0 ==> !white_space(trimmed_end(s).last()),
        forall|i: int| trimmed_end(s).len() <= i < s.len() ==> white_space(#[trigger] s[i]),
    decreases s.len(),
{
    if s.len() > 0 && white_space(s.last()) {
        let t = s.drop_last();
        lemma_trimmed_end(t);
        assert forall|i: int| trimmed_end(s).len() <= i < s.len() implies white_space(
            #[trigger] s[i],
        ) by {
            if i < t.len() {
                assert(s[i] == t[i]);
            }
        }
        assert(t.take(trimmed_end(t).len() as int) =~= s.take(trimmed_end(s).len() as int));
    } else {
        assert(s.take(s.len() as int) =~= s);
    }
}

/// Trimming yields a stretch of `s` that neither begins nor ends with white
/// space.
pub proof fn lemma_trimmed(s: Seq<char>)
    ensures
        is_trim(trimmed(s)),
        trimmed(s).len() <= s.len(),
        exists|i: int|
            0 <= i <= s.len() - trimmed(s).len() && trimmed(s) == #[trigger] s.subrange(
                i,
                i + trimmed(s).len(),
            ),
{
    lemma_trimmed_start(s);
    let t = trimmed_start(s);
    lemma_trimmed_end(t);
    let i = s.len() - t.len();
    assert(trimmed(s) =~= s.subrange(i, i + trimmed(s).len()));
    if trimmed(s).len() > 0 {
        assert(trimmed(s)[0] == t[0]);
    }
}

/// Text that is already trim is left alone by trimming.
pub proof fn lemma_trimmed_fixed(s: Seq<char>)
    requires
        is_trim(s),
    ensures
        trimmed(s) == s,
{
}

/// The characters of `text`.
pub fn chars_of(text: &str) -> (chars: Vec<char>)
    ensures
        chars@ == text@,
{
    let mut chars: Vec<char> = Vec::new();
    for c in it: text.chars()
        invariant
            it.seq() == text@,
            chars@ == it.seq().take(it.index()),
    {
        chars.push(c);
    }
    assert(text@.take(text@.len() as int) =~= text@);
    chars
}

/// The text made of `chars`.
pub fn text_of(chars: &[char]) -> (text: String)
    ensures
        text@ == chars@,
{
    let mut text = String::new();
    for i in 0..chars.len()
        invariant
            text@ == chars@.take(i as int),
    {
        text.push(chars[i]);
        assert(chars@.take(i + 1) =~= chars@.take(i as int).push(chars@[i as int]));
    }
    assert(chars@.take(chars@.len() as int) =~= chars@);
    text
}

/// What the texts say.
pub open spec fn texts(list: Seq<String>) -> Seq<Seq<char>> {
    list.map_values(|text: String| text@)
}

/// What the text says, if there is one.
pub open spec fn maybe(text: Option<String>) -> Option<Seq<char>> {
    match text {
        Some(text) => Some(text@),
        None => None,
    }
}

/// A text of its own that says `text`.
pub fn to_text(text: &str) -> (out: String)
    ensures
        out@ == text@,
{
    text.to_owned()
}

/// Whether the two texts are the same.
pub fn same_text(a: &str, b: &str) -> (same: bool)
    ensures
        same == (a@ == b@),
{
    a.to_owned() == b.to_owned()
}

/// How a text is shown in quotes, with what cannot be seen in it escaped.
pub uninterp spec fn debug_form(text: Seq<char>) -> Seq<char>;

/// The `Debug` form of a `str`, as `std` formats it: a function of the text.
#[verifier::external_body]
pub(crate) fn quoted(text: &str) -> (shown: String)
    ensures
        shown@ == debug_form(text@),
{
    format!("{:?}", text)
}

/// The bounds of what trimming leaves of `chars`.
fn trim_bounds(chars: &[char]) -> (bounds: (usize, usize))
    ensures
        bounds.0 <= bounds.1 <= chars@.len(),
        trimmed(chars@) == chars@.subrange(bounds.0 as int, bounds.1 as int),
{
    let mut first: usize = 0;
    assert(chars@.skip(0) =~= chars@);
    while first < chars.len() && is_white_space(chars[first])
        invariant
            first <= chars@.len(),
            trimmed_start(chars@) == trimmed_start(chars@.skip(first as int)),
        decreases chars.len() - first,
    {
        assert(chars@.skip(first as int).drop_first() =~= chars@.skip(first + 1));
        first = first + 1;
    }
    let ghost rest = chars@.skip(first as int);
    assert(trimmed_start(chars@) == rest);
    let mut last: usize = chars.len();
    assert(rest =~= chars@.subrange(first as int, last as int));
    while first < last && is_white_space(chars[last - 1])
        invariant
            first <= last <= chars@.len(),
            trimmed_end(rest) == trimmed_end(chars@.subrange(first as int, last as int)),
        decreases last - first,
    {
        assert(chars@.subrange(first as int, last as int).drop_last() =~= chars@.subrange(
            first as int,
            last - 1,
        ));
        last = last - 1;
    }
    (first, last)
}

/// `chars` without white space at either end, as text.
pub fn trim_chars(chars: &[char]) -> (text: String)
    ensures
        text@ == trimmed(chars@),
{
    let (first, last) = trim_bounds(chars);
    text_of(vstd::slice::slice_subrange(chars, first, last))
}

/// `text` without white space at either end.
pub fn trim(text: &str) -> (out: String)
    ensures
        out@ == trimmed(text@),
{
    let chars = chars_of(text);
    trim_chars(chars.as_slice())
}

/// `text` without white space at its end.
pub fn trim_end(text: &str) -> (out: String)
    ensures
        out@ == trimmed_end(text@),
{
    let chars = chars_of(text);
    let mut last: usize = chars.len();
    assert(chars@.take(last as int) =~= chars@);
    while 0 < last && is_white_space(chars[last - 1])
        invariant
            last <= chars@.len(),
            trimmed_end(chars@) == trimmed_end(chars@.take(last as int)),
        decreases last,
    {
        assert(chars@.take(last as int).drop_last() =~= chars@.take(last - 1));
        last = last - 1;
    }
    let kept = vstd::slice::slice_subrange(chars.as_slice(), 0, last);
    assert(kept@ =~= chars@.take(last as int));
    text_of(kept)
}

/// `parts` with `between` between each two of them.
pub open spec fn joined(parts: Seq<Seq<char>>, between: Seq<char>) -> Seq<char>
    decreases parts.len(),
{
    if parts.len() == 0 {
        Seq::empty()
    } else if parts.len() == 1 {
        parts[0]
    } else {
        joined(parts.drop_last(), between) + between + parts.last()
    }
}

/// `s` cut at every line break; always at least one piece.
pub open spec fn lines(s: Seq<char>) -> Seq<Seq<char>>
    decreases s.len(),
{
    if s.len() == 0 {
        seq![Seq::empty()]
    } else {
        let before = lines(s.drop_last());
        if line_break(s.last()) {
            before.push(Seq::empty())
        } else {
            before.drop_last().push(before.last().push(s.last()))
        }
    }
}

/// The pieces of `parts` that trimming leaves something of, trimmed.
pub open spec fn trimmed_parts(parts: Seq<Seq<char>>) -> Seq<Seq<char>>
    decreases parts.len(),
{
    if parts.len() == 0 {
        Seq::empty()
    } else {
        let before = trimmed_parts(parts.drop_last());
        let last = trimmed(parts.last());
        if last.len() == 0 {
            before
        } else {
            before.push(last)
        }
    }
}

/// One line: the lines of `s`, each trimmed, the empty ones left out, joined
/// by single spaces.
pub open spec fn sanitized(s: Seq<char>) -> Seq<char> {
    joined(trimmed_parts(lines(s)), seq![' '])
}

/// A piece as it goes into the one line: something, trim, without line breaks.
spec fn word(part: Seq<char>) -> bool {
    part.len() > 0 && is_trim(part) && one_line(part)
}

/// Every piece that trimming keeps holds something, is trim, and has no line
/// break where the piece it came from had none.
proof fn lemma_trimmed_parts(parts: Seq<Seq<char>>)
    requires
        forall|i: int| 0 <= i < parts.len() ==> one_line(#[trigger] parts[i]),
    ensures
        forall|i: int|
            0 <= i < trimmed_parts(parts).len() ==> word(#[trigger] trimmed_parts(parts)[i]),
    decreases parts.len(),
{
    if parts.len() > 0 {
        lemma_trimmed_parts(parts.drop_last());
        lemma_trimmed(parts.last());
        assert(one_line(parts[parts.len() - 1]));
        let last = trimmed(parts.last());
        let i = choose|i: int|
            0 <= i <= parts.last().len() - last.len() && last == #[trigger] parts.last().subrange(
                i,
                i + last.len(),
            );
        assert forall|j: int| 0 <= j < last.len() implies !line_break(#[trigger] last[j]) by {
            assert(last[j] == parts.last()[i + j]);
        }
        let before = trimmed_parts(parts.drop_last());
        assert forall|j: int| 0 <= j < trimmed_parts(parts).len() implies word(
            #[trigger] trimmed_parts(parts)[j],
        ) by {
            if j < before.len() {
                assert(trimmed_parts(parts)[j] == before[j]);
            }
        }
    }
}

/// Cutting at the line breaks leaves none in a piece.
proof fn lemma_lines(s: Seq<char>)
    ensures
        lines(s).len() > 0,
        forall|i: int| 0 <= i < lines(s).len() ==> one_line(#[trigger] lines(s)[i]),
    decreases s.len(),
{
    if s.len() > 0 {
        lemma_lines(s.drop_last());
        let before = lines(s.drop_last());
        assert(one_line(before[before.len() - 1]));
    }
}

/// Trim one-line pieces, joined by spaces, are trim and one line; nothing comes
/// out only where nothing went in.
proof fn lemma_joined(parts: Seq<Seq<char>>)
    requires
        forall|i: int| 0 <= i < parts.len() ==> word(#[trigger] parts[i]),
    ensures
        is_trim(joined(parts, seq![' '])),
        one_line(joined(parts, seq![' '])),
        joined(parts, seq![' ']).len() == 0 <==> parts.len() == 0,
    decreases parts.len(),
{
    if parts.len() > 1 {
        let before = parts.drop_last();
        lemma_joined(before);
        let head = joined(before, seq![' ']);
        let all = head + seq![' '] + parts.last();
        assert(parts[parts.len() - 1] == parts.last());
        assert(all[0] == head[0]);
        assert(all.last() == parts.last().last());
        assert forall|i: int| 0 <= i < all.len() implies !line_break(#[trigger] all[i]) by {
            if i < head.len() {
                assert(all[i] == head[i]);
            } else if i > head.len() {
                assert(all[i] == parts.last()[i - head.len() - 1]);
            }
        }
    } else if parts.len() == 1 {
        assert(parts[0].len() > 0);
    }
}

/// What `sanitize` yields holds no line break, so pasting it never presses
/// Enter; it neither begins nor ends with white space.
pub proof fn sanitized_is_one_trim_line(s: Seq<char>)
    ensures
        one_line(sanitized(s)),
        is_trim(sanitized(s)),
{
    lemma_lines(s);
    lemma_trimmed_parts(lines(s));
    lemma_joined(trimmed_parts(lines(s)));
}

/// A text without line breaks is its own only line.
proof fn lemma_lines_of_one_line(s: Seq<char>)
    requires
        one_line(s),
    ensures
        lines(s) == seq![s],
    decreases s.len(),
{
    if s.len() > 0 {
        let t = s.drop_last();
        assert forall|i: int| 0 <= i < t.len() implies !line_break(#[trigger] t[i]) by {
            assert(t[i] == s[i]);
        }
        lemma_lines_of_one_line(t);
        assert(!line_break(s[s.len() - 1]));
        assert(t.push(s.last()) =~= s);
        assert(seq![t].drop_last().push(t.push(s.last())) =~= seq![s]);
    } else {
        assert(s =~= Seq::empty());
    }
}

/// One trim line passes through `sanitize` unchanged.
pub proof fn sanitized_keeps_one_trim_line(s: Seq<char>)
    requires
        one_line(s),
        is_trim(s),
    ensures
        sanitized(s) == s,
{
    lemma_lines_of_one_line(s);
    lemma_trimmed_fixed(s);
    assert(seq![s].drop_last() =~= Seq::<Seq<char>>::empty());
    assert(trimmed_parts(seq![s].drop_last()) =~= Seq::<Seq<char>>::empty());
    if s.len() == 0 {
        assert(trimmed_parts(seq![s]) =~= Seq::<Seq<char>>::empty());
        assert(s =~= Seq::empty());
    } else {
        assert(trimmed_parts(seq![s]) =~= seq![s]);
    }
}

/// Sanitizing twice is sanitizing once.
pub proof fn sanitized_is_idempotent(s: Seq<char>)
    ensures
        sanitized(sanitized(s)) == sanitized(s),
{
    sanitized_is_one_trim_line(s);
    sanitized_keeps_one_trim_line(sanitized(s));
}

/// Appends the trimmed `line` to `out`, after a space where `out` holds
/// something already.
fn append_line(out: &mut String, line: &[char], Ghost(before): Ghost<Seq<Seq<char>>>)
    requires
        old(out)@ == joined(trimmed_parts(before), seq![' ']),
        forall|i: int| 0 <= i < before.len() ==> one_line(#[trigger] before[i]),
    ensures
        final(out)@ == joined(trimmed_parts(before.push(line@)), seq![' ']),
{
    let kept = trim_chars(line);
    proof {
        lemma_trimmed_parts(before);
        lemma_joined(trimmed_parts(before));
        assert(before.push(line@).drop_last() =~= before);
    }
    if !kept.as_str().is_empty() {
        let ghost parts = trimmed_parts(before);
        assert(parts.push(kept@).drop_last() =~= parts);
        if !out.as_str().is_empty() {
            out.push(' ');
            assert(out@ == old(out)@ + seq![' ']);
        }
        out.append(kept.as_str());
        assert(out@ =~= joined(parts.push(kept@), seq![' ']));
    }
}

/// Flattens the transcription into a single line.
///
/// A newline on the clipboard becomes an Enter keypress when pasted into a
/// shell or a CLI agent, which would run the command or send the prompt before
/// the user has read it. TextSpill never does that.
pub fn sanitize(text: &str) -> (out: String)
    ensures
        out@ == sanitized(text@),
        one_line(out@),
        is_trim(out@),
{
    let chars = chars_of(text);
    let mut out = String::new();
    let mut line: Vec<char> = Vec::new();
    let ghost mut before: Seq<Seq<char>> = Seq::empty();
    proof {
        assert(chars@.take(0) =~= Seq::empty());
        assert(before.push(line@) =~= seq![Seq::empty()]);
    }
    for i in 0..chars.len()
        invariant
            lines(chars@.take(i as int)) == before.push(line@),
            out@ == joined(trimmed_parts(before), seq![' ']),
    {
        let c = chars[i];
        let ghost seen = chars@.take(i + 1);
        proof {
            assert(seen.drop_last() =~= chars@.take(i as int));
            lemma_lines(chars@.take(i as int));
            assert forall|j: int| 0 <= j < before.len() implies one_line(
                #[trigger] before[j],
            ) by {
                assert(before.push(line@)[j] == before[j]);
            }
        }
        if c == '\n' || c == '\r' {
            append_line(&mut out, line.as_slice(), Ghost(before));
            proof {
                before = before.push(line@);
            }
            line = Vec::new();
            assert(line@ =~= Seq::<char>::empty());
        } else {
            assert(before.push(line@).drop_last() =~= before);
            line.push(c);
        }
    }
    proof {
        assert(chars@.take(chars@.len() as int) =~= chars@);
        lemma_lines(chars@);
        assert forall|j: int| 0 <= j < before.len() implies one_line(#[trigger] before[j]) by {
            assert(before.push(line@)[j] == before[j]);
        }
        sanitized_is_one_trim_line(text@);
    }
    append_line(&mut out, line.as_slice(), Ghost(before));
    out
}

/// Every character of `s` is white space.
pub open spec fn all_white(s: Seq<char>) -> bool {
    forall|i: int| 0 <= i < s.len() ==> white_space(#[trigger] s[i])
}

/// The characters of `s` that are not white space, in order.
pub open spec fn visible(s: Seq<char>) -> Seq<char>
    decreases s.len(),
{
    if s.len() == 0 {
        Seq::empty()
    } else if white_space(s.last()) {
        visible(s.drop_last())
    } else {
        visible(s.drop_last()).push(s.last())
    }
}

/// White space parts words and lines and nothing else: line breaks are white space, and
/// of what can be seen nothing is, in ASCII, Latin or any script up to the Ogham mark.
pub proof fn only_gaps_are_white_space(c: char)
    ensures
        line_break(c) || c == ' ' || c == '\t' ==> white_space(c),
        white_space(c) ==> c as u32 <= 0x20 || c as u32 == 0x85 || c as u32 == 0xa0 || 0x1680
            <= c as u32 <= 0x3000,
        0x200b <= c as u32 <= 0x2027 || 0x2030 <= c as u32 <= 0x205e || 0x2060 <= c as u32 <= 0x2fff
            || 0x1681 <= c as u32 <= 0x1fff ==> !white_space(c),
{
}

/// Trimming takes off the white space around a text and nothing else.
pub proof fn trimming_takes_off_the_padding(before: Seq<char>, s: Seq<char>, after: Seq<char>)
    requires
        all_white(before),
        all_white(after),
        is_trim(s),
    ensures
        trimmed(before + s + after) == s,
        s.len() > 0 ==> trimmed_end(before + s + after) == before + s,
        trimmed_end(after).len() == 0,
    decreases before.len() + after.len(),
{
    let all = before + s + after;
    lemma_white_trims_to_nothing(after);
    if s.len() == 0 {
        assert forall|i: int| 0 <= i < all.len() implies white_space(#[trigger] all[i]) by {
            if i < before.len() {
                assert(all[i] == before[i]);
            } else {
                assert(all[i] == after[i - before.len()]);
            }
        }
        lemma_white_trims_to_nothing(all);
        assert(s =~= Seq::empty());
    } else {
        lemma_trimmed_start(all);
        let n = before.len() as int;
        let rest = trimmed_start(all);
        let k = all.len() - rest.len();
        assert(!white_space(all[n])) by {
            assert(all[n] == s[0]);
        }
        if k < n {
            assert(rest[0] == all[k]);
            assert(all[k] == before[k]);
        }
        if k > n {
            assert(white_space(all[n]));
        }
        assert(rest =~= s + after);
        lemma_padded_end(s, after);
        assert(all =~= (before + s) + after);
        lemma_padded_end(before + s, after);
    }
}

proof fn lemma_white_trims_to_nothing(s: Seq<char>)
    requires
        all_white(s),
    ensures
        trimmed_start(s).len() == 0,
        trimmed_end(s).len() == 0,
        trimmed(s).len() == 0,
{
    lemma_trimmed_start(s);
    lemma_trimmed_end(s);
    if trimmed_start(s).len() > 0 {
        assert(trimmed_start(s)[0] == s[s.len() - trimmed_start(s).len()]);
    }
    if trimmed_end(s).len() > 0 {
        assert(trimmed_end(s).last() == s[trimmed_end(s).len() - 1]);
    }
}

proof fn lemma_padded_end(s: Seq<char>, after: Seq<char>)
    requires
        s.len() > 0,
        !white_space(s.last()),
        all_white(after),
    ensures
        trimmed_end(s + after) == s,
    decreases after.len(),
{
    if after.len() > 0 {
        assert((s + after).drop_last() =~= s + after.drop_last());
        assert((s + after).last() == after.last());
        lemma_padded_end(s, after.drop_last());
    } else {
        assert(s + after =~= s);
    }
}

proof fn lemma_visible_concat(a: Seq<char>, b: Seq<char>)
    ensures
        visible(a + b) == visible(a) + visible(b),
    decreases b.len(),
{
    if b.len() > 0 {
        assert((a + b).drop_last() =~= a + b.drop_last());
        lemma_visible_concat(a, b.drop_last());
        assert(visible(a + b) =~= visible(a) + visible(b));
    } else {
        assert(a + b =~= a);
        assert(visible(a) + visible(b) =~= visible(a));
    }
}

proof fn lemma_visible_white(s: Seq<char>)
    requires
        all_white(s),
    ensures
        visible(s).len() == 0,
    decreases s.len(),
{
    if s.len() > 0 {
        assert(white_space(s[s.len() - 1]));
        assert forall|i: int| 0 <= i < s.drop_last().len() implies white_space(
            #[trigger] s.drop_last()[i],
        ) by {
            assert(s.drop_last()[i] == s[i]);
        }
        lemma_visible_white(s.drop_last());
    }
}

/// Trimming loses nothing that can be seen.
pub proof fn trimming_loses_only_white_space(s: Seq<char>)
    ensures
        visible(trimmed(s)) == visible(s),
{
    lemma_trimmed_start(s);
    let t = trimmed_start(s);
    let head = s.take(s.len() - t.len());
    assert forall|i: int| 0 <= i < head.len() implies white_space(#[trigger] head[i]) by {
        assert(head[i] == s[i]);
    }
    lemma_visible_white(head);
    assert(head + t =~= s);
    lemma_visible_concat(head, t);
    lemma_trimmed_end(t);
    let kept = trimmed_end(t);
    let tail = t.skip(kept.len() as int);
    assert forall|i: int| 0 <= i < tail.len() implies white_space(#[trigger] tail[i]) by {
        assert(tail[i] == t[kept.len() + i]);
    }
    lemma_visible_white(tail);
    assert(kept + tail =~= t);
    lemma_visible_concat(kept, tail);
    assert(visible(trimmed(s)) =~= visible(s));
}

/// What can be seen of all the parts, in order.
spec fn visible_parts(parts: Seq<Seq<char>>) -> Seq<char>
    decreases parts.len(),
{
    if parts.len() == 0 {
        Seq::empty()
    } else {
        visible_parts(parts.drop_last()) + visible(parts.last())
    }
}

proof fn lemma_visible_lines(s: Seq<char>)
    ensures
        lines(s).len() > 0,
        visible_parts(lines(s)) == visible(s),
    decreases s.len(),
{
    if s.len() > 0 {
        lemma_visible_lines(s.drop_last());
        let before = lines(s.drop_last());
        if line_break(s.last()) {
            assert(lines(s).drop_last() =~= before);
            assert(lines(s).last() =~= Seq::empty());
            assert(visible_parts(lines(s)) =~= visible(s));
        } else {
            let grown = before.last().push(s.last());
            assert(lines(s).drop_last() =~= before.drop_last());
            assert(grown.drop_last() =~= before.last());
            assert(visible_parts(lines(s)) =~= visible(s));
        }
    } else {
        assert(lines(s).drop_last() =~= Seq::<Seq<char>>::empty());
        assert(visible_parts(lines(s).drop_last()) =~= Seq::empty());
        assert(lines(s).last().len() == 0);
        assert(visible_parts(lines(s)) =~= visible(s));
    }
}

proof fn lemma_visible_joined(parts: Seq<Seq<char>>)
    ensures
        visible(joined(trimmed_parts(parts), seq![' '])) == visible_parts(parts),
    decreases parts.len(),
{
    if parts.len() > 0 {
        lemma_visible_joined(parts.drop_last());
        trimming_loses_only_white_space(parts.last());
        let before = trimmed_parts(parts.drop_last());
        let last = trimmed(parts.last());
        if last.len() > 0 {
            let all = before.push(last);
            assert(all.drop_last() =~= before);
            if before.len() > 0 {
                let head = joined(before, seq![' ']);
                lemma_visible_concat(head + seq![' '], last);
                lemma_visible_concat(head, seq![' ']);
                lemma_visible_white(seq![' ']);
                assert(visible(head + seq![' ']) =~= visible(head));
            } else {
                assert(joined(before, seq![' ']) =~= Seq::empty());
            }
            assert(visible(joined(all, seq![' '])) =~= visible_parts(parts));
        } else {
            assert(last =~= Seq::empty());
            assert(visible(parts.last()) =~= Seq::empty());
            assert(visible_parts(parts) =~= visible_parts(parts.drop_last()));
        }
    } else {
        assert(visible(joined(trimmed_parts(parts), seq![' '])) =~= Seq::empty());
    }
}

/// Flattening loses nothing but white space: what can be seen of a transcription is what
/// can be seen of its one line, in the same order.
pub proof fn sanitizing_loses_only_white_space(s: Seq<char>)
    ensures
        visible(sanitized(s)) == visible(s),
        visible(s).len() == 0 <==> sanitized(s).len() == 0,
{
    lemma_visible_lines(s);
    lemma_visible_joined(lines(s));
    sanitized_is_one_trim_line(s);
    let t = sanitized(s);
    if t.len() > 0 {
        assert(visible(t) == visible(t.drop_last()).push(t.last()));
    }
}

/// A text of one line is flattened by trimming it: nothing inside it is touched.
pub proof fn one_line_is_only_trimmed(s: Seq<char>)
    requires
        one_line(s),
    ensures
        sanitized(s) == trimmed(s),
{
    lemma_lines_of_one_line(s);
    assert(seq![s].drop_last() =~= Seq::<Seq<char>>::empty());
    assert(trimmed_parts(seq![s].drop_last()) =~= Seq::<Seq<char>>::empty());
    if trimmed(s).len() == 0 {
        assert(trimmed_parts(seq![s]) =~= Seq::<Seq<char>>::empty());
        assert(trimmed(s) =~= Seq::empty());
    } else {
        assert(trimmed_parts(seq![s]) =~= seq![trimmed(s)]);
    }
}

proof fn lemma_lines_concat(a: Seq<char>, c: char, b: Seq<char>)
    requires
        line_break(c),
    ensures
        lines(b).len() > 0,
        lines(a.push(c) + b) == lines(a) + lines(b),
    decreases b.len(),
{
    if b.len() == 0 {
        assert(a.push(c) + b =~= a.push(c));
        assert(a.push(c).drop_last() =~= a);
        assert(lines(a.push(c)) =~= lines(a) + lines(b));
    } else {
        let s = a.push(c) + b;
        assert(s.drop_last() =~= a.push(c) + b.drop_last());
        lemma_lines_concat(a, c, b.drop_last());
        let before = lines(b.drop_last());
        let all = lines(s.drop_last());
        assert(all == lines(a) + before);
        assert(all.last() == before.last());
        assert(all.drop_last() =~= lines(a) + before.drop_last());
        assert(lines(s) =~= lines(a) + lines(b));
    }
}

proof fn lemma_trimmed_parts_concat(a: Seq<Seq<char>>, b: Seq<Seq<char>>)
    ensures
        trimmed_parts(a + b) == trimmed_parts(a) + trimmed_parts(b),
    decreases b.len(),
{
    if b.len() == 0 {
        assert(a + b =~= a);
        assert(trimmed_parts(a) + trimmed_parts(b) =~= trimmed_parts(a));
    } else {
        assert((a + b).drop_last() =~= a + b.drop_last());
        lemma_trimmed_parts_concat(a, b.drop_last());
        assert(trimmed_parts(a + b) =~= trimmed_parts(a) + trimmed_parts(b));
    }
}

proof fn lemma_joined_concat(a: Seq<Seq<char>>, b: Seq<Seq<char>>)
    requires
        a.len() > 0,
        b.len() > 0,
    ensures
        joined(a + b, seq![' ']) == joined(a, seq![' ']) + seq![' '] + joined(b, seq![' ']),
    decreases b.len(),
{
    assert((a + b).last() == b.last());
    if b.len() == 1 {
        assert((a + b).drop_last() =~= a);
    } else {
        assert((a + b).drop_last() =~= a + b.drop_last());
        lemma_joined_concat(a, b.drop_last());
        assert(joined(a + b, seq![' ']) =~= joined(a, seq![' ']) + seq![' '] + joined(
            b,
            seq![' '],
        ));
    }
}

/// Flattening puts what stands before a line break and what stands behind it on one
/// line, each flattened, with a single space between them where both hold something.
pub proof fn a_line_break_becomes_a_space(a: Seq<char>, c: char, b: Seq<char>)
    requires
        c == '\n' || c == '\r',
    ensures
        sanitized(a.push(c) + b) == if sanitized(a).len() == 0 {
            sanitized(b)
        } else if sanitized(b).len() == 0 {
            sanitized(a)
        } else {
            sanitized(a).push(' ') + sanitized(b)
        },
{
    lemma_lines_concat(a, c, b);
    lemma_trimmed_parts_concat(lines(a), lines(b));
    let (p, q) = (trimmed_parts(lines(a)), trimmed_parts(lines(b)));
    lemma_lines(a);
    lemma_lines(b);
    lemma_trimmed_parts(lines(a));
    lemma_trimmed_parts(lines(b));
    lemma_joined(p);
    lemma_joined(q);
    if p.len() == 0 {
        assert(p + q =~= q);
    } else if q.len() == 0 {
        assert(p + q =~= p);
    } else {
        lemma_joined_concat(p, q);
        assert(sanitized(a) + seq![' '] =~= sanitized(a).push(' '));
    }
}

/// A text that is there says what it says, and one that is not says nothing; a list of
/// texts says what each of them says, in order.
pub proof fn texts_say_what_they_say(text: String, list: Seq<String>, i: int)
    ensures
        maybe(Some(text)) == Some(text@),
        maybe(None) is None,
        texts(list).len() == list.len(),
        0 <= i < list.len() ==> texts(list)[i] == list[i]@,
{
}

}
