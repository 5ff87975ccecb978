//! The list of interface types that a radio supports, and the box that
//! is drawn around a rendering.

use crate::attr::Nl80211Iftype;
use crate::text::push_char;
use vstd::prelude::*;

verus! {

/// The interface types that the first `n` records of four bytes name:
/// the third byte of each record is a code, and a record whose code
/// stands for no interface type adds nothing.
pub open spec fn iftypes_in(bytes: Seq<u8>, n: nat) -> Seq<Nl80211Iftype>
    decreases n,
{
    if n == 0 {
        Seq::empty()
    } else {
        let front = iftypes_in(bytes, (n - 1) as nat);
        match Nl80211Iftype::of_code(bytes[4 * (n - 1) + 2]) {
            Some(iftype) => front.push(iftype),
            None => front,
        }
    }
}

/// The interface types that a buffer of records of four bytes names.
/// Bytes behind the last whole record are not read.
pub open spec fn iftypes_of(bytes: Seq<u8>) -> Seq<Nl80211Iftype> {
    iftypes_in(bytes, bytes.len() / 4)
}

/// `n` records name at most `n` interface types.
pub proof fn lemma_iftypes_count(bytes: Seq<u8>, n: nat)
    ensures
        iftypes_in(bytes, n).len() <= n,
    decreases n,
{
    if n > 0 {
        lemma_iftypes_count(bytes, (n - 1) as nat);
    }
}

/// Decodes the payload of the attribute that lists the supported
/// interface types.
pub fn decode_iftypes(bytes: Vec<u8>) -> (r: Vec<Nl80211Iftype>)
    ensures
        r@ == iftypes_of(bytes@),
        r@.len() <= bytes@.len() / 4,
{
    let records = bytes.len() / 4;
    let mut out: Vec<Nl80211Iftype> = Vec::new();
    let mut i: usize = 0;
    while i < records
        invariant
            i <= records == bytes@.len() / 4,
            records * 4 <= bytes@.len() <= usize::MAX,
            out@ == iftypes_in(bytes@, i as nat),
        decreases records - i,
    {
        match Nl80211Iftype::from_u8(bytes[4 * i + 2]) {
            Some(iftype) => out.push(iftype),
            None => {},
        }
        i = i + 1;
    }
    proof {
        lemma_iftypes_count(bytes@, records as nat);
    }
    out
}

/// The lines of a text: what stands between its line feeds.
pub open spec fn lines_of(s: Seq<char>) -> Seq<Seq<char>>
    decreases s.len(),
{
    if s.len() == 0 {
        seq![Seq::empty()]
    } else {
        let front = lines_of(s.drop_last());
        if s.last() == '\n' {
            front.push(Seq::empty())
        } else {
            front.update(front.len() - 1, front.last().push(s.last()))
        }
    }
}

/// The length of the longest of the first `n` lines.
pub open spec fn widest(lines: Seq<Seq<char>>, n: nat) -> nat
    decreases n,
{
    if n == 0 {
        0
    } else {
        let front = widest(lines, (n - 1) as nat);
        if lines[n - 1].len() > front {
            lines[n - 1].len()
        } else {
            front
        }
    }
}

/// `n` times the character `c`.
pub open spec fn run(c: char, n: nat) -> Seq<char> {
    Seq::new(n, |i: int| c)
}

/// One line inside a box that holds lines of up to `width` characters.
pub open spec fn boxed_row(line: Seq<char>, width: nat) -> Seq<char> {
    "┃ "@ + line + run(' ', (width - line.len()) as nat) + " ┃\n"@
}

/// The first `n` lines, each inside the box.
pub open spec fn boxed_rows(lines: Seq<Seq<char>>, width: nat, n: nat) -> Seq<char>
    decreases n,
{
    if n == 0 {
        Seq::empty()
    } else {
        boxed_rows(lines, width, (n - 1) as nat) + boxed_row(lines[n - 1], width)
    }
}

/// A text inside a box: a top border, each line between side borders and
/// padded to the longest line, and a bottom border without a line feed.
pub open spec fn boxed(s: Seq<char>) -> Seq<char> {
    let lines = lines_of(s);
    let width = widest(lines, lines.len());
    "┏"@ + run('━', width + 2) + "┓\n"@ + boxed_rows(lines, width, lines.len()) + "┗"@ + run(
        '━',
        width + 2,
    ) + "┛"@
}

/// The longest line is as long as some line and no shorter than any.
pub proof fn lemma_widest(lines: Seq<Seq<char>>, n: nat)
    requires
        n <= lines.len(),
    ensures
        forall|i: int| 0 <= i < n ==> (#[trigger] lines[i]).len() <= widest(lines, n),
        n > 0 ==> exists|i: int| 0 <= i < n && (#[trigger] lines[i]).len() == widest(lines, n),
        n == 0 ==> widest(lines, n) == 0,
    decreases n,
{
    if n > 0 {
        lemma_widest(lines, (n - 1) as nat);
    }
}

/// Whether a text holds no line feed.
pub open spec fn one_line(s: Seq<char>) -> bool {
    forall|i: int| 0 <= i < s.len() ==> s[i] != '\n'
}

/// A text has at least one line, and none of its lines holds a line
/// feed.
pub proof fn lemma_lines_of(s: Seq<char>)
    ensures
        lines_of(s).len() >= 1,
        forall|i: int| 0 <= i < lines_of(s).len() ==> one_line(#[trigger] lines_of(s)[i]),
    decreases s.len(),
{
    if s.len() > 0 {
        lemma_lines_of(s.drop_last());
        let front = lines_of(s.drop_last());
        assert forall|i: int| 0 <= i < lines_of(s).len() implies one_line(
            #[trigger] lines_of(s)[i],
        ) by {
            if i < front.len() {
                assert(one_line(front[i]));
            }
        }
    }
}

/// What follows a text without a line feed goes on the last line of the
/// text.
pub proof fn lemma_line_goes_on(t: Seq<char>, l: Seq<char>)
    requires
        one_line(l),
    ensures
        lines_of(t).len() >= 1,
        lines_of(t + l) == lines_of(t).update(lines_of(t).len() - 1, lines_of(t).last() + l),
    decreases l.len(),
{
    lemma_lines_of(t);
    let before = lines_of(t);
    if l.len() == 0 {
        assert(t + l == t);
        assert(before.last() + l == before.last());
        assert(before.update(before.len() - 1, before.last()) == before);
    } else {
        let shorter = l.drop_last();
        assert(one_line(shorter));
        lemma_line_goes_on(t, shorter);
        assert((t + l).drop_last() == t + shorter);
        assert((t + l).last() == l.last());
        let front = lines_of(t + shorter);
        assert(front.last().push(l.last()) == before.last() + l);
        assert(front.update(front.len() - 1, before.last() + l) == before.update(
            before.len() - 1,
            before.last() + l,
        ));
    }
}

/// A line feed ends the last line of a text and begins an empty one.
pub proof fn lemma_line_ends(t: Seq<char>)
    ensures
        lines_of(t.push('\n')) == lines_of(t).push(Seq::empty()),
{
    assert(t.push('\n').drop_last() == t);
}

/// A text without a line feed, then a line feed, then anything: the
/// first line is that text.
pub proof fn lemma_first_line(l: Seq<char>, rest: Seq<char>)
    requires
        one_line(l),
    ensures
        lines_of(l + "\n"@ + rest).len() >= 2,
        lines_of(l + "\n"@ + rest)[0] == l,
    decreases rest.len(),
{
    reveal_strlit("\n");
    if rest.len() == 0 {
        assert(l + "\n"@ + rest == l.push('\n'));
        lemma_line_ends(l);
        lemma_line_goes_on(Seq::empty(), l);
        assert(Seq::<char>::empty() + l == l);
        assert(lines_of(Seq::<char>::empty()) == seq![Seq::<char>::empty()]);
    } else {
        lemma_first_line(l, rest.drop_last());
        assert((l + "\n"@ + rest).drop_last() == l + "\n"@ + rest.drop_last());
    }
}

/// The first line of a box that holds lines of up to `width` characters.
pub open spec fn box_head(width: nat) -> Seq<char> {
    "┏"@ + run('━', width + 2) + "┓"@
}

/// The last line of such a box.
pub open spec fn box_foot(width: nat) -> Seq<char> {
    "┗"@ + run('━', width + 2) + "┛"@
}

/// A line as it stands in such a box: between the side borders, and
/// padded to the width.
pub open spec fn boxed_line(line: Seq<char>, width: nat) -> Seq<char> {
    "┃ "@ + line + run(' ', (width - line.len()) as nat) + " ┃"@
}

/// The first line of a box and the first `n` lines in it.
pub open spec fn box_lines(lines: Seq<Seq<char>>, width: nat, n: nat) -> Seq<Seq<char>> {
    seq![box_head(width)] + Seq::new(n, |i: int| boxed_line(lines[i], width))
}

proof fn lemma_box_rows(lines: Seq<Seq<char>>, width: nat, n: nat)
    requires
        n <= lines.len(),
        forall|i: int| 0 <= i < lines.len() ==> one_line(#[trigger] lines[i]),
    ensures
        lines_of(box_head(width) + "\n"@ + boxed_rows(lines, width, n)) == box_lines(
            lines,
            width,
            n,
        ).push(Seq::empty()),
    decreases n,
{
    reveal_strlit("┏");
    reveal_strlit("┓");
    reveal_strlit("\n");
    reveal_strlit("┃ ");
    reveal_strlit(" ┃");
    reveal_strlit(" ┃\n");
    let head = box_head(width);
    if n == 0 {
        assert(head + "\n"@ + boxed_rows(lines, width, n) == head.push('\n'));
        assert(one_line(head));
        lemma_line_goes_on(Seq::empty(), head);
        lemma_line_ends(head);
        assert(Seq::<char>::empty() + head == head);
        assert(lines_of(Seq::<char>::empty()) == seq![Seq::<char>::empty()]);
        assert(lines_of(head) == seq![head]);
        assert(box_lines(lines, width, n) == seq![head]);
    } else {
        lemma_box_rows(lines, width, (n - 1) as nat);
        let above = head + "\n"@ + boxed_rows(lines, width, (n - 1) as nat);
        let row = boxed_line(lines[n - 1], width);
        assert(one_line(lines[n - 1]));
        assert(one_line(row));
        assert(boxed_row(lines[n - 1], width) == row.push('\n'));
        assert(head + "\n"@ + boxed_rows(lines, width, n) == (above + row).push('\n'));
        lemma_line_goes_on(above, row);
        lemma_line_ends(above + row);
        let before = box_lines(lines, width, (n - 1) as nat);
        assert(Seq::<char>::empty() + row == row);
        assert(lines_of(above + row) == before.push(row));
        assert(before.push(row) == box_lines(lines, width, n));
    }
}

/// The shape of a box: its first line is the top border, then each line
/// of the text stands between the side borders, padded to the longest,
/// and its last line is the bottom border. All its lines are equally
/// long. It begins with the upper left corner and ends with the lower
/// right one.
pub proof fn lemma_boxed_shape(s: Seq<char>)
    ensures
        ({
            let lines = lines_of(s);
            let width = widest(lines, lines.len());
            let drawn = lines_of(boxed(s));
            &&& drawn.len() == lines.len() + 2
            &&& drawn[0] == box_head(width)
            &&& forall|i: int|
                0 <= i < lines.len() ==> drawn[i + 1] == boxed_line(#[trigger] lines[i], width)
            &&& drawn.last() == box_foot(width)
            &&& forall|i: int| 0 <= i < drawn.len() ==> (#[trigger] drawn[i]).len() == width + 4
        }),
        boxed(s).first() == '┏',
        boxed(s).last() == '┛',
{
    reveal_strlit("┏");
    reveal_strlit("┓");
    reveal_strlit("┓\n");
    reveal_strlit("\n");
    reveal_strlit("┗");
    reveal_strlit("┛");
    reveal_strlit("┃ ");
    reveal_strlit(" ┃");
    let lines = lines_of(s);
    let width = widest(lines, lines.len());
    lemma_lines_of(s);
    lemma_widest(lines, lines.len());
    lemma_box_rows(lines, width, lines.len());
    let above = box_head(width) + "\n"@ + boxed_rows(lines, width, lines.len());
    let foot = box_foot(width);
    assert(one_line(foot));
    assert(boxed(s) == above + foot);
    lemma_line_goes_on(above, foot);
    assert(Seq::<char>::empty() + foot == foot);
    let rows = box_lines(lines, width, lines.len());
    let drawn = lines_of(boxed(s));
    assert(drawn == rows.push(foot));
    assert forall|i: int| 0 <= i < lines.len() implies drawn[i + 1] == boxed_line(
        #[trigger] lines[i],
        width,
    ) by {
        assert(rows[i + 1] == boxed_line(lines[i], width));
    }
    assert forall|i: int| 0 <= i < drawn.len() implies (#[trigger] drawn[i]).len() == width
        + 4 by {
        if 1 <= i <= lines.len() {
            assert(drawn[i] == boxed_line(lines[i - 1], width));
            assert(lines[i - 1].len() <= width);
        }
    }
}

fn split_lines(input: &str) -> (lines: Vec<Vec<char>>)
    ensures
        lines@.len() == lines_of(input@).len(),
        forall|i: int| 0 <= i < lines@.len() ==> (#[trigger] lines@[i])@ == lines_of(input@)[i],
{
    let n = input.unicode_len();
    let mut lines: Vec<Vec<char>> = Vec::new();
    let mut line: Vec<char> = Vec::new();
    let mut i: usize = 0;
    while i < n
        invariant
            i <= n == input@.len(),
            lines@.len() + 1 == lines_of(input@.take(i as int)).len(),
            forall|k: int|
                0 <= k < lines@.len() ==> (#[trigger] lines@[k])@ == lines_of(
                    input@.take(i as int),
                )[k],
            line@ == lines_of(input@.take(i as int)).last(),
        decreases n - i,
    {
        let c = input.get_char(i);
        proof {
            assert(input@.take(i + 1).drop_last() == input@.take(i as int));
        }
        if c == '\n' {
            lines.push(line);
            line = Vec::new();
        } else {
            line.push(c);
        }
        i = i + 1;
    }
    assert(input@.take(i as int) == input@);
    lines.push(line);
    lines
}

fn push_run(out: &mut String, c: char, n: usize)
    ensures
        final(out)@ == old(out)@ + run(c, n as nat),
{
    let mut i: usize = 0;
    let ghost start = out@;
    while i < n
        invariant
            i <= n,
            out@ == start + run(c, i as nat),
        decreases n - i,
    {
        push_char(out, c);
        i = i + 1;
    }
}

fn push_border(out: &mut String, width: usize)
    ensures
        final(out)@ == old(out)@ + run('━', (width + 2) as nat),
{
    push_run(out, '━', width);
    push_char(out, '━');
    push_char(out, '━');
}

fn push_chars(out: &mut String, chars: &Vec<char>)
    ensures
        final(out)@ == old(out)@ + chars@,
{
    let mut i: usize = 0;
    let ghost start = out@;
    while i < chars.len()
        invariant
            i <= chars@.len(),
            out@ == start + chars@.take(i as int),
        decreases chars@.len() - i,
    {
        push_char(out, chars[i]);
        i = i + 1;
    }
}

/// Draws a box around a text of one or more lines.
pub fn wrap_in_box(input: &str) -> (r: String)
    ensures
        r@ == boxed(input@),
{
    let lines = split_lines(input);
    let ghost spec_lines = lines_of(input@);
    let mut width: usize = 0;
    let mut i: usize = 0;
    while i < lines.len()
        invariant
            i <= lines@.len() == spec_lines.len(),
            forall|k: int| 0 <= k < lines@.len() ==> (#[trigger] lines@[k])@ == spec_lines[k],
            width == widest(spec_lines, i as nat),
        decreases lines@.len() - i,
    {
        if lines[i].len() > width {
            width = lines[i].len();
        }
        i = i + 1;
    }
    let mut out = String::from_str("┏");
    push_border(&mut out, width);
    out.append("┓\n");
    let ghost top = out@;
    let mut k: usize = 0;
    proof {
        lemma_widest(spec_lines, spec_lines.len());
    }
    while k < lines.len()
        invariant
            k <= lines@.len() == spec_lines.len(),
            forall|j: int| 0 <= j < lines@.len() ==> (#[trigger] lines@[j])@ == spec_lines[j],
            forall|j: int| 0 <= j < spec_lines.len() ==> (#[trigger] spec_lines[j]).len() <= width,
            out@ == top + boxed_rows(spec_lines, width as nat, k as nat),
        decreases lines@.len() - k,
    {
        out.append("┃ ");
        push_chars(&mut out, &lines[k]);
        push_run(&mut out, ' ', width - lines[k].len());
        out.append(" ┃\n");
        k = k + 1;
    }
    out.append("┗");
    push_border(&mut out, width);
    out.append("┛");
    out
}

} // verus!
