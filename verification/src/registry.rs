//! The device registry: reading the device-bridge tool's listing.
//!
//! The listing is plain text: a header line, then one line per device.
//! The first whitespace-delimited token of a line is the device's
//! identifier, the second its status, and a line counts only if its
//! status holds the marker `device`.

use vstd::prelude::*;

verus! {

/// The classes of characters that the reader tells apart.
#[derive(Clone, Copy, Debug, PartialEq, Eq, Structural)]
pub enum CharClass {
    /// Anything but a line feed.
    LineBody,
    /// Whitespace.
    Space,
    /// Anything but whitespace.
    Word,
}

/// Whether `c` is whitespace: a character with the Unicode property
/// `White_Space`.
pub open spec fn is_whitespace(c: char) -> bool {
    let u = c as u32;
    ||| 0x09 <= u <= 0x0D
    ||| u == 0x20
    ||| u == 0x85
    ||| u == 0xA0
    ||| u == 0x1680
    ||| 0x2000 <= u <= 0x200A
    ||| u == 0x2028
    ||| u == 0x2029
    ||| u == 0x202F
    ||| u == 0x205F
    ||| u == 0x3000
}

/// Whether `c` belongs to `class`.
pub open spec fn in_class(class: CharClass, c: char) -> bool {
    match class {
        CharClass::LineBody => c != '\n',
        CharClass::Space => is_whitespace(c),
        CharClass::Word => !is_whitespace(c),
    }
}

/// Length of the longest prefix of `s` whose characters all belong to
/// `class`.
pub open spec fn run_len(s: Seq<char>, class: CharClass) -> nat
    decreases s.len(),
{
    if s.len() == 0 || !in_class(class, s[0]) {
        0
    } else {
        1 + run_len(s.drop_first(), class)
    }
}

/// The marker of a ready device.
pub open spec fn marker() -> Seq<char> {
    seq!['d', 'e', 'v', 'i', 'c', 'e']
}

/// Whether `text` holds the marker somewhere.
pub open spec fn has_marker(text: Seq<char>) -> bool {
    exists|i: int| 0 <= i && i + 6 <= text.len() && #[trigger] text.subrange(i, i + 6) == marker()
}

/// The first whitespace-delimited token of `line`; empty when the line
/// holds nothing but whitespace.
pub open spec fn first_token(line: Seq<char>) -> Seq<char> {
    let rest = line.skip(run_len(line, CharClass::Space) as int);
    rest.take(run_len(rest, CharClass::Word) as int)
}

/// What follows the first token of `line`.
pub open spec fn after_first_token(line: Seq<char>) -> Seq<char> {
    let rest = line.skip(run_len(line, CharClass::Space) as int);
    rest.skip(run_len(rest, CharClass::Word) as int)
}

/// The status column of `line`: its second whitespace-delimited token;
/// empty when the line has fewer than two tokens.
pub open spec fn status_column(line: Seq<char>) -> Seq<char> {
    first_token(after_first_token(line))
}

/// Whether `line` is that of a ready device: its status column holds the
/// marker.
pub open spec fn is_ready(line: Seq<char>) -> bool {
    has_marker(status_column(line))
}

/// The lines of `s`: the pieces between line feeds, without a last empty
/// piece.
pub open spec fn lines(s: Seq<char>) -> Seq<Seq<char>>
    decreases s.len(),
{
    if s.len() == 0 {
        Seq::empty()
    } else {
        let n = run_len(s, CharClass::LineBody);
        if n >= s.len() {
            seq![s]
        } else {
            seq![s.take(n as int)] + lines(s.skip(n as int + 1))
        }
    }
}

/// What one line contributes: its first token if the line is ready,
/// nothing otherwise.
pub open spec fn line_ids(line: Seq<char>) -> Seq<Seq<char>> {
    if is_ready(line) {
        seq![first_token(line)]
    } else {
        Seq::empty()
    }
}

/// The identifiers that `ls` contribute, in the order of the lines.
pub open spec fn ready_ids(ls: Seq<Seq<char>>) -> Seq<Seq<char>>
    decreases ls.len(),
{
    if ls.len() == 0 {
        Seq::empty()
    } else {
        line_ids(ls[0]) + ready_ids(ls.drop_first())
    }
}

/// The lines of the listing `s` after its first, which is the header.
pub open spec fn body_lines(s: Seq<char>) -> Seq<Seq<char>> {
    if lines(s).len() == 0 {
        Seq::empty()
    } else {
        lines(s).drop_first()
    }
}

/// The identifiers of the ready devices in the listing `s`: those of all
/// lines but the header.
pub open spec fn device_ids(s: Seq<char>) -> Seq<Seq<char>> {
    ready_ids(body_lines(s))
}

/// The texts of a sequence of strings.
pub open spec fn texts(v: Seq<String>) -> Seq<Seq<char>> {
    v.map_values(|s: String| s@)
}

/// `run_len` stays inside the sequence, covers only characters of the
/// class, and stops at the first character outside it.
pub proof fn lemma_run_len(s: Seq<char>, class: CharClass)
    ensures
        run_len(s, class) <= s.len(),
        forall|j: int| 0 <= j < run_len(s, class) ==> in_class(class, #[trigger] s[j]),
        run_len(s, class) < s.len() ==> !in_class(class, s[run_len(s, class) as int]),
    decreases s.len(),
{
    if s.len() > 0 && in_class(class, s[0]) {
        let rest = s.drop_first();
        lemma_run_len(rest, class);
        assert forall|j: int| 0 <= j < run_len(s, class) implies in_class(
            class,
            #[trigger] s[j],
        ) by {
            if j > 0 {
                assert(s[j] == rest[j - 1]);
            }
        }
        if run_len(s, class) < s.len() {
            assert(s[run_len(s, class) as int] == rest[run_len(rest, class) as int]);
        }
    }
}

/// A prefix of the class that ends the sequence, or is followed by a
/// character outside the class, has the length `run_len`.
pub proof fn lemma_run_len_is(s: Seq<char>, class: CharClass, n: int)
    requires
        0 <= n <= s.len(),
        forall|j: int| 0 <= j < n ==> in_class(class, #[trigger] s[j]),
        n < s.len() ==> !in_class(class, s[n]),
    ensures
        run_len(s, class) == n,
{
    lemma_run_len(s, class);
    let r = run_len(s, class) as int;
    if r < n {
        assert(in_class(class, s[r]));
    } else if n < r {
        assert(in_class(class, s[n]));
    }
}

/// The identifiers that one line followed by further lines contribute.
pub proof fn lemma_ready_ids_step(line: Seq<char>, rest: Seq<Seq<char>>)
    ensures
        ready_ids(seq![line] + rest) == line_ids(line) + ready_ids(rest),
{
    let all = seq![line] + rest;
    assert(all[0] == line);
    assert(all.drop_first() =~= rest);
}

/// Order is kept: the identifiers of two listings' lines, one after the
/// other, are the identifiers of the first followed by those of the second.
pub proof fn lemma_ready_ids_concat(first: Seq<Seq<char>>, second: Seq<Seq<char>>)
    ensures
        ready_ids(first + second) == ready_ids(first) + ready_ids(second),
    decreases first.len(),
{
    if first.len() == 0 {
        assert(first + second =~= second);
        assert(ready_ids(first) + ready_ids(second) =~= ready_ids(second));
    } else {
        let all = first + second;
        assert(all[0] == first[0]);
        assert(all.drop_first() =~= first.drop_first() + second);
        lemma_ready_ids_concat(first.drop_first(), second);
        assert(line_ids(first[0]) + (ready_ids(first.drop_first()) + ready_ids(second))
            =~= (line_ids(first[0]) + ready_ids(first.drop_first())) + ready_ids(second));
    }
}

/// Every identifier that is returned is the first token of a ready
/// line: lines of any other status contribute nothing.
pub proof fn lemma_ready_ids_origin(ls: Seq<Seq<char>>, id: Seq<char>)
    requires
        ready_ids(ls).contains(id),
    ensures
        exists|k: int| 0 <= k < ls.len() && is_ready(#[trigger] ls[k]) && first_token(ls[k]) == id,
    decreases ls.len(),
{
    if ls.len() > 0 {
        let head = line_ids(ls[0]);
        let tail = ready_ids(ls.drop_first());
        let at = choose|at: int| 0 <= at < ready_ids(ls).len() && ready_ids(ls)[at] == id;
        if at < head.len() {
            assert(is_ready(ls[0]) && first_token(ls[0]) == id);
        } else {
            assert(tail[at - head.len()] == id);
            assert(tail.contains(id));
            lemma_ready_ids_origin(ls.drop_first(), id);
            let k = choose|k: int|
                0 <= k < ls.drop_first().len() && is_ready(#[trigger] ls.drop_first()[k])
                    && first_token(ls.drop_first()[k]) == id;
            assert(ls[k + 1] == ls.drop_first()[k]);
            assert(is_ready(ls[k + 1]) && first_token(ls[k + 1]) == id);
        }
    }
}

/// Nothing is returned twice when no two ready lines start with the
/// same token.
pub proof fn lemma_ready_ids_distinct(ls: Seq<Seq<char>>)
    requires
        forall|i: int, j: int|
            0 <= i < j < ls.len() && is_ready(ls[i]) && is_ready(ls[j]) ==> first_token(ls[i])
                != first_token(ls[j]),
    ensures
        ready_ids(ls).no_duplicates(),
    decreases ls.len(),
{
    if ls.len() > 0 {
        let rest = ls.drop_first();
        let head = line_ids(ls[0]);
        let tail = ready_ids(rest);
        assert forall|i: int, j: int|
            0 <= i < j < rest.len() && is_ready(rest[i]) && is_ready(rest[j]) implies first_token(
            rest[i],
        ) != first_token(rest[j]) by {
            assert(rest[i] == ls[i + 1] && rest[j] == ls[j + 1]);
        }
        lemma_ready_ids_distinct(rest);
        assert forall|a: int, b: int| 0 <= a < b < ready_ids(ls).len() implies ready_ids(ls)[a]
            != ready_ids(ls)[b] by {
            if a < head.len() {
                let id = first_token(ls[0]);
                if tail[b - head.len()] == id {
                    assert(tail.contains(id));
                    lemma_ready_ids_origin(rest, id);
                    let k = choose|k: int|
                        0 <= k < rest.len() && is_ready(#[trigger] rest[k]) && first_token(rest[k])
                            == id;
                    assert(rest[k] == ls[k + 1]);
                    assert(false);
                }
            } else {
                assert(tail[a - head.len()] != tail[b - head.len()]);
            }
        }
    }
}

/// Every ready line is read: its first token is among the identifiers.
pub proof fn lemma_ready_line_listed(ls: Seq<Seq<char>>, k: int)
    requires
        0 <= k < ls.len(),
        is_ready(ls[k]),
    ensures
        ready_ids(ls).contains(first_token(ls[k])),
    decreases ls.len(),
{
    let head = line_ids(ls[0]);
    let tail = ready_ids(ls.drop_first());
    if k == 0 {
        assert(ready_ids(ls)[0] == first_token(ls[0]));
    } else {
        assert(ls.drop_first()[k - 1] == ls[k]);
        lemma_ready_line_listed(ls.drop_first(), k - 1);
        let j = choose|j: int| 0 <= j < tail.len() && tail[j] == first_token(ls[k]);
        assert(ready_ids(ls)[head.len() + j] == tail[j]);
    }
}

/// Every identifier of a listing is the first token of a ready line
/// after the header.
pub proof fn lemma_listed_id_origin(s: Seq<char>, id: Seq<char>)
    requires
        device_ids(s).contains(id),
    ensures
        exists|k: int|
            1 <= k < lines(s).len() && is_ready(#[trigger] lines(s)[k]) && first_token(
                lines(s)[k],
            ) == id,
{
    let body = lines(s).drop_first();
    lemma_ready_ids_origin(body, id);
    let k = choose|k: int|
        0 <= k < body.len() && is_ready(#[trigger] body[k]) && first_token(body[k]) == id;
    assert(lines(s)[k + 1] == body[k]);
    assert(is_ready(lines(s)[k + 1]) && first_token(lines(s)[k + 1]) == id);
}

/// Every ready line after the header gives its first token to the
/// listing's identifiers.
pub proof fn lemma_ready_device_listed(s: Seq<char>, k: int)
    requires
        1 <= k < lines(s).len(),
        is_ready(lines(s)[k]),
    ensures
        device_ids(s).contains(first_token(lines(s)[k])),
{
    let body = lines(s).drop_first();
    assert(body[k - 1] == lines(s)[k]);
    lemma_ready_line_listed(body, k - 1);
}

/// A listing names no device twice when no two of its ready lines after
/// the header start with the same token.
pub proof fn lemma_listing_distinct(s: Seq<char>)
    requires
        forall|i: int, j: int|
            1 <= i < j < lines(s).len() && is_ready(lines(s)[i]) && is_ready(lines(s)[j])
                ==> first_token(lines(s)[i]) != first_token(lines(s)[j]),
    ensures
        device_ids(s).no_duplicates(),
{
    if lines(s).len() > 0 {
        let body = lines(s).drop_first();
        assert forall|i: int, j: int|
            0 <= i < j < body.len() && is_ready(body[i]) && is_ready(body[j]) implies first_token(
            body[i],
        ) != first_token(body[j]) by {
            assert(body[i] == lines(s)[i + 1] && body[j] == lines(s)[j + 1]);
        }
        lemma_ready_ids_distinct(body);
    }
}

/// The test for a ready line, as a predicate on lines.
pub open spec fn ready_pred() -> spec_fn(Seq<char>) -> bool {
    |line: Seq<char>| is_ready(line)
}

/// The ready lines among `ls`, in their order.
pub open spec fn ready_lines(ls: Seq<Seq<char>>) -> Seq<Seq<char>> {
    ls.filter(ready_pred())
}

/// The first token of each line of `ls`.
pub open spec fn tokens_of(ls: Seq<Seq<char>>) -> Seq<Seq<char>> {
    ls.map_values(|line: Seq<char>| first_token(line))
}

/// The identifiers are the first tokens of the ready lines, one for each
/// and in their order: none is left out, none comes twice, and there are
/// as many identifiers as ready lines.
pub proof fn lemma_ready_ids_are_ready_lines(ls: Seq<Seq<char>>)
    ensures
        ready_ids(ls) == tokens_of(ready_lines(ls)),
        ready_ids(ls).len() == ready_lines(ls).len(),
    decreases ls.len(),
{
    reveal_with_fuel(Seq::filter, 2);
    if ls.len() == 0 {
        assert(ready_ids(ls) =~= tokens_of(ready_lines(ls)));
    } else {
        let head = seq![ls[0]];
        let rest = ls.drop_first();
        assert(ls =~= head + rest);
        Seq::filter_distributes_over_add(head, rest, ready_pred());
        lemma_ready_ids_are_ready_lines(rest);
        assert(head.drop_last() =~= Seq::<Seq<char>>::empty());
        assert(head.last() == ls[0]);
        if is_ready(ls[0]) {
            assert(head.filter(ready_pred()) =~= head);
        } else {
            assert(head.filter(ready_pred()) =~= Seq::<Seq<char>>::empty());
        }
        assert(tokens_of(head.filter(ready_pred()) + rest.filter(ready_pred())) =~= tokens_of(
            head.filter(ready_pred()),
        ) + tokens_of(rest.filter(ready_pred())));
        assert(tokens_of(head.filter(ready_pred())) =~= line_ids(ls[0]));
    }
}

/// A listing gives the first tokens of its ready lines after the header,
/// one for each and in their order.
pub proof fn lemma_device_ids_are_ready_lines(s: Seq<char>)
    ensures
        device_ids(s) == tokens_of(ready_lines(body_lines(s))),
        device_ids(s).len() == ready_lines(body_lines(s)).len(),
{
    lemma_ready_ids_are_ready_lines(body_lines(s));
}

/// Whether `c` is whitespace.
pub fn is_space(c: char) -> (space: bool)
    ensures
        space == is_whitespace(c),
{
    let u: u32 = c as u32;
    (0x09 <= u && u <= 0x0D) || u == 0x20 || u == 0x85 || u == 0xA0 || u == 0x1680 || (0x2000 <= u
        && u <= 0x200A) || u == 0x2028 || u == 0x2029 || u == 0x202F || u == 0x205F || u == 0x3000
}

/// Whether `c` belongs to `class`.
pub fn belongs(class: CharClass, c: char) -> (inside: bool)
    ensures
        inside == in_class(class, c),
{
    match class {
        CharClass::LineBody => c != '\n',
        CharClass::Space => is_space(c),
        CharClass::Word => !is_space(c),
    }
}

/// The characters of `text`, one by one.
pub fn chars_of(text: &str) -> (chars: Vec<char>)
    ensures
        chars@ == text@,
{
    let mut chars: Vec<char> = Vec::new();
    for c in it: text.chars()
        invariant
            chars@.len() == it.index(),
            it.seq() == text@,
            forall|j: int| 0 <= j < chars@.len() ==> chars@[j] == it.seq()[j],
    {
        chars.push(c);
    }
    assert(chars@ =~= text@);
    chars
}

/// End of the run of characters of `class` that starts at `from` and
/// stays before `to`.
pub fn scan(chars: &Vec<char>, from: usize, to: usize, class: CharClass) -> (end: usize)
    requires
        from <= to <= chars@.len(),
    ensures
        from <= end <= to,
        end - from == run_len(chars@.subrange(from as int, to as int), class),
{
    let ghost piece = chars@.subrange(from as int, to as int);
    let mut end: usize = from;
    while end < to && belongs(class, chars[end])
        invariant
            from <= end <= to <= chars@.len(),
            piece == chars@.subrange(from as int, to as int),
            forall|j: int| 0 <= j < end - from ==> in_class(class, #[trigger] piece[j]),
        decreases to - end,
    {
        end += 1;
    }
    proof {
        if end < to {
            assert(piece[end - from] == chars@[end as int]);
        }
        lemma_run_len_is(piece, class, end - from);
    }
    end
}

/// Whether the marker stands at `at`.
fn marker_at(chars: &Vec<char>, at: usize) -> (found: bool)
    requires
        at + 6 <= chars@.len(),
    ensures
        found == (chars@.subrange(at as int, at + 6) == marker()),
{
    let len: usize = chars.len();
    assert(at + 6 <= len);
    let found = chars[at] == 'd' && chars[at + 1] == 'e' && chars[at + 2] == 'v' && chars[at + 3]
        == 'i' && chars[at + 4] == 'c' && chars[at + 5] == 'e';
    proof {
        let piece = chars@.subrange(at as int, at + 6);
        if found {
            assert(piece =~= marker());
        } else {
            assert(piece[0] == chars@[at as int]);
            assert(piece[1] == chars@[at + 1]);
            assert(piece[2] == chars@[at + 2]);
            assert(piece[3] == chars@[at + 3]);
            assert(piece[4] == chars@[at + 4]);
            assert(piece[5] == chars@[at + 5]);
            assert(marker()[0] == 'd' && marker()[1] == 'e' && marker()[2] == 'v' && marker()[3]
                == 'i' && marker()[4] == 'c' && marker()[5] == 'e');
        }
    }
    found
}

/// Whether the characters from `from` up to `to` hold the marker.
pub fn holds_marker(chars: &Vec<char>, from: usize, to: usize) -> (found: bool)
    requires
        from <= to <= chars@.len(),
    ensures
        found == has_marker(chars@.subrange(from as int, to as int)),
{
    let ghost line = chars@.subrange(from as int, to as int);
    if to - from < 6 {
        return false;
    }
    let last: usize = to - 6;
    let mut at: usize = from;
    while at <= last
        invariant
            from <= at <= last + 1,
            last + 6 == to,
            to <= chars@.len(),
            line == chars@.subrange(from as int, to as int),
            forall|i: int| 0 <= i < at - from ==> #[trigger] line.subrange(i, i + 6) != marker(),
        decreases last + 1 - at,
    {
        assert(line.subrange(at - from, at - from + 6) =~= chars@.subrange(at as int, at + 6));
        if marker_at(chars, at) {
            return true;
        }
        at += 1;
    }
    false
}

/// Reads the device-bridge tool's listing: the identifiers of the ready
/// devices, in the order of their lines. A device is ready when the
/// status column of its line holds the marker; the header never counts.
pub fn parse_device_listing(output: &str) -> (ids: Vec<String>)
    ensures
        texts(ids@) == device_ids(output@),
{
    let chars = chars_of(output);
    let len: usize = chars.len();
    let mut ids: Vec<String> = Vec::new();
    if len == 0 {
        assert(texts(ids@) =~= device_ids(output@));
        return ids;
    }
    let header_end: usize = scan(&chars, 0, len, CharClass::LineBody);
    let mut pos: usize = if header_end < len {
        header_end + 1
    } else {
        len
    };
    proof {
        assert(chars@.subrange(0, len as int) =~= chars@);
        lemma_lines_step(chars@, 0, header_end as int);
        assert(chars@.skip(0) =~= chars@);
        let first = chars@.subrange(0, header_end as int);
        assert((seq![first] + lines(chars@.skip(pos as int))).drop_first() =~= lines(
            chars@.skip(pos as int),
        ));
        assert(texts(ids@) =~= Seq::<Seq<char>>::empty());
        assert(device_ids(output@) =~= texts(ids@) + ready_ids(lines(chars@.skip(pos as int))));
    }
    while pos < len
        invariant
            chars@ == output@,
            len == chars@.len(),
            pos <= len,
            device_ids(output@) == texts(ids@) + ready_ids(lines(chars@.skip(pos as int))),
        decreases len - pos,
    {
        let end: usize = scan(&chars, pos, len, CharClass::LineBody);
        let next: usize = if end < len {
            end + 1
        } else {
            len
        };
        let ghost line = chars@.subrange(pos as int, end as int);
        let ghost before = texts(ids@);
        proof {
            lemma_lines_step(chars@, pos as int, end as int);
            lemma_ready_ids_step(line, lines(chars@.skip(next as int)));
        }
        let start: usize = scan(&chars, pos, end, CharClass::Space);
        let stop: usize = scan(&chars, start, end, CharClass::Word);
        let status_start: usize = scan(&chars, stop, end, CharClass::Space);
        let status_stop: usize = scan(&chars, status_start, end, CharClass::Word);
        proof {
            let rest = chars@.subrange(start as int, end as int);
            let after = chars@.subrange(stop as int, end as int);
            let column = chars@.subrange(status_start as int, end as int);
            assert(line.skip(start - pos) =~= rest);
            assert(rest.take(stop - start) =~= chars@.subrange(start as int, stop as int));
            assert(rest.skip(stop - start) =~= after);
            assert(after_first_token(line) == after);
            assert(after.skip(status_start - stop) =~= column);
            assert(column.take(status_stop - status_start) =~= chars@.subrange(
                status_start as int,
                status_stop as int,
            ));
            assert(status_column(line) == chars@.subrange(
                status_start as int,
                status_stop as int,
            ));
        }
        if holds_marker(&chars, status_start, status_stop) {
            let id = output.substring_char(start, stop).to_owned();
            assert(id@ == first_token(line));
            ids.push(id);
            assert(texts(ids@) =~= before + seq![first_token(line)]);
        }
        assert(texts(ids@) =~= before + line_ids(line));
        assert((before + line_ids(line)) + ready_ids(lines(chars@.skip(next as int))) =~= before
            + (line_ids(line) + ready_ids(lines(chars@.skip(next as int)))));
        pos = next;
    }
    proof {
        assert(chars@.skip(pos as int) =~= Seq::<char>::empty());
        assert(texts(ids@) + ready_ids(lines(chars@.skip(pos as int))) =~= texts(ids@));
    }
    ids
}

/// The lines from `pos` on are the line that ends at `end`, followed by
/// the lines after its line feed.
proof fn lemma_lines_step(s: Seq<char>, pos: int, end: int)
    requires
        0 <= pos < s.len(),
        pos <= end <= s.len(),
        end - pos == run_len(s.subrange(pos, s.len() as int), CharClass::LineBody),
    ensures
        lines(s.skip(pos)) == seq![s.subrange(pos, end)] + lines(
            s.skip(
                if end < s.len() {
                    end + 1
                } else {
                    s.len() as int
                },
            ),
        ),
{
    let rest = s.skip(pos);
    assert(rest =~= s.subrange(pos, s.len() as int));
    let n = run_len(rest, CharClass::LineBody);
    if end < s.len() {
        assert(rest.take(n as int) =~= s.subrange(pos, end));
        assert(rest.skip(n as int + 1) =~= s.skip(end + 1));
    } else {
        assert(rest =~= s.subrange(pos, end));
        assert(s.skip(s.len() as int) =~= Seq::<char>::empty());
        assert(seq![rest] + Seq::<Seq<char>>::empty() =~= seq![rest]);
    }
}

} // verus!
