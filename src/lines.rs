//! Line files: splitting text into lines and rendering lines back into text.
use vstd::prelude::*;

verus! {

/// A line without its trailing carriage return, if it has one.
pub open spec fn strip_cr(line: Seq<char>) -> Seq<char> {
    if line.len() > 0 && line.last() == '\r' {
        line.drop_last()
    } else {
        line
    }
}

/// Reads `text` from the left: the lines finished by a `'\n'` so far, each
/// without its terminator, and the characters of the line still open.
pub open spec fn scan(text: Seq<char>) -> (Seq<Seq<char>>, Seq<char>)
    decreases text.len(),
{
    if text.len() == 0 {
        (Seq::empty(), Seq::empty())
    } else {
        let (done, open) = scan(text.drop_last());
        if text.last() == '\n' {
            (done.push(strip_cr(open)), Seq::empty())
        } else {
            (done, open.push(text.last()))
        }
    }
}

/// The lines of `text`: split at each `'\n'`, a `'\r'` before it dropped, and a
/// last line without terminator kept when it is not empty.
pub open spec fn lines_of(text: Seq<char>) -> Seq<Seq<char>> {
    let (done, open) = scan(text);
    if open.len() == 0 {
        done
    } else {
        done.push(open)
    }
}

/// The text of a line file: each line followed by `'\n'`.
pub open spec fn render(lines: Seq<Seq<char>>) -> Seq<char>
    decreases lines.len(),
{
    if lines.len() == 0 {
        Seq::empty()
    } else {
        render(lines.drop_last()) + lines.last() + seq!['\n']
    }
}

/// Relies on `String`'s `FromIterator<&char>`: the string of the characters in order.
#[verifier::external_body]
pub(crate) fn string_of_chars(chars: &Vec<char>) -> (r: String)
    ensures
        r@ == chars@,
{
    chars.iter().collect()
}

/// Splits text into its lines.
pub fn split_lines(content: &str) -> (r: Vec<String>)
    ensures
        r.deep_view() == lines_of(content@),
{
    let mut done: Vec<String> = Vec::new();
    let mut open: Vec<char> = Vec::new();
    for c in iter: content.chars()
        invariant
            iter.seq() == content@,
            scan(content@.take(iter.index())) == (done.deep_view(), open@),
    {
        assert(content@.take(iter.index() + 1).drop_last() =~= content@.take(iter.index()));
        if c == '\n' {
            if open.len() > 0 && open[open.len() - 1] == '\r' {
                open.pop();
            }
            let line = string_of_chars(&open);
            done.push(line);
            open = Vec::new();
        } else {
            open.push(c);
        }
        assert(done.deep_view() =~= scan(content@.take(iter.index() + 1)).0);
        assert(open@ =~= scan(content@.take(iter.index() + 1)).1);
    }
    assert(content@.take(content@.len() as int) =~= content@);
    if open.len() > 0 {
        let line = string_of_chars(&open);
        done.push(line);
    }
    assert(done.deep_view() =~= lines_of(content@));
    done
}


/// The lines separated by `'\n'`, with no terminator after the last one.
pub open spec fn joined(lines: Seq<Seq<char>>) -> Seq<char>
    decreases lines.len(),
{
    if lines.len() == 0 {
        Seq::empty()
    } else if lines.len() == 1 {
        lines[0]
    } else {
        joined(lines.drop_last()) + seq!['\n'] + lines.last()
    }
}

/// Renders lines as the text of a line file, each line followed by `'\n'`.
pub fn render_lines(lines: &Vec<String>) -> (r: String)
    ensures
        r@ == render(lines.deep_view()),
{
    let mut r = String::new();
    let mut i: usize = 0;
    while i < lines.len()
        invariant
            i <= lines.len(),
            r@ == render(lines.deep_view().take(i as int)),
        decreases lines.len() - i,
    {
        r.append(lines[i].as_str());
        r.append("\n");
        proof {
            reveal_strlit("\n");
            assert(lines.deep_view().take(i + 1).drop_last() =~= lines.deep_view().take(i as int));
        }
        assert(r@ =~= render(lines.deep_view().take(i + 1)));
        i += 1;
    }
    assert(lines.deep_view().take(i as int) =~= lines.deep_view());
    r
}

/// Joins lines with `'\n'` between them.
pub fn join_lines(lines: &Vec<String>) -> (r: String)
    ensures
        r@ == joined(lines.deep_view()),
{
    let mut r = String::new();
    let mut i: usize = 0;
    while i < lines.len()
        invariant
            i <= lines.len(),
            r@ == joined(lines.deep_view().take(i as int)),
        decreases lines.len() - i,
    {
        if i > 0 {
            r.append("\n");
        }
        r.append(lines[i].as_str());
        proof {
            reveal_strlit("\n");
            assert(lines.deep_view().take(i + 1).drop_last() =~= lines.deep_view().take(i as int));
        }
        assert(r@ =~= joined(lines.deep_view().take(i + 1)));
        i += 1;
    }
    assert(lines.deep_view().take(i as int) =~= lines.deep_view());
    r
}

/// Reading text that holds no `'\n'` leaves the finished lines as they were and
/// extends the open line.
proof fn lemma_scan_within_line(before: Seq<char>, line: Seq<char>)
    requires
        !line.contains('\n'),
    ensures
        scan(before + line) == (scan(before).0, scan(before).1 + line),
    decreases line.len(),
{
    if line.len() == 0 {
        assert(before + line =~= before);
        assert(scan(before).1 + line =~= scan(before).1);
    } else {
        let init = line.drop_last();
        assert(!init.contains('\n')) by {
            if init.contains('\n') {
                let k = choose|k: int| 0 <= k < init.len() && init[k] == '\n';
                assert(line[k] == '\n');
            }
        }
        assert(line.last() != '\n') by {
            assert(line[line.len() - 1] == line.last());
        }
        lemma_scan_within_line(before, init);
        assert((before + line).drop_last() =~= before + init);
        assert((before + line).last() == line.last());
        assert(scan(before).1 + line =~= (scan(before).1 + init).push(line.last()));
    }
}

proof fn lemma_scan_render(lines: Seq<Seq<char>>)
    requires
        forall|i: int| 0 <= i < lines.len() ==> !(#[trigger] lines[i]).contains('\n'),
    ensures
        scan(render(lines)) == (lines.map_values(|l: Seq<char>| strip_cr(l)), Seq::<char>::empty()),
    decreases lines.len(),
{
    if lines.len() == 0 {
        assert(lines.map_values(|l: Seq<char>| strip_cr(l)) =~= Seq::<Seq<char>>::empty());
    } else {
        let init = lines.drop_last();
        let last = lines.last();
        assert(!last.contains('\n')) by {
            assert(lines[lines.len() - 1] == last);
        }
        assert forall|i: int| 0 <= i < init.len() implies !(#[trigger] init[i]).contains('\n') by {
            assert(init[i] == lines[i]);
        }
        lemma_scan_render(init);
        let text = render(lines);
        lemma_scan_within_line(render(init), last);
        assert(text.drop_last() =~= render(init) + last);
        assert(text.last() == '\n');
        assert(lines.map_values(|l: Seq<char>| strip_cr(l)) =~= init.map_values(
            |l: Seq<char>| strip_cr(l),
        ).push(strip_cr(last)));
        assert(scan(render(init)).1 + last =~= last);
    }
}

/// Writing lines to a file and reading it back gives the same lines, but for
/// a trailing carriage return, which reading takes as part of the terminator.
pub proof fn lemma_lines_round_trip(lines: Seq<Seq<char>>)
    requires
        forall|i: int| 0 <= i < lines.len() ==> !(#[trigger] lines[i]).contains('\n'),
    ensures
        lines_of(render(lines)) == lines.map_values(|l: Seq<char>| strip_cr(l)),
        (forall|i: int| 0 <= i < lines.len() ==> strip_cr(#[trigger] lines[i]) == lines[i])
            ==> lines_of(render(lines)) == lines,
{
    lemma_scan_render(lines);
    if forall|i: int| 0 <= i < lines.len() ==> strip_cr(#[trigger] lines[i]) == lines[i] {
        assert(lines.map_values(|l: Seq<char>| strip_cr(l)) =~= lines);
    }
}

} // verus!
