use vstd::prelude::*;
use vstd::string::StringExecFns;

verus! {

/// Unicode's White_Space property, which `\s` matches.
pub open spec fn is_white_space(c: char) -> bool {
    let u = c as u32;
    (0x09 <= u <= 0x0d) || u == 0x20 || u == 0x85 || u == 0xa0 || u == 0x1680
        || (0x2000 <= u <= 0x200a) || u == 0x2028 || u == 0x2029 || u == 0x202f
        || u == 0x205f || u == 0x3000
}

/// A line that opens a table block: the whole line is a bracketed name of
/// one or more characters, none of them white space or a bracket.
pub open spec fn is_table_header(line: Seq<char>) -> bool {
    &&& line.len() >= 3
    &&& line[0] == '['
    &&& line[line.len() - 1] == ']'
    &&& forall|k: int|
        1 <= k < line.len() - 1 ==> !is_white_space(#[trigger] line[k]) && line[k] != '[' && line[k] != ']'
}

/// Relies on `regex::Regex::new` and `Regex::is_match`: the table-header
/// pattern compiles, and matches a line exactly when the whole line is a
/// bracketed name free of white space and brackets.
#[verifier::external_body]
fn regex_is_match(pattern: &str, text: &str) -> (r: Option<bool>)
    ensures
        pattern@ == "^\\[[^\\s\\[\\]]+\\]$"@ ==> r == Some(is_table_header(text@)),
{
    match regex::Regex::new(pattern) {
        Ok(re) => Some(re.is_match(text)),
        Err(_) => None,
    }
}

/// Whether `line` opens a table block.
pub fn table_header_line(line: &str) -> (r: bool)
    ensures
        r == is_table_header(line@),
{
    match regex_is_match("^\\[[^\\s\\[\\]]+\\]$", line) {
        Some(b) => b,
        None => false,
    }
}

/// One line fed to the segmenter holding `buf` (empty when no table block is
/// open): the new buffer, and the fragment completed by this line, if any.
pub open spec fn segment_step(buf: Seq<char>, line: Seq<char>) -> (Seq<char>, Option<Seq<char>>) {
    if buf.len() > 0 {
        if line.len() == 0 {
            (Seq::empty(), Some(buf))
        } else {
            (buf + seq!['\n'] + line, None)
        }
    } else if line.len() == 0 {
        (Seq::empty(), None)
    } else if is_table_header(line) {
        (line, None)
    } else {
        (Seq::empty(), Some(line))
    }
}

/// The buffer left open and the fragments completed after `lines`.
pub open spec fn segment_scan(lines: Seq<Seq<char>>) -> (Seq<char>, Seq<Seq<char>>)
    decreases lines.len(),
{
    if lines.len() == 0 {
        (Seq::empty(), Seq::empty())
    } else {
        let (buf, done) = segment_scan(lines.drop_last());
        let (next, out) = segment_step(buf, lines.last());
        (next, match out {
            Some(f) => done.push(f),
            None => done,
        })
    }
}

/// The fragments of a whole input: those completed line by line, then the
/// table block still open at the end, if any.
pub open spec fn fragments(lines: Seq<Seq<char>>) -> Seq<Seq<char>> {
    let (buf, done) = segment_scan(lines);
    if buf.len() > 0 {
        done.push(buf)
    } else {
        done
    }
}

/// Lines joined by newlines.
pub open spec fn join_lines(lines: Seq<Seq<char>>) -> Seq<char>
    decreases lines.len(),
{
    if lines.len() <= 1 {
        if lines.len() == 1 { lines[0] } else { Seq::empty() }
    } else {
        join_lines(lines.drop_last()) + seq!['\n'] + lines.last()
    }
}

/// A table block whose header line is followed only by non-blank lines is
/// still open after them, holding all of them joined.
proof fn lemma_scan_open_block(lines: Seq<Seq<char>>)
    requires
        lines.len() >= 1,
        is_table_header(lines[0]),
        forall|i: int| 1 <= i < lines.len() ==> (#[trigger] lines[i]).len() > 0,
    ensures
        segment_scan(lines) == (join_lines(lines), Seq::<Seq<char>>::empty()),
        join_lines(lines).len() > 0,
    decreases lines.len(),
{
    if lines.len() > 1 {
        let rest = lines.drop_last();
        assert forall|i: int| 1 <= i < rest.len() implies (#[trigger] rest[i]).len() > 0 by {
            assert(rest[i] == lines[i]);
        }
        lemma_scan_open_block(rest);
        assert(lines.last() == lines[lines.len() - 1]);
        assert(lines.last().len() > 0);
        assert(segment_step(join_lines(rest), lines.last()) == (join_lines(lines), None::<Seq<char>>));
    } else {
        assert(lines.drop_last() =~= Seq::<Seq<char>>::empty());
        assert(segment_scan(lines.drop_last()) == (Seq::<char>::empty(), Seq::<Seq<char>>::empty()));
        assert(lines.last() == lines[0]);
        assert(segment_step(Seq::<char>::empty(), lines[0]) == (lines[0], None::<Seq<char>>));
    }
}

/// At the end of the input, an open table block is emitted without waiting
/// for a blank line: a header line followed only by non-blank lines makes
/// one fragment of all of them.
pub proof fn lemma_open_block_flushed(lines: Seq<Seq<char>>)
    requires
        lines.len() >= 1,
        is_table_header(lines[0]),
        forall|i: int| 1 <= i < lines.len() ==> (#[trigger] lines[i]).len() > 0,
    ensures
        fragments(lines) == seq![join_lines(lines)],
{
    lemma_scan_open_block(lines);
    assert(Seq::<Seq<char>>::empty().push(join_lines(lines)) =~= seq![join_lines(lines)]);
}

/// A blank line after the last line changes no fragment: a table block
/// still open at the end of the input is emitted just as a blank line would
/// have closed it.
pub proof fn lemma_blank_line_closes(lines: Seq<Seq<char>>)
    ensures
        fragments(lines.push(Seq::empty())) == fragments(lines),
{
    let more = lines.push(Seq::<char>::empty());
    assert(more.drop_last() =~= lines);
    assert(more.last() =~= Seq::<char>::empty());
}

/// The text of each string.
pub open spec fn texts(v: Seq<String>) -> Seq<Seq<char>> {
    v.map_values(|s: String| s@)
}

/// Groups input lines into fragments, each holding one top-level entry: a
/// single line, or a table block that runs from its header line up to a
/// blank line or the end of the input.
pub fn segment_lines(lines: &Vec<String>) -> (r: Vec<String>)
    ensures
        texts(r@) == fragments(texts(lines@)),
{
    proof {
        reveal_strlit("");
    }
    let mut done: Vec<String> = Vec::new();
    let mut buf = String::from_str("");
    let mut i: usize = 0;
    while i < lines.len()
        invariant
            i <= lines@.len(),
            segment_scan(texts(lines@).subrange(0, i as int)) == (buf@, texts(done@)),
        decreases lines@.len() - i,
    {
        let line = &lines[i];
        let ghost prefix = texts(lines@).subrange(0, i as int);
        let ghost next = texts(lines@).subrange(0, i as int + 1);
        assert(next.drop_last() =~= prefix);
        assert(next.last() == line@);
        let ghost done0 = texts(done@);
        let ghost buf0 = buf@;
        if !buf.as_str().is_empty() {
            if line.as_str().is_empty() {
                done.push(buf);
                assert(texts(done@) =~= done0.push(segment_scan(prefix).0));
                proof {
                    reveal_strlit("");
                }
                buf = String::from_str("");
            } else {
                buf.append("\n");
                proof {
                    reveal_strlit("\n");
                }
                buf.append(line.as_str());
                assert(buf@ =~= buf0 + seq!['\n'] + line@);
            }
        } else if !line.as_str().is_empty() {
            if table_header_line(line.as_str()) {
                buf = line.clone();
            } else {
                done.push(line.clone());
                assert(texts(done@) =~= done0.push(line@));
            }
        }
        assert(texts(done@) =~= segment_scan(next).1);
        assert(buf@ =~= segment_scan(next).0);
        i = i + 1;
    }
    assert(texts(lines@).subrange(0, i as int) =~= texts(lines@));
    let ghost done0 = texts(done@);
    if !buf.as_str().is_empty() {
        done.push(buf);
        assert(texts(done@) =~= done0.push(segment_scan(texts(lines@)).0));
    }
    assert(texts(done@) =~= fragments(texts(lines@)));
    done
}

} // verus!
