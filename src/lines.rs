//! Splitting a process's standard output into lines.
use vstd::prelude::*;

verus! {

/// A line feed.
pub const LF: u8 = 10;

/// A carriage return.
pub const CR: u8 = 13;

/// A line without the carriage return that ends it, if it has one.
pub open spec fn drop_cr(line: Seq<u8>) -> Seq<u8> {
    if line.len() > 0 && line.last() == CR {
        line.drop_last()
    } else {
        line
    }
}

/// The lines of `rest`, `current` being what was read of the first one so far.
pub open spec fn lines_from(current: Seq<u8>, rest: Seq<u8>) -> Seq<Seq<u8>>
    decreases rest.len(),
{
    if rest.len() == 0 {
        if current.len() == 0 {
            Seq::empty()
        } else {
            seq![current]
        }
    } else if rest[0] == LF {
        seq![drop_cr(current)] + lines_from(Seq::empty(), rest.drop_first())
    } else {
        lines_from(current.push(rest[0]), rest.drop_first())
    }
}

/// The lines of `text`: the pieces between line feeds, each without a carriage
/// return just before its line feed. A line feed at the very end closes the
/// last line and opens no empty one.
pub open spec fn lines_of(text: Seq<u8>) -> Seq<Seq<u8>> {
    lines_from(Seq::empty(), text)
}

/// The text of a byte string read as UTF-8, each invalid sequence replaced by
/// U+FFFD.
pub uninterp spec fn utf8_lossy_of(bytes: Seq<u8>) -> Seq<char>;

/// The decoded lines of a process's output.
pub open spec fn output_lines_of(stdout: Seq<u8>) -> Seq<Seq<char>> {
    lines_of(stdout).map_values(|l: Seq<u8>| utf8_lossy_of(l))
}

/// Relies on `String::from_utf8_lossy`: the text depends on the bytes alone.
#[verifier::external_body]
fn decode_lossy(bytes: &Vec<u8>) -> (r: String)
    ensures
        r@ == utf8_lossy_of(bytes@),
{
    String::from_utf8_lossy(bytes).into_owned()
}

fn copy_line(text: &Vec<u8>, start: usize, end: usize) -> (r: Vec<u8>)
    requires
        start <= end <= text.len(),
    ensures
        r@ == text@.subrange(start as int, end as int),
{
    let mut r: Vec<u8> = Vec::new();
    let mut i: usize = start;
    while i < end
        invariant
            start <= i <= end <= text.len(),
            r@ == text@.subrange(start as int, i as int),
        decreases end - i,
    {
        r.push(text[i]);
        proof {
            assert(text@.subrange(start as int, i + 1) =~= text@.subrange(
                start as int,
                i as int,
            ).push(text@[i as int]));
        }
        i = i + 1;
    }
    r
}

/// Splits `text` into its lines; see [`lines_of`].
pub fn split_lines(text: &Vec<u8>) -> (r: Vec<Vec<u8>>)
    ensures
        r.deep_view() == lines_of(text@),
{
    let mut out: Vec<Vec<u8>> = Vec::new();
    let mut start: usize = 0;
    let mut i: usize = 0;
    proof {
        assert(out.deep_view() =~= Seq::<Seq<u8>>::empty());
        assert(text@.subrange(0, text.len() as int) =~= text@);
        assert(text@.subrange(0, 0) =~= Seq::<u8>::empty());
    }
    while i < text.len()
        invariant
            start <= i <= text.len(),
            lines_of(text@) == out.deep_view() + lines_from(
                text@.subrange(start as int, i as int),
                text@.subrange(i as int, text.len() as int),
            ),
        decreases text.len() - i,
    {
        let ghost rest = text@.subrange(i as int, text.len() as int);
        let ghost current = text@.subrange(start as int, i as int);
        assert(rest.drop_first() =~= text@.subrange(i + 1, text.len() as int));
        if text[i] == LF {
            let end = if i > start && text[i - 1] == CR {
                i - 1
            } else {
                i
            };
            let line = copy_line(text, start, end);
            let ghost before = out.deep_view();
            out.push(line);
            proof {
                assert(line.deep_view() =~= line@);
                assert(line@ =~= drop_cr(current));
                assert(out.deep_view() =~= before.push(line@));
                assert(text@.subrange(i + 1, i + 1) =~= Seq::<u8>::empty());
                assert(before + (seq![drop_cr(current)] + lines_from(
                    Seq::empty(),
                    rest.drop_first(),
                )) =~= before.push(line@) + lines_from(Seq::empty(), rest.drop_first()));
            }
            start = i + 1;
        } else {
            proof {
                assert(current.push(rest[0]) =~= text@.subrange(start as int, i + 1));
            }
        }
        i = i + 1;
    }
    if start < text.len() {
        let line = copy_line(text, start, text.len());
        let ghost before = out.deep_view();
        out.push(line);
        proof {
            assert(line.deep_view() =~= line@);
            assert(out.deep_view() =~= before.push(line@));
            assert(text@.subrange(i as int, text.len() as int) =~= Seq::<u8>::empty());
        }
    } else {
        proof {
            assert(text@.subrange(start as int, i as int) =~= Seq::<u8>::empty());
            assert(out.deep_view() + Seq::<Seq<u8>>::empty() =~= out.deep_view());
        }
    }
    out
}

/// The lines of a process's output, each decoded from UTF-8.
pub fn output_lines(stdout: &Vec<u8>) -> (r: Vec<String>)
    ensures
        r.deep_view() == output_lines_of(stdout@),
{
    let lines = split_lines(stdout);
    let mut out: Vec<String> = Vec::new();
    let mut i: usize = 0;
    while i < lines.len()
        invariant
            i <= lines.len(),
            lines.deep_view() == lines_of(stdout@),
            out.deep_view() =~= lines_of(stdout@).subrange(0, i as int).map_values(
                |l: Seq<u8>| utf8_lossy_of(l),
            ),
        decreases lines.len() - i,
    {
        let text = decode_lossy(&lines[i]);
        let ghost before = out.deep_view();
        out.push(text);
        proof {
            assert(lines[i as int].deep_view() =~= lines[i as int]@);
            assert(lines.deep_view()[i as int] == lines[i as int]@);
            assert(out.deep_view() =~= before.push(text@));
        }
        i = i + 1;
    }
    proof {
        assert(lines_of(stdout@).subrange(0, i as int) =~= lines_of(stdout@));
    }
    out
}

} // verus!
