//! Small verified text helpers shared by the reflection layer and the
//! source-emission engine.

use vstd::prelude::*;
use vstd::utf8::{decode_utf8, encode_utf8, encode_utf8_decode_utf8};

verus! {

/// Whether two string slices hold the same characters.
pub fn str_eq(a: &str, b: &str) -> (r: bool)
    ensures
        r == (a@ == b@),
{
    proof {
        encode_utf8_decode_utf8(a@);
        encode_utf8_decode_utf8(b@);
    }
    let ab = a.as_bytes();
    let bb = b.as_bytes();
    if ab.len() != bb.len() {
        return false;
    }
    let n = ab.len();
    let mut i: usize = 0;
    while i < n
        invariant
            n == ab@.len() == bb@.len(),
            i <= n,
            ab@ == encode_utf8(a@),
            bb@ == encode_utf8(b@),
            decode_utf8(ab@) == a@,
            decode_utf8(bb@) == b@,
            forall|j: int| 0 <= j < i ==> ab@[j] == bb@[j],
        decreases n - i,
    {
        if ab[i] != bb[i] {
            assert(ab@ != bb@);
            return false;
        }
        i = i + 1;
    }
    assert(ab@ =~= bb@);
    true
}

/// The characters of `parts` glued together with `sep` between
/// neighbours.
pub open spec fn join_text(parts: Seq<Seq<char>>, sep: Seq<char>) -> Seq<char>
    decreases parts.len(),
{
    if parts.len() == 0 {
        Seq::empty()
    } else if parts.len() == 1 {
        parts[0]
    } else {
        parts[0] + sep + join_text(parts.drop_first(), sep)
    }
}

proof fn lemma_join_step(parts: Seq<Seq<char>>, sep: Seq<char>, i: int)
    requires
        1 <= i < parts.len(),
    ensures
        join_text(parts.take(i + 1), sep) == join_text(parts.take(i), sep) + sep + parts[i],
    decreases i,
{
    if i == 1 {
        assert(parts.take(2).drop_first() =~= seq![parts[1]]);
        assert(parts.take(1) =~= seq![parts[0]]);
        assert(join_text(seq![parts[1]], sep) == parts[1]);
        assert(join_text(parts.take(2), sep) =~= join_text(parts.take(1), sep) + sep + parts[1]);
    } else {
        lemma_join_step(parts.drop_first(), sep, i - 1);
        assert(parts.drop_first().take(i) =~= parts.take(i + 1).drop_first());
        assert(parts.drop_first().take(i - 1) =~= parts.take(i).drop_first());
        assert(parts.drop_first()[i - 1] == parts[i]);
        assert(join_text(parts.take(i + 1), sep) =~= join_text(parts.take(i), sep) + sep
            + parts[i]);
    }
}

/// Glues the given string slices together with `sep` between neighbours.
pub fn join_strs(parts: &[&str], sep: &str) -> (r: String)
    ensures
        r@ == join_text(parts@.map_values(|p: &str| p@), sep@),
{
    let ghost views = parts@.map_values(|p: &str| p@);
    let mut r = String::new();
    let n = parts.len();
    let mut i: usize = 0;
    while i < n
        invariant
            n == parts@.len(),
            i <= n,
            views == parts@.map_values(|p: &str| p@),
            r@ == join_text(views.take(i as int), sep@),
        decreases n - i,
    {
        if i > 0 {
            r.append(sep);
            proof {
                lemma_join_step(views, sep@, i as int);
            }
        } else {
            assert(views.take(1) =~= seq![views[0]]);
        }
        r.append(parts[i]);
        i = i + 1;
    }
    assert(views.take(n as int) =~= views);
    r
}

/// The index of the first newline at or after `from`, or the text's
/// length when none remains.
pub open spec fn find_newline(s: Seq<char>, from: int) -> int
    decreases s.len() - from,
{
    if !(0 <= from < s.len()) {
        s.len() as int
    } else if s[from] == '\n' {
        from
    } else {
        find_newline(s, from + 1)
    }
}

proof fn lemma_find_newline_at(s: Seq<char>, from: int, j: int)
    requires
        0 <= from <= j < s.len(),
        s[j] == '\n',
        forall|k: int| from <= k < j ==> s[k] != '\n',
    ensures
        find_newline(s, from) == j,
    decreases j - from,
{
    if from < j {
        lemma_find_newline_at(s, from + 1, j);
    }
}

proof fn lemma_find_newline_none(s: Seq<char>, from: int)
    requires
        0 <= from,
        forall|k: int| from <= k < s.len() ==> s[k] != '\n',
    ensures
        find_newline(s, from) == s.len(),
    decreases s.len() - from,
{
    if from < s.len() {
        lemma_find_newline_none(s, from + 1);
    }
}

/// A line with its trailing carriage return removed, if it carries one.
pub open spec fn strip_cr(l: Seq<char>) -> Seq<char> {
    if l.len() > 0 && l[l.len() - 1] == '\r' {
        l.drop_last()
    } else {
        l
    }
}

/// The lines of `s`: the text split at each newline, a trailing carriage
/// return removed from each line, and no empty line after a final
/// newline.
pub open spec fn spec_lines(s: Seq<char>) -> Seq<Seq<char>>
    decreases s.len(),
{
    if s.len() == 0 {
        Seq::empty()
    } else {
        let i = find_newline(s, 0);
        if !(0 <= i < s.len()) {
            seq![strip_cr(s)]
        } else {
            seq![strip_cr(s.take(i))] + spec_lines(s.skip(i + 1))
        }
    }
}

proof fn lemma_lines_step(t: Seq<char>, start: int, i: int)
    requires
        0 <= start <= i < t.len(),
        t[i] == '\n',
        forall|k: int| start <= k < i ==> t[k] != '\n',
    ensures
        spec_lines(t.skip(start)) == seq![strip_cr(t.subrange(start, i))] + spec_lines(
            t.skip(i + 1),
        ),
{
    let u = t.skip(start);
    assert(u[i - start] == '\n');
    assert(forall|k: int| 0 <= k < i - start ==> u[k] == t[start + k] && u[k] != '\n');
    lemma_find_newline_at(u, 0, i - start);
    assert(u.take(i - start) =~= t.subrange(start, i));
    assert(u.skip(i - start + 1) =~= t.skip(i + 1));
}

proof fn lemma_lines_last(t: Seq<char>, start: int)
    requires
        0 <= start < t.len(),
        forall|k: int| start <= k < t.len() ==> t[k] != '\n',
    ensures
        spec_lines(t.skip(start)) == seq![strip_cr(t.skip(start))],
{
    let u = t.skip(start);
    assert(forall|k: int| 0 <= k < u.len() ==> u[k] == t[start + k] && u[k] != '\n');
    lemma_find_newline_none(u, 0);
}

/// One line of `s`, from char `start` up to char `end`, with a trailing
/// carriage return removed.
fn line_of(s: &str, start: usize, end: usize) -> (r: String)
    requires
        start <= end <= s@.len(),
    ensures
        r@ == strip_cr(s@.subrange(start as int, end as int)),
{
    if end > start {
        let last = s.get_char(end - 1);
        if last == '\r' {
            let piece = s.substring_char(start, end - 1);
            assert(s@.subrange(start as int, end - 1) =~= s@.subrange(
                start as int,
                end as int,
            ).drop_last());
            return String::from_str(piece);
        }
    }
    let piece = s.substring_char(start, end);
    String::from_str(piece)
}

/// The lines of `s`, per `spec_lines`.
pub fn split_lines(s: &str) -> (r: Vec<String>)
    ensures
        r@.map_values(|l: String| l@) == spec_lines(s@),
{
    let n = s.unicode_len();
    let mut r: Vec<String> = Vec::new();
    let mut start: usize = 0;
    let mut i: usize = 0;
    proof {
        assert(s@.skip(0) =~= s@);
        assert(r@.map_values(|l: String| l@) =~= Seq::<Seq<char>>::empty());
        assert(r@.map_values(|l: String| l@) + spec_lines(s@) =~= spec_lines(s@));
    }
    while i < n
        invariant
            n == s@.len(),
            start <= i <= n,
            forall|k: int| start <= k < i ==> s@[k] != '\n',
            spec_lines(s@) == r@.map_values(|l: String| l@) + spec_lines(s@.skip(start as int)),
        decreases n - i,
    {
        let c = s.get_char(i);
        if c == '\n' {
            let ghost prefix = r@.map_values(|l: String| l@);
            let line = line_of(s, start, i);
            r.push(line);
            proof {
                lemma_lines_step(s@, start as int, i as int);
                assert(r@.map_values(|l: String| l@) =~= prefix.push(line@));
                assert(prefix.push(line@) + spec_lines(s@.skip(i + 1)) =~= prefix + (seq![
                    strip_cr(s@.subrange(start as int, i as int)),
                ] + spec_lines(s@.skip(i + 1))));
            }
            start = i + 1;
        }
        i = i + 1;
    }
    if start < n {
        let ghost prefix = r@.map_values(|l: String| l@);
        let line = line_of(s, start, n);
        r.push(line);
        proof {
            lemma_lines_last(s@, start as int);
            assert(s@.subrange(start as int, n as int) =~= s@.skip(start as int));
            assert(r@.map_values(|l: String| l@) =~= prefix.push(line@));
            assert(prefix.push(line@) =~= prefix + seq![strip_cr(s@.skip(start as int))]);
        }
    } else {
        proof {
            assert(s@.skip(start as int) =~= Seq::<char>::empty());
            assert(spec_lines(Seq::<char>::empty()) =~= Seq::<Seq<char>>::empty());
            assert(r@.map_values(|l: String| l@) =~= r@.map_values(|l: String| l@) + spec_lines(
                s@.skip(start as int),
            ));
        }
    }
    r
}

} // verus!
