//! Line numbering of file contents: every line gets its 1-based number,
//! right-aligned to the width of the largest number, and two spaces.
use vstd::prelude::*;
use crate::text::{
    decimal, decimal_string, lemma_decimal_len_monotonic, lines_of, pad_left, pad_left_string,
    push_char, scan_lines, split_lines, strip_cr,
};

verus! {

/// Line `k` of a numbered text whose numbers are `width` characters wide,
/// without its newline.
pub open spec fn numbered_line(line: Seq<char>, k: nat, width: nat) -> Seq<char> {
    pad_left(decimal(k), width) + seq![' ', ' '] + line
}

/// The first `k` lines of `ls`, numbered and each followed by a newline.
pub open spec fn numbered_lines(ls: Seq<Seq<char>>, width: nat, k: nat) -> Seq<char>
    decreases k,
{
    if k == 0 || k > ls.len() {
        Seq::empty()
    } else {
        numbered_lines(ls, width, (k - 1) as nat) + numbered_line(ls[k - 1], k, width).push('\n')
    }
}

/// The width of the line numbers of a text: the digits of its line count.
pub open spec fn number_width(s: Seq<char>) -> nat {
    decimal(lines_of(s).len()).len()
}

/// `s` with its lines numbered; a text without lines becomes a single newline.
pub open spec fn line_numbered(s: Seq<char>) -> Seq<char> {
    let ls = lines_of(s);
    if ls.len() == 0 {
        seq!['\n']
    } else {
        numbered_lines(ls, number_width(s), ls.len())
    }
}

/// Numbers the lines of `file_content`, right-aligning the numbers to the
/// width of the largest one and ending the result with exactly one newline.
pub fn add_line_numbers(file_content: &str) -> (r: String)
    ensures
        r@ == line_numbered(file_content@),
{
    let lines = split_lines(file_content);
    let total = lines.len();
    let width_text = decimal_string(total as u64);
    let width = width_text.as_str().unicode_len();
    let ghost ls = lines_of(file_content@);
    let mut out = String::new();
    let mut i: usize = 0;
    while i < total
        invariant
            total == lines@.len(),
            total == ls.len(),
            forall|j: int| 0 <= j < total ==> #[trigger] lines@[j]@ == ls[j],
            width == number_width(file_content@),
            ls == lines_of(file_content@),
            i <= total,
            out@ == numbered_lines(ls, width as nat, i as nat),
        decreases total - i,
    {
        let number = decimal_string((i + 1) as u64);
        let mut line = pad_left_string(number.as_str(), width);
        line.append("  ");
        line.append(lines[i].as_str());
        push_char(&mut line, '\n');
        out.append(line.as_str());
        proof {
            reveal_strlit("  ");
            assert(line@ =~= numbered_line(ls[i as int], (i + 1) as nat, width as nat).push('\n'));
        }
        i = i + 1;
    }
    if total == 0 {
        push_char(&mut out, '\n');
        assert(out@ =~= seq!['\n']);
    }
    out
}

/// Counts the lines of `s` as `lines_of` splits them.
pub fn line_count(s: &str) -> (r: usize)
    ensures
        r == lines_of(s@).len(),
{
    split_lines(s).len()
}

/// No line of a text holds a newline character.
pub proof fn lemma_lines_have_no_newline(s: Seq<char>)
    ensures
        forall|i: int, j: int|
            0 <= i < lines_of(s).len() && 0 <= j < lines_of(s)[i].len() ==> lines_of(s)[i][j]
                != '\n',
{
    lemma_scan_has_no_newline(s);
}

proof fn lemma_scan_has_no_newline(s: Seq<char>)
    ensures
        forall|i: int, j: int|
            0 <= i < scan_lines(s).0.len() && 0 <= j < scan_lines(s).0[i].len()
                ==> scan_lines(s).0[i][j] != '\n',
        forall|j: int| 0 <= j < scan_lines(s).1.len() ==> scan_lines(s).1[j] != '\n',
    decreases s.len(),
{
    if s.len() > 0 {
        lemma_scan_has_no_newline(s.drop_last());
        let (done, open) = scan_lines(s.drop_last());
        if s.last() == '\n' {
            let l = strip_cr(open);
            assert forall|j: int| 0 <= j < l.len() implies l[j] != '\n' by {
                assert(l[j] == open[j]);
            }
            assert forall|i: int, j: int|
                0 <= i < done.push(l).len() && 0 <= j < done.push(l)[i].len() implies done.push(
                l,
            )[i][j] != '\n' by {
                if i < done.len() {
                    assert(done.push(l)[i] == done[i]);
                }
            }
        }
    }
}

/// Layout of a numbered text: every number of a text with `N` lines is
/// padded to exactly the number of digits of `N`, and the result ends with
/// exactly one newline.
pub proof fn lemma_numbering_layout(s: Seq<char>)
    ensures
        forall|k: nat|
            1 <= k <= lines_of(s).len() ==> #[trigger] pad_left(decimal(k), number_width(s)).len()
                == number_width(s),
        line_numbered(s).len() >= 1,
        line_numbered(s).last() == '\n',
        line_numbered(s).len() == 1 || line_numbered(s)[line_numbered(s).len() - 2] != '\n',
{
    let ls = lines_of(s);
    let n = ls.len();
    let w = number_width(s);
    assert forall|k: nat| 1 <= k <= n implies #[trigger] pad_left(decimal(k), w).len() == w by {
        lemma_decimal_len_monotonic(k, n);
    }
    if n > 0 {
        lemma_lines_have_no_newline(s);
        let last = numbered_line(ls[n - 1], n, w);
        let out = line_numbered(s);
        assert(out == numbered_lines(ls, w, (n - 1) as nat) + last.push('\n'));
        let prefix = pad_left(decimal(n), w) + seq![' ', ' '];
        assert(last =~= prefix + ls[n - 1]);
        if ls[n - 1].len() > 0 {
            assert(last.last() == ls[n - 1].last());
        } else {
            assert(last.last() == ' ');
        }
        assert(out[out.len() - 2] == last.last());
    }
}

proof fn lemma_decimal_has_no_newline(n: nat)
    ensures
        forall|j: int| 0 <= j < decimal(n).len() ==> decimal(n)[j] != '\n',
    decreases n,
{
    if n >= 10 {
        lemma_decimal_has_no_newline(n / 10);
        assert forall|j: int| 0 <= j < decimal(n).len() implies decimal(n)[j] != '\n' by {
            if j < decimal(n / 10).len() {
                assert(decimal(n)[j] == decimal(n / 10)[j]);
            }
        }
    }
}

proof fn lemma_scan_append_plain(a: Seq<char>, x: Seq<char>)
    requires
        forall|j: int| 0 <= j < x.len() ==> x[j] != '\n',
    ensures
        scan_lines(a + x) == (scan_lines(a).0, scan_lines(a).1 + x),
    decreases x.len(),
{
    if x.len() == 0 {
        assert(a + x =~= a);
        assert(scan_lines(a).1 + x =~= scan_lines(a).1);
    } else {
        lemma_scan_append_plain(a, x.drop_last());
        assert((a + x).drop_last() =~= a + x.drop_last());
        assert((a + x).last() == x.last());
        assert(scan_lines(a).1 + x.drop_last() + seq![x.last()] =~= scan_lines(a).1 + x);
        assert((scan_lines(a).1 + x.drop_last()).push(x.last()) =~= scan_lines(a).1 + x);
    }
}

/// The lines of the first `k` numbered lines, as `lines_of` reads them back.
pub open spec fn numbered_read_back(ls: Seq<Seq<char>>, width: nat, k: nat) -> Seq<Seq<char>> {
    Seq::new(k, |j: int| strip_cr(numbered_line(ls[j], (j + 1) as nat, width)))
}

proof fn lemma_numbered_lines_scan(ls: Seq<Seq<char>>, width: nat, k: nat)
    requires
        k <= ls.len(),
        forall|i: int, j: int| 0 <= i < ls.len() && 0 <= j < ls[i].len() ==> ls[i][j] != '\n',
    ensures
        scan_lines(numbered_lines(ls, width, k)) == (numbered_read_back(ls, width, k), Seq::<char>::empty()),
    decreases k,
{
    if k == 0 {
        assert(numbered_read_back(ls, width, 0) =~= Seq::<Seq<char>>::empty());
    } else {
        lemma_numbered_lines_scan(ls, width, (k - 1) as nat);
        let prev = numbered_lines(ls, width, (k - 1) as nat);
        let line = numbered_line(ls[k - 1], k, width);
        lemma_decimal_has_no_newline(k);
        assert forall|j: int| 0 <= j < line.len() implies line[j] != '\n' by {
            let pad = pad_left(decimal(k), width);
            if j >= pad.len() + 2 {
                assert(line[j] == ls[k - 1][j - pad.len() - 2]);
            } else if j < pad.len() && decimal(k).len() < width {
                if j >= width - decimal(k).len() {
                    assert(pad[j] == decimal(k)[j - (width - decimal(k).len())]);
                }
            }
        }
        lemma_scan_append_plain(prev, line);
        assert(numbered_lines(ls, width, k) == (prev + line).push('\n'));
        assert((prev + line).push('\n').drop_last() =~= prev + line);
        assert(Seq::<char>::empty() + line =~= line);
        assert(numbered_read_back(ls, width, k) =~= numbered_read_back(ls, width, (k - 1) as nat).push(
            strip_cr(line),
        ));
    }
}

/// Read back line by line, a numbered text with `N` lines has `N` lines,
/// and line `i` starts with its number `i + 1` right-aligned to the width of
/// `N`, followed by two spaces.
pub proof fn lemma_numbered_lines_read_back(s: Seq<char>)
    ensures
        lines_of(line_numbered(s)).len() == if lines_of(s).len() == 0 { 1 } else { lines_of(s).len() },
        forall|i: int|
            0 <= i < lines_of(s).len() ==> {
                let out = #[trigger] lines_of(line_numbered(s))[i];
                &&& out.len() >= number_width(s) + 2
                &&& out.take(number_width(s) as int) == pad_left(decimal((i + 1) as nat), number_width(s))
                &&& out.subrange(number_width(s) as int, number_width(s) + 2int) == seq![' ', ' ']
            },
{
    let ls = lines_of(s);
    let n = ls.len();
    let w = number_width(s);
    lemma_lines_have_no_newline(s);
    if n == 0 {
        assert(seq!['\n'].drop_last() =~= Seq::<char>::empty());
        assert(scan_lines(Seq::<char>::empty()) == (Seq::<Seq<char>>::empty(), Seq::<char>::empty()));
        assert(scan_lines(seq!['\n']) == (Seq::<Seq<char>>::empty().push(strip_cr(Seq::<char>::empty())), Seq::<char>::empty()));
    } else {
        lemma_numbered_lines_scan(ls, w, n);
        assert(lines_of(line_numbered(s)) == numbered_read_back(ls, w, n));
        assert forall|i: int| 0 <= i < n implies {
            let out = #[trigger] lines_of(line_numbered(s))[i];
            &&& out.len() >= w + 2
            &&& out.take(w as int) == pad_left(decimal((i + 1) as nat), w)
            &&& out.subrange(w as int, w + 2int) == seq![' ', ' ']
        } by {
            let k = (i + 1) as nat;
            lemma_decimal_len_monotonic(k, n);
            let pad = pad_left(decimal(k), w);
            assert(pad.len() == w);
            let line = numbered_line(ls[i], k, w);
            let out = strip_cr(line);
            assert(lines_of(line_numbered(s))[i] == out);
            if ls[i].len() == 0 {
                assert(line.last() == ' ');
                assert(out == line);
            }
            assert(out.len() >= w + 2);
            assert forall|j: int| 0 <= j < w + 2 implies out[j] == line[j] by {}
            assert(out.take(w as int) =~= pad);
            assert(out.subrange(w as int, w + 2int) =~= seq![' ', ' ']);
        }
    }
}

} // verus!
