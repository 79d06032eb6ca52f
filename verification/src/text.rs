//! Building text: decimal rendering of integers and character-level string growth.
use vstd::prelude::*;

verus! {

/// The ASCII digit for `d` (expected to be below ten).
pub open spec fn digit_char(d: int) -> char {
    if d == 0 {
        '0'
    } else if d == 1 {
        '1'
    } else if d == 2 {
        '2'
    } else if d == 3 {
        '3'
    } else if d == 4 {
        '4'
    } else if d == 5 {
        '5'
    } else if d == 6 {
        '6'
    } else if d == 7 {
        '7'
    } else if d == 8 {
        '8'
    } else {
        '9'
    }
}

/// Decimal digits of a natural number, most significant first, without leading zeros.
pub open spec fn nat_decimal(n: nat) -> Seq<char>
    decreases n,
{
    if n < 10 {
        seq![digit_char(n as int)]
    } else {
        nat_decimal(n / 10).push(digit_char((n % 10) as int))
    }
}

/// Decimal rendering of an integer, with a leading `-` for negative values.
pub open spec fn int_decimal(n: int) -> Seq<char> {
    if n < 0 {
        seq!['-'] + nat_decimal((-n) as nat)
    } else {
        nat_decimal(n as nat)
    }
}

/// Appends one character to a string.
///
/// Trusted: calls `String::push`, which by its documentation appends the
/// character to the end of the string.
#[verifier::external_body]
pub fn push_char(s: &mut String, c: char)
    ensures
        final(s)@ == old(s)@.push(c),
{
    s.push(c);
}

fn digit(d: u64) -> (c: char)
    requires
        d < 10,
    ensures
        c == digit_char(d as int),
{
    match d {
        0 => '0',
        1 => '1',
        2 => '2',
        3 => '3',
        4 => '4',
        5 => '5',
        6 => '6',
        7 => '7',
        8 => '8',
        _ => '9',
    }
}

/// Appends the decimal digits of `n`.
pub fn push_nat_decimal(s: &mut String, n: u64)
    ensures
        final(s)@ == old(s)@ + nat_decimal(n as nat),
    decreases n,
{
    if n >= 10 {
        push_nat_decimal(s, n / 10);
    }
    let c = digit(n % 10);
    push_char(s, c);
    proof {
        if n < 10 {
            assert(n % 10 == n);
            assert(old(s)@.push(c) =~= old(s)@ + nat_decimal(n as nat));
        } else {
            assert((old(s)@ + nat_decimal((n / 10) as nat)).push(c) =~= old(s)@ + nat_decimal(
                n as nat,
            ));
        }
    }
}

/// Appends the decimal rendering of `n` (as `Display` writes it).
pub fn push_int_decimal(s: &mut String, n: i64)
    ensures
        final(s)@ == old(s)@ + int_decimal(n as int),
{
    if n < 0 {
        push_char(s, '-');
        let m: u64 = (-(n as i128)) as u64;
        push_nat_decimal(s, m);
        proof {
            assert(old(s)@.push('-') + nat_decimal(m as nat) =~= old(s)@ + (seq!['-']
                + nat_decimal(m as nat)));
        }
    } else {
        let m: u64 = n as u64;
        push_nat_decimal(s, m);
    }
}

/// The character with the given scalar value, if there is one.
///
/// Trusted: calls `char::from_u32`, which by its documentation returns `Some` exactly
/// for values up to `0x10FFFF` outside the surrogate range `0xD800..=0xDFFF`, holding the
/// character with that value.
#[verifier::external_body]
pub fn char_from_u32(code: u32) -> (r: Option<char>)
    ensures
        r is Some <==> (code <= 0x10FFFF && !(0xD800 <= code <= 0xDFFF)),
        r matches Some(c) ==> c as u32 == code,
{
    char::from_u32(code)
}

/// Lines joined with a newline between consecutive ones.
pub open spec fn join_lines(lines: Seq<Seq<char>>) -> Seq<char>
    decreases lines.len(),
{
    if lines.len() == 0 {
        seq![]
    } else if lines.len() == 1 {
        lines[0]
    } else {
        join_lines(lines.drop_last()) + seq!['\n'] + lines.last()
    }
}

/// Appending a line to joined lines.
pub proof fn lemma_join_lines_push(lines: Seq<Seq<char>>, line: Seq<char>)
    ensures
        join_lines(lines.push(line)) == if lines.len() == 0 {
            line
        } else {
            join_lines(lines) + seq!['\n'] + line
        },
{
    assert(lines.push(line).drop_last() =~= lines);
}

/// `n` copies of a character.
pub open spec fn repeat_char(c: char, n: nat) -> Seq<char> {
    Seq::new(n, |_i: int| c)
}

/// A block of `height` lines, each holding `width` copies of `c`.
pub open spec fn uniform_lines(c: char, width: nat, height: nat) -> Seq<Seq<char>> {
    Seq::new(height, |_i: int| repeat_char(c, width))
}

/// Builds `height` lines of `width` copies of `c`, joined by newlines.
pub fn uniform_block(c: char, width: usize, height: usize) -> (s: String)
    ensures
        s@ == join_lines(uniform_lines(c, width as nat, height as nat)),
{
    let mut row = String::new();
    let mut j: usize = 0;
    while j < width
        invariant
            j <= width,
            row@ == repeat_char(c, j as nat),
        decreases width - j,
    {
        push_char(&mut row, c);
        j += 1;
        assert(row@ =~= repeat_char(c, j as nat));
    }
    let mut s = String::new();
    let mut i: usize = 0;
    while i < height
        invariant
            i <= height,
            row@ == repeat_char(c, width as nat),
            s@ == join_lines(uniform_lines(c, width as nat, i as nat)),
        decreases height - i,
    {
        proof {
            lemma_join_lines_push(uniform_lines(c, width as nat, i as nat), row@);
            assert(uniform_lines(c, width as nat, i as nat).push(row@) =~= uniform_lines(
                c,
                width as nat,
                (i + 1) as nat,
            ));
        }
        if i > 0 {
            push_char(&mut s, '\n');
        }
        s.append(row.as_str());
        i += 1;
    }
    s
}

/// The pieces of a string between its newlines (one more than the number of newlines).
pub open spec fn split_newlines(s: Seq<char>) -> Seq<Seq<char>>
    decreases s.len(),
{
    if s.len() == 0 {
        seq![seq![]]
    } else {
        let parts = split_newlines(s.drop_last());
        if s.last() == '\n' {
            parts.push(seq![])
        } else {
            parts.update(parts.len() - 1, parts.last().push(s.last()))
        }
    }
}

/// A line without the carriage return that ended it.
pub open spec fn strip_cr(line: Seq<char>) -> Seq<char> {
    if line.len() > 0 && line.last() == '\r' {
        line.drop_last()
    } else {
        line
    }
}

/// The lines of a string as `str::lines` gives them: split at newlines, a carriage
/// return before a newline dropped, and no empty line after a final newline.
pub open spec fn std_lines(s: Seq<char>) -> Seq<Seq<char>> {
    let parts = split_newlines(s);
    let ended = parts.drop_last().map_values(|p: Seq<char>| strip_cr(p));
    if parts.last().len() == 0 {
        ended
    } else {
        ended.push(parts.last())
    }
}

/// Pairs of lines, each left line followed by the right line, as far as both go.
pub open spec fn zip_concat(a: Seq<Seq<char>>, b: Seq<Seq<char>>) -> Seq<Seq<char>> {
    Seq::new(
        if a.len() <= b.len() {
            a.len()
        } else {
            b.len()
        },
        |i: int| a[i] + b[i],
    )
}

/// The lines of `s`, as `str::lines` gives them.
fn lines_of(s: &str) -> (lines: Vec<Vec<char>>)
    ensures
        lines@.map_values(|v: Vec<char>| v@) == std_lines(s@),
{
    let n = s.unicode_len();
    let mut done: Vec<Vec<char>> = Vec::new();
    let mut cur: Vec<char> = Vec::new();
    let mut i: usize = 0;
    while i < n
        invariant
            i <= n,
            n == s@.len(),
            split_newlines(s@.take(i as int)).len() >= 1,
            done@.len() + 1 == split_newlines(s@.take(i as int)).len(),
            done@.map_values(|v: Vec<char>| v@) == split_newlines(s@.take(i as int)).drop_last().map_values(
                |p: Seq<char>| strip_cr(p),
            ),
            cur@ == split_newlines(s@.take(i as int)).last(),
            done@.len() <= i,
        decreases n - i,
    {
        let c = s.get_char(i);
        let ghost pre = s@.take(i as int);
        let ghost parts = split_newlines(pre);
        assert(s@.take(i + 1).drop_last() =~= pre);
        if c == '\n' {
            let ghost piece = cur@;
            if cur.len() > 0 && cur[cur.len() - 1] == '\r' {
                cur.pop();
            }
            assert(cur@ == strip_cr(piece));
            let ghost old_done = done@;
            let ghost cur_view = cur@;
            done.push(cur);
            cur = Vec::new();
            proof {
                let np = split_newlines(s@.take(i + 1));
                assert(np == parts.push(seq![]));
                assert(np.drop_last() =~= parts);
                assert(parts =~= parts.drop_last().push(piece));
                assert(done@ == old_done.push(done@.last()));
                assert(done@.last()@ == cur_view);
                assert(done@.map_values(|v: Vec<char>| v@) =~= old_done.map_values(|v: Vec<char>| v@).push(cur_view));
                assert(parts.map_values(|p: Seq<char>| strip_cr(p)) =~= parts.drop_last().map_values(|p: Seq<char>| strip_cr(p)).push(strip_cr(piece)));
                assert(done@.map_values(|v: Vec<char>| v@) =~= np.drop_last().map_values(
                    |p: Seq<char>| strip_cr(p),
                ));
            }
        } else {
            cur.push(c);
            proof {
                let np = split_newlines(s@.take(i + 1));
                assert(np == parts.update(parts.len() - 1, parts.last().push(c)));
                assert(np.drop_last() =~= parts.drop_last());
            }
        }
        i += 1;
    }
    assert(s@.take(n as int) =~= s@);
    if cur.len() > 0 {
        done.push(cur);
        assert(done@.map_values(|v: Vec<char>| v@) =~= std_lines(s@));
    } else {
        assert(done@.map_values(|v: Vec<char>| v@) =~= std_lines(s@));
    }
    done
}

/// Puts two blocks of lines side by side: each line of `left` followed by the matching
/// line of `right`.
pub fn join_str_blocks_v(left: String, right: String) -> (s: String)
    requires
        split_newlines(left@).len() == split_newlines(right@).len(),
    ensures
        s@ == join_lines(zip_concat(std_lines(left@), std_lines(right@))),
{
    let l = lines_of(left.as_str());
    let r = lines_of(right.as_str());
    let ghost ls = l@.map_values(|v: Vec<char>| v@);
    let ghost rs = r@.map_values(|v: Vec<char>| v@);
    let ghost zipped = zip_concat(ls, rs);
    let n = if l.len() <= r.len() {
        l.len()
    } else {
        r.len()
    };
    let mut s = String::new();
    let mut i: usize = 0;
    while i < n
        invariant
            i <= n,
            n <= l@.len(),
            n <= r@.len(),
            zipped.len() == n,
            ls == l@.map_values(|v: Vec<char>| v@),
            rs == r@.map_values(|v: Vec<char>| v@),
            zipped == zip_concat(ls, rs),
            s@ == join_lines(zipped.take(i as int)),
        decreases n - i,
    {
        proof {
            assert(zipped.take(i + 1) =~= zipped.take(i as int).push(zipped[i as int]));
            lemma_join_lines_push(zipped.take(i as int), zipped[i as int]);
        }
        if i > 0 {
            push_char(&mut s, '\n');
        }
        let ghost before = s@;
        let mut j: usize = 0;
        while j < l[i].len()
            invariant
                i < n <= l@.len(),
                j <= l@[i as int]@.len(),
                s@ == before + l@[i as int]@.take(j as int),
            decreases l@[i as int]@.len() - j,
        {
            push_char(&mut s, l[i][j]);
            j += 1;
            assert(s@ =~= before + l@[i as int]@.take(j as int));
        }
        assert(l@[i as int]@.take(j as int) =~= l@[i as int]@);
        let ghost middle = s@;
        let mut k: usize = 0;
        while k < r[i].len()
            invariant
                i < n <= r@.len(),
                k <= r@[i as int]@.len(),
                s@ == middle + r@[i as int]@.take(k as int),
            decreases r@[i as int]@.len() - k,
        {
            push_char(&mut s, r[i][k]);
            k += 1;
            assert(s@ =~= middle + r@[i as int]@.take(k as int));
        }
        assert(r@[i as int]@.take(k as int) =~= r@[i as int]@);
        assert(zipped[i as int] == ls[i as int] + rs[i as int]);
        assert(s@ =~= join_lines(zipped.take(i + 1)));
        i += 1;
    }
    assert(zipped.take(n as int) =~= zipped);
    s
}

/// `part` occurs in `text` as a contiguous run of characters.
pub open spec fn contains_infix(text: Seq<char>, part: Seq<char>) -> bool {
    exists|k: int|
        0 <= k && k + part.len() <= text.len() && #[trigger] text.subrange(k, k + part.len()) == part
}

proof fn lemma_infix_extend(a: Seq<char>, b: Seq<char>, part: Seq<char>)
    requires
        contains_infix(a, part),
    ensures
        contains_infix(a + b, part),
{
    let k = choose|k: int|
        0 <= k && k + part.len() <= a.len() && #[trigger] a.subrange(k, k + part.len()) == part;
    assert((a + b).subrange(k, k + part.len()) =~= a.subrange(k, k + part.len()));
}

/// Joined lines start with the first line, and hold every later line (and every pair of
/// consecutive later lines) after a newline.
pub proof fn lemma_join_lines_parts(lines: Seq<Seq<char>>)
    requires
        lines.len() >= 1,
    ensures
        join_lines(lines).len() >= lines[0].len(),
        join_lines(lines).take(lines[0].len() as int) == lines[0],
        forall|i: int|
            1 <= i < lines.len() ==> contains_infix(join_lines(lines), seq!['\n'] + #[trigger] lines[i]),
        forall|i: int|
            1 <= i && i + 1 < lines.len() ==> contains_infix(
                join_lines(lines),
                seq!['\n'] + #[trigger] lines[i] + seq!['\n'] + lines[i + 1],
            ),
    decreases lines.len(),
{
    if lines.len() > 1 {
        let init = lines.drop_last();
        let last = lines.last();
        let j = join_lines(lines);
        lemma_join_lines_parts(init);
        assert(j == join_lines(init) + seq!['\n'] + last);
        assert(j =~= join_lines(init) + (seq!['\n'] + last));
        assert(j.take(lines[0].len() as int) =~= join_lines(init).take(lines[0].len() as int));
        assert forall|i: int| 1 <= i < lines.len() implies contains_infix(
            j,
            seq!['\n'] + #[trigger] lines[i],
        ) by {
            if i == lines.len() - 1 {
                let part = seq!['\n'] + lines[i];
                let k = join_lines(init).len() as int;
                assert(lines[i] == last);
                assert(j =~= join_lines(init) + part);
                assert(j.subrange(k, k + part.len()) =~= part);
                assert(contains_infix(j, part));
            } else {
                assert(init[i] == lines[i]);
                assert(contains_infix(join_lines(init), seq!['\n'] + init[i]));
                lemma_infix_extend(join_lines(init), seq!['\n'] + last, seq!['\n'] + lines[i]);
            }
        }
        assert forall|i: int| 1 <= i && i + 1 < lines.len() implies contains_infix(
            j,
            seq!['\n'] + #[trigger] lines[i] + seq!['\n'] + lines[i + 1],
        ) by {
            let part = seq!['\n'] + lines[i] + seq!['\n'] + lines[i + 1];
            if i + 1 == lines.len() - 1 {
                let prev = init.drop_last();
                assert(join_lines(init) == join_lines(prev) + seq!['\n'] + init.last());
                let k = join_lines(prev).len() as int;
                assert(init.last() == lines[i]);
                assert(last == lines[i + 1]);
                assert(j =~= join_lines(prev) + part);
                assert(j.subrange(k, k + part.len()) =~= part);
                assert(contains_infix(j, part));
            } else {
                assert(init[i] == lines[i] && init[i + 1] == lines[i + 1]);
                assert(contains_infix(join_lines(init), seq!['\n'] + init[i] + seq!['\n'] + init[i + 1]));
                lemma_infix_extend(join_lines(init), seq!['\n'] + last, part);
            }
        }
    } else {
        assert(join_lines(lines) == lines[0]);
        assert(lines[0].take(lines[0].len() as int) =~= lines[0]);
    }
}

} // verus!
