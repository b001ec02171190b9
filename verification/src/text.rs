//! Small verified text utilities: string equality, splitting text into
//! lines, and decimal numerals in both directions (parsing and printing).

use vstd::prelude::*;

verus! {

/// Character-for-character string equality.
pub fn str_eq(a: &str, b: &str) -> (r: bool)
    ensures
        r == (a@ == b@),
{
    let la = a.unicode_len();
    let lb = b.unicode_len();
    if la != lb {
        return false;
    }
    let mut i: usize = 0;
    while i < la
        invariant
            la == a@.len(),
            la == b@.len(),
            i <= la,
            forall|j: int| 0 <= j < i ==> a@[j] == b@[j],
        decreases la - i,
    {
        if a.get_char(i) != b.get_char(i) {
            return false;
        }
        i = i + 1;
    }
    proof {
        assert(a@ =~= b@);
    }
    true
}

/// True of the ten ASCII digit characters.
pub open spec fn is_digit(c: char) -> bool {
    '0' <= c && c <= '9'
}

/// The numeric value of a digit character.
pub open spec fn digit_val(c: char) -> int {
    c as int - '0' as int
}

/// The value of a digit string, most significant digit first.
pub open spec fn dec_val(s: Seq<char>) -> int
    decreases s.len(),
{
    if s.len() == 0 {
        0
    } else {
        dec_val(s.drop_last()) * 10 + digit_val(s.last())
    }
}

/// A nonempty all-digit string.
pub open spec fn all_digits(s: Seq<char>) -> bool {
    forall|i: int| 0 <= i < s.len() ==> is_digit(#[trigger] s[i])
}

/// What a line must look like to parse as a `u32`: nonempty, digits only,
/// and a value that fits.
pub open spec fn spec_parse_u32(s: Seq<char>) -> Option<u32> {
    if s.len() > 0 && all_digits(s) && dec_val(s) <= u32::MAX {
        Some(dec_val(s) as u32)
    } else {
        None
    }
}

proof fn lemma_dec_val_nonneg(s: Seq<char>)
    requires
        all_digits(s),
    ensures
        dec_val(s) >= 0,
    decreases s.len(),
{
    if s.len() > 0 {
        assert(all_digits(s.drop_last())) by {
            assert(forall|i: int|
                0 <= i < s.drop_last().len() ==> is_digit(#[trigger] s.drop_last()[i])) by {
                assert(forall|i: int| 0 <= i < s.len() - 1 ==> s.drop_last()[i] == s[i]);
            }
        }
        lemma_dec_val_nonneg(s.drop_last());
        assert(is_digit(s.last()));
    }
}

/// The value of a digit string never shrinks as digits are appended.
proof fn lemma_dec_val_prefix_le(s: Seq<char>, i: int)
    requires
        all_digits(s),
        0 <= i <= s.len(),
    ensures
        dec_val(s.subrange(0, i)) <= dec_val(s),
    decreases s.len() - i,
{
    if i < s.len() {
        lemma_dec_val_prefix_le(s, i + 1);
        let p = s.subrange(0, i);
        let q = s.subrange(0, i + 1);
        assert(q.drop_last() =~= p);
        assert(q.last() == s[i]);
        assert(all_digits(p)) by {
            assert(forall|j: int| 0 <= j < p.len() ==> p[j] == s[j]);
        }
        lemma_dec_val_nonneg(p);
        assert(dec_val(q) == dec_val(p) * 10 + digit_val(s[i]));
        assert(dec_val(p) <= dec_val(p) * 10) by (nonlinear_arith)
            requires
                dec_val(p) >= 0,
        ;
        assert(is_digit(s[i]));
    } else {
        assert(s.subrange(0, i) =~= s);
    }
}

/// Parse a decimal `u32`: succeeds exactly on nonempty all-digit strings
/// whose value fits in 32 bits.
pub fn parse_u32(s: &str) -> (r: Option<u32>)
    ensures
        r == spec_parse_u32(s@),
{
    let len = s.unicode_len();
    if len == 0 {
        return None;
    }
    let mut acc: u32 = 0;
    let mut i: usize = 0;
    while i < len
        invariant
            len == s@.len(),
            0 < len,
            i <= len,
            all_digits(s@.subrange(0, i as int)),
            acc == dec_val(s@.subrange(0, i as int)),
        decreases len - i,
    {
        let c = s.get_char(i);
        if c < '0' || c > '9' {
            assert(!is_digit(s@[i as int]));
            assert(!all_digits(s@));
            return None;
        }
        let d: u32 = (c as u32) - ('0' as u32);
        assert(d == digit_val(s@[i as int]));
        assert(d <= 9);
        if acc > (u32::MAX - d) / 10 {
            // the digits seen so far already overflow once extended
            proof {
                let q = s@.subrange(0, i as int + 1);
                assert(q.drop_last() =~= s@.subrange(0, i as int));
                assert(q.last() == s@[i as int]);
                assert(all_digits(q)) by {
                    assert(forall|j: int| 0 <= j < q.len() ==> q[j] == s@[j]);
                }
                assert(dec_val(q) == acc * 10 + d);
                assert(acc * 10 + d > u32::MAX) by (nonlinear_arith)
                    requires
                        acc > (u32::MAX - d) / 10,
                        d <= 9,
                ;
                if all_digits(s@) {
                    lemma_dec_val_prefix_le(s@, i as int + 1);
                    assert(dec_val(s@) > u32::MAX);
                }
            }
            return None;
        }
        assert(acc * 10 + d <= u32::MAX) by (nonlinear_arith)
            requires
                acc <= (u32::MAX - d) / 10,
                d <= 9,
        ;
        acc = acc * 10 + d;
        proof {
            let q = s@.subrange(0, i as int + 1);
            assert(q.drop_last() =~= s@.subrange(0, i as int));
            assert(q.last() == s@[i as int]);
        }
        i = i + 1;
    }
    proof {
        assert(s@.subrange(0, len as int) =~= s@);
    }
    Some(acc)
}

/// The index of the first newline in `s`, or `s.len()` if there is none.
pub open spec fn first_nl(s: Seq<char>) -> int
    decreases s.len(),
{
    if s.len() == 0 {
        0
    } else if s[0] == '\n' {
        0
    } else {
        1 + first_nl(s.drop_first())
    }
}

/// A line with a trailing carriage return has it removed.
pub open spec fn strip_cr(s: Seq<char>) -> Seq<char> {
    if s.len() > 0 && s.last() == '\r' {
        s.drop_last()
    } else {
        s
    }
}

/// The lines of `s`: maximal runs between newline characters, each with at
/// most one trailing carriage return removed, and no final empty line when
/// the text ends in a newline.
pub open spec fn spec_lines(s: Seq<char>) -> Seq<Seq<char>>
    decreases s.len(),
{
    if s.len() == 0 {
        seq![]
    } else {
        let i = first_nl(s);
        if 0 <= i && i < s.len() {
            seq![strip_cr(s.subrange(0, i))] + spec_lines(s.subrange(i + 1, s.len() as int))
        } else {
            seq![strip_cr(s)]
        }
    }
}

/// The index of the first newline at or after `from`.
fn find_nl(s: &str, from: usize) -> (end: usize)
    requires
        from <= s@.len(),
    ensures
        from <= end <= s@.len(),
        forall|j: int| from <= j < end ==> s@[j] != '\n',
        end < s@.len() ==> s@[end as int] == '\n',
{
    let len = s.unicode_len();
    let mut i: usize = from;
    while i < len
        invariant
            len == s@.len(),
            from <= i <= len,
            forall|j: int| from <= j < i ==> s@[j] != '\n',
        decreases len - i,
    {
        if s.get_char(i) == '\n' {
            return i;
        }
        i = i + 1;
    }
    i
}

/// Split `s` into its lines, as [`spec_lines`] describes.
pub fn split_lines(s: &str) -> (lines: Vec<String>)
    ensures
        lines@.len() == spec_lines(s@).len(),
        forall|i: int| 0 <= i < lines@.len() ==> #[trigger] lines@[i]@ == spec_lines(s@)[i],
{
    let len = s.unicode_len();
    let mut lines: Vec<String> = Vec::new();
    let mut pos: usize = 0;
    proof {
        assert(s@.subrange(0, len as int) =~= s@);
        assert(lines@.map_values(|l: String| l@) =~= Seq::<Seq<char>>::empty());
    }
    while pos < len
        invariant
            len == s@.len(),
            pos <= len,
            spec_lines(s@) =~= lines@.map_values(|l: String| l@) + spec_lines(
                s@.subrange(pos as int, len as int),
            ),
        decreases len - pos,
    {
        let ghost rest = s@.subrange(pos as int, len as int);
        let ghost prev_mapped = lines@.map_values(|l: String| l@);
        let end = find_nl(s, pos);
        proof {
            assert(forall|j: int| 0 <= j < rest.len() ==> rest[j] == s@[pos + j]);
            lemma_first_nl_determined(rest, end - pos);
        }
        // the line body, with a trailing carriage return removed
        let body_end: usize = if end > pos && s.get_char(end - 1) == '\r' {
            end - 1
        } else {
            end
        };
        let line = String::from_str(s.substring_char(pos, body_end));
        proof {
            assert(line@ =~= strip_cr(s@.subrange(pos as int, end as int)));
        }
        lines.push(line);
        proof {
            assert(lines@.map_values(|l: String| l@) =~= prev_mapped.push(line@));
            if end == len {
                // `rest` is the final line: no newline inside it
                assert(strip_cr(rest) == line@);
                assert(spec_lines(rest) =~= seq![line@]);
            } else {
                assert(rest.subrange(0, end - pos) =~= s@.subrange(pos as int, end as int));
                assert(rest.subrange(end - pos + 1, rest.len() as int) =~= s@.subrange(
                    end + 1,
                    len as int,
                ));
                assert(spec_lines(rest) =~= seq![line@] + spec_lines(
                    s@.subrange(end + 1, len as int),
                ));
            }
            assert(spec_lines(s@) =~= prev_mapped + spec_lines(rest));
        }
        if end == len {
            proof {
                assert(s@.subrange(len as int, len as int).len() == 0);
                assert(spec_lines(s@) =~= lines@.map_values(|l: String| l@) + spec_lines(
                    s@.subrange(len as int, len as int),
                ));
            }
            pos = len;
        } else {
            proof {
                assert(spec_lines(s@) =~= lines@.map_values(|l: String| l@) + spec_lines(
                    s@.subrange(end + 1, len as int),
                ));
            }
            pos = end + 1;
        }
    }
    proof {
        assert(spec_lines(s@.subrange(pos as int, len as int)) =~= Seq::<Seq<char>>::empty());
        assert(spec_lines(s@) =~= lines@.map_values(|l: String| l@));
        assert(forall|i: int|
            0 <= i < lines@.len() ==> #[trigger] lines@[i]@ == lines@.map_values(|l: String| l@)[i]);
    }
    lines
}

/// The digit character for a value below ten.
pub open spec fn spec_digit(d: int) -> char {
    if d == 0 {
        '0'
    } else if d == 1 {
        '1'
    } else if d == 2 {
        '2'
    } else if d == 3 {
        '3'
    } else if d == 4 {
        '4'
    } else if d == 5 {
        '5'
    } else if d == 6 {
        '6'
    } else if d == 7 {
        '7'
    } else if d == 8 {
        '8'
    } else {
        '9'
    }
}

/// The decimal numeral for `n`, most significant digit first, with no
/// leading zeros (a single `'0'` for zero).
pub open spec fn spec_dec(n: int) -> Seq<char>
    decreases n,
{
    if n < 10 {
        seq![spec_digit(n)]
    } else {
        spec_dec(n / 10) + seq![spec_digit(n % 10)]
    }
}

/// The one-character string for a digit value.
fn digit_str(d: u64) -> (r: &'static str)
    requires
        d < 10,
    ensures
        r@ == seq![spec_digit(d as int)],
{
    let r: &'static str = match d {
        0 => "0",
        1 => "1",
        2 => "2",
        3 => "3",
        4 => "4",
        5 => "5",
        6 => "6",
        7 => "7",
        8 => "8",
        _ => "9",
    };
    proof {
        reveal_strlit("0");
        reveal_strlit("1");
        reveal_strlit("2");
        reveal_strlit("3");
        reveal_strlit("4");
        reveal_strlit("5");
        reveal_strlit("6");
        reveal_strlit("7");
        reveal_strlit("8");
        reveal_strlit("9");
        assert(r@ =~= seq![spec_digit(d as int)]);
    }
    r
}

/// Append the decimal numeral for `n` to `out`.
pub fn push_decimal(out: &mut String, n: u64)
    ensures
        final(out)@ == old(out)@ + spec_dec(n as int),
    decreases n,
{
    if n >= 10 {
        push_decimal(out, n / 10);
    }
    let d = digit_str(n % 10);
    out.append(d);
    proof {
        assert(out@ =~= old(out)@ + spec_dec(n as int));
    }
}

/// `first_nl` is the one index bounded by newline-free characters.
proof fn lemma_first_nl_determined(s: Seq<char>, k: int)
    requires
        0 <= k <= s.len(),
        forall|j: int| 0 <= j < k ==> s[j] != '\n',
        k < s.len() ==> s[k] == '\n',
    ensures
        first_nl(s) == k,
    decreases s.len(),
{
    if s.len() > 0 && s[0] != '\n' {
        let t = s.drop_first();
        assert(forall|j: int| 0 <= j < t.len() ==> t[j] == s[j + 1]);
        lemma_first_nl_determined(t, k - 1);
    }
}

} // verus!
