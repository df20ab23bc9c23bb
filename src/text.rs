//! Line splitting and decimal parsing over the characters of a text.
use vstd::prelude::*;

verus! {

/// Relies on `String::push`: the character is appended at the end.
pub assume_specification[ String::push ](s: &mut String, ch: char)
    ensures
        final(s)@ == old(s)@.push(ch),
;

/// Complete lines and the unfinished last line after reading `s` from the
/// left: a `'\n'` ends a line, and a `'\r'` right before it is dropped.
pub open spec fn line_scan(s: Seq<char>) -> (Seq<Seq<char>>, Seq<char>)
    decreases s.len(),
{
    if s.len() == 0 {
        (Seq::empty(), Seq::empty())
    } else {
        let (done, cur) = line_scan(s.drop_last());
        if s.last() == '\n' {
            (done.push(strip_cr(cur)), Seq::empty())
        } else {
            (done, cur.push(s.last()))
        }
    }
}

/// The line without a final carriage return.
pub open spec fn strip_cr(line: Seq<char>) -> Seq<char> {
    if line.len() > 0 && line.last() == '\r' {
        line.drop_last()
    } else {
        line
    }
}

/// The lines of a text: split at `"\n"` or `"\r\n"`; a final line ending is
/// optional, so a text that ends with one has no empty last line.
pub open spec fn lines_of(s: Seq<char>) -> Seq<Seq<char>> {
    let (done, cur) = line_scan(s);
    if cur.len() == 0 {
        done
    } else {
        done.push(cur)
    }
}

/// The contents of a sequence of strings.
pub open spec fn views_of(v: Seq<String>) -> Seq<Seq<char>> {
    v.map_values(|l: String| l@)
}

/// Splits a text into its lines.
pub fn split_lines(text: &str) -> (lines: Vec<String>)
    ensures
        views_of(lines@) == lines_of(text@),
{
    let mut lines: Vec<String> = Vec::new();
    let mut cur = String::new();
    let mut pending_cr = false;
    for c in it: text.chars()
        invariant
            it.seq() == text@,
            ({
                let (done, partial) = line_scan(text@.take(it.index() as int));
                &&& views_of(lines@) == done
                &&& partial == if pending_cr { cur@.push('\r') } else { cur@ }
            }),
            !pending_cr ==> cur@.len() == 0 || cur@.last() != '\r',
    {
        let ghost prefix = text@.take(it.index() as int);
        let ghost old_lines = lines@;
        assert(text@.take(it.index() + 1).drop_last() == prefix);
        assert(text@.take(it.index() + 1).last() == c);
        if c == '\n' {
            assert(pending_cr ==> cur@.push('\r').drop_last() == cur@);
            lines.push(cur);
            assert(views_of(lines@) =~= views_of(old_lines).push(lines@.last()@));
            cur = String::new();
            pending_cr = false;
        } else {
            if pending_cr {
                cur.push('\r');
            }
            if c == '\r' {
                pending_cr = true;
            } else {
                pending_cr = false;
                cur.push(c);
            }
        }
    }
    assert(text@.take(text@.len() as int) == text@);
    if pending_cr {
        cur.push('\r');
    }
    if !cur.as_str().is_empty() {
        lines.push(cur);
    }
    lines
}

/// The first field of `s` after reading it from the left, and whether the
/// separator that ends that field has been read.
pub open spec fn field_scan(s: Seq<char>, sep: char) -> (Seq<char>, bool)
    decreases s.len(),
{
    if s.len() == 0 {
        (Seq::empty(), false)
    } else {
        let (field, ended) = field_scan(s.drop_last(), sep);
        if ended || s.last() == sep {
            (field, true)
        } else {
            (field.push(s.last()), false)
        }
    }
}

/// The characters of a record before its first `'|'` (all of them if it
/// has none).
pub open spec fn first_field(record: Seq<char>) -> Seq<char> {
    field_scan(record, '|').0
}

pub open spec fn is_digit(c: char) -> bool {
    '0' <= c <= '9'
}

pub open spec fn all_digits(s: Seq<char>) -> bool {
    forall|i: int| 0 <= i < s.len() ==> is_digit(#[trigger] s[i])
}

/// The number that a string of decimal digits writes.
pub open spec fn decimal_value(s: Seq<char>) -> int
    decreases s.len(),
{
    if s.len() == 0 {
        0
    } else {
        decimal_value(s.drop_last()) * 10 + (s.last() as int - '0' as int)
    }
}

/// A `u32` written in decimal: an optional `'+'`, then at least one digit,
/// with a value that fits in 32 bits.
pub open spec fn parse_u32(s: Seq<char>) -> Option<u32> {
    let digits = if s.len() > 0 && s[0] == '+' {
        s.drop_first()
    } else {
        s
    };
    if digits.len() > 0 && all_digits(digits) && decimal_value(digits) <= u32::MAX {
        Some(decimal_value(digits) as u32)
    } else {
        None
    }
}

/// The id of a record `id|...`: its first field read as a `u32`.
pub open spec fn record_id(record: Seq<char>) -> Option<u32> {
    parse_u32(first_field(record))
}

proof fn lemma_decimal_value_grows(s: Seq<char>, k: int)
    requires
        all_digits(s),
        0 <= k <= s.len(),
    ensures
        0 <= decimal_value(s.take(k)) <= decimal_value(s),
    decreases s.len(),
{
    if s.len() > 0 {
        assert(all_digits(s.drop_last()));
        if k < s.len() {
            lemma_decimal_value_grows(s.drop_last(), k);
            assert(s.drop_last().take(k) == s.take(k));
        }
        lemma_decimal_value_grows(s.drop_last(), s.len() - 1);
        assert(s.drop_last().take(s.len() - 1) == s.drop_last());
    }
    assert(s.take(s.len() as int) == s);
}

/// Reads a `u32` written in decimal, as `str::parse::<u32>` reads it.
fn parse_u32_chars(s: &Vec<char>) -> (r: Option<u32>)
    ensures
        r == parse_u32(s@),
{
    let start: usize = if s.len() > 0 && s[0] == '+' {
        1
    } else {
        0
    };
    let ghost digits = s@.subrange(start as int, s@.len() as int);
    assert(digits == if s@.len() > 0 && s@[0] == '+' { s@.drop_first() } else { s@ });
    if start == s.len() {
        return None;
    }
    let mut value: u64 = 0;
    let mut i: usize = start;
    while i < s.len()
        invariant
            start <= i <= s.len(),
            digits == s@.subrange(start as int, s@.len() as int),
            digits.len() > 0,
            parse_u32(s@) == if all_digits(digits) && decimal_value(digits) <= u32::MAX {
                Some(decimal_value(digits) as u32)
            } else {
                None
            },
            all_digits(digits.take(i - start)),
            value == decimal_value(digits.take(i - start)),
            value <= u32::MAX,
        decreases s.len() - i,
    {
        let c = s[i];
        assert(digits[i - start] == c);
        if !('0' <= c && c <= '9') {
            assert(!is_digit(digits[i - start]));
            return None;
        }
        assert(digits.take(i - start + 1).drop_last() == digits.take(i - start));
        assert(digits.take(i - start + 1).last() == c);
        value = value * 10 + (c as u64 - '0' as u64);
        i = i + 1;
        assert(all_digits(digits.take(i - start)));
        assert(value == decimal_value(digits.take(i - start)));
        if value > 0xffff_ffff {
            proof {
                assert forall|j: int| 0 <= j < digits.len() && !is_digit(#[trigger] digits[j]) implies j >= i - start by {
                    if j < i - start {
                        assert(digits.take(i - start)[j] == digits[j]);
                    }
                }
                if all_digits(digits) {
                    lemma_decimal_value_grows(digits, i - start);
                }
            }
            return None;
        }
    }
    assert(digits.take(i - start) == digits);
    Some(value as u32)
}

/// Reads the id of a record `id|...`.
pub fn parse_record_id(record: &str) -> (id: Option<u32>)
    ensures
        id == record_id(record@),
{
    let mut field: Vec<char> = Vec::new();
    let mut ended = false;
    for c in it: record.chars()
        invariant
            it.seq() == record@,
            field_scan(record@.take(it.index() as int), '|') == (field@, ended),
    {
        assert(record@.take(it.index() + 1).drop_last() == record@.take(it.index() as int));
        assert(record@.take(it.index() + 1).last() == c);
        if !ended {
            if c == '|' {
                ended = true;
            } else {
                field.push(c);
            }
        }
    }
    assert(record@.take(record@.len() as int) == record@);
    parse_u32_chars(&field)
}

} // verus!
