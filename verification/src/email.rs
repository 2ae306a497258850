//! The header fields of a raw email.
//!
//! The header block runs from the start of the text to the first empty
//! line. A field is a line `Name: value`; names are compared without
//! regard to the case of ASCII letters. Lines are not unfolded: a value is
//! what stands on the field's own line.

use crate::intent::is_blank;
use crate::text::{chars_of, slice_of};
use vstd::prelude::*;

verus! {

/// The lower-case form of an ASCII letter; any other character is itself.
pub open spec fn lower(c: char) -> char {
    if 'A' <= c && c <= 'Z' {
        ((c as u8) + 32u8) as char
    } else {
        c
    }
}

/// Equal but for the case of ASCII letters.
pub open spec fn same_name(a: Seq<char>, b: Seq<char>) -> bool {
    a.len() == b.len() && forall|i: int| 0 <= i < a.len() ==> lower(#[trigger] a[i]) == lower(b[i])
}

/// How many characters stand between `from` and the end of its line.
pub open spec fn line_len(s: Seq<char>, from: int) -> nat
    decreases s.len() - from,
{
    if from < 0 || from >= s.len() || s[from] == '\n' {
        0
    } else {
        1 + line_len(s, from + 1)
    }
}

/// The line is the field `name`.
pub open spec fn names_field(line: Seq<char>, name: Seq<char>) -> bool {
    line.len() > name.len() && same_name(line.take(name.len() as int), name) && line[name.len() as int]
        == ':'
}

/// An empty line, with or without a carriage return, ends the header block.
pub open spec fn ends_headers(line: Seq<char>) -> bool {
    line.len() == 0 || (line.len() == 1 && line[0] == '\r')
}

pub open spec fn trim_start(s: Seq<char>) -> Seq<char>
    decreases s.len(),
{
    if s.len() > 0 && is_blank(s[0]) {
        trim_start(s.skip(1))
    } else {
        s
    }
}

pub open spec fn trim_end(s: Seq<char>) -> Seq<char>
    decreases s.len(),
{
    if s.len() > 0 && is_blank(s.last()) {
        trim_end(s.drop_last())
    } else {
        s
    }
}

/// `s` without the blanks at its two ends.
pub open spec fn trimmed(s: Seq<char>) -> Seq<char> {
    trim_end(trim_start(s))
}

/// The value of the first field `name` among the header lines that start
/// at `from` or later.
pub open spec fn field_from(s: Seq<char>, from: int, name: Seq<char>) -> Option<Seq<char>>
    decreases s.len() - from,
{
    if from < 0 || from >= s.len() {
        None
    } else {
        let end = from + line_len(s, from);
        let line = s.subrange(from, end);
        if ends_headers(line) {
            None
        } else if names_field(line, name) {
            Some(trimmed(line.skip(name.len() as int + 1)))
        } else if end >= s.len() {
            None
        } else {
            field_from(s, end + 1, name)
        }
    }
}

/// The value of the header field `name` of a raw email, `None` if the
/// header block has no such field.
pub open spec fn field_value(raw: Seq<char>, name: Seq<char>) -> Option<Seq<char>> {
    field_from(raw, 0, name)
}

pub open spec fn text_view(r: Option<String>) -> Option<Seq<char>> {
    match r {
        Some(s) => Some(s@),
        None => None,
    }
}

proof fn lemma_trim_start_skips(s: Seq<char>, k: int)
    requires
        0 <= k <= s.len(),
        forall|i: int| 0 <= i < k ==> is_blank(#[trigger] s[i]),
        k < s.len() ==> !is_blank(s[k]),
    ensures
        trim_start(s) == s.skip(k),
    decreases k,
{
    if k == 0 {
        assert(s.skip(0) =~= s);
    } else {
        let t = s.skip(1);
        assert forall|i: int| 0 <= i < k - 1 implies is_blank(#[trigger] t[i]) by {
            assert(t[i] == s[i + 1]);
        }
        lemma_trim_start_skips(t, k - 1);
        assert(t.skip(k - 1) =~= s.skip(k));
    }
}

proof fn lemma_trim_end_takes(s: Seq<char>, k: int)
    requires
        0 <= k <= s.len(),
        forall|i: int| k <= i < s.len() ==> is_blank(#[trigger] s[i]),
        k > 0 ==> !is_blank(s[k - 1]),
    ensures
        trim_end(s) == s.take(k),
    decreases s.len() - k,
{
    if k == s.len() {
        assert(s.take(k) =~= s);
    } else {
        let t = s.drop_last();
        assert forall|i: int| k <= i < t.len() implies is_blank(#[trigger] t[i]) by {
            assert(t[i] == s[i]);
        }
        lemma_trim_end_takes(t, k);
        assert(t.take(k) =~= s.take(k));
    }
}

fn to_lower(c: char) -> (r: char)
    ensures
        r == lower(c),
{
    if 'A' <= c && c <= 'Z' {
        ((c as u8) + 32u8) as char
    } else {
        c
    }
}

fn blank(c: char) -> (r: bool)
    ensures
        r == is_blank(c),
{
    c == ' ' || c == '\t' || c == '\r' || c == '\n'
}

/// Whether the line `chars[from..end]` is the field `name`.
fn line_names_field(chars: &Vec<char>, from: usize, end: usize, name: &Vec<char>) -> (r: bool)
    requires
        from <= end <= chars.len(),
    ensures
        r == names_field(chars@.subrange(from as int, end as int), name@),
{
    let ghost line = chars@.subrange(from as int, end as int);
    let m = name.len();
    if end - from <= m {
        return false;
    }
    let ghost head = line.take(m as int);
    let mut k: usize = 0;
    while k < m
        invariant
            k <= m,
            m == name.len(),
            m < end - from,
            from <= end <= chars.len(),
            line == chars@.subrange(from as int, end as int),
            head == line.take(m as int),
            forall|i: int| 0 <= i < k ==> lower(#[trigger] head[i]) == lower(name@[i]),
        decreases m - k,
    {
        assert(head[k as int] == chars@[from + k]);
        if to_lower(chars[from + k]) != to_lower(name[k]) {
            return false;
        }
        k += 1;
    }
    assert(line[m as int] == chars@[from + m]);
    chars[from + m] == ':'
}

/// The header field `name` of a raw email: its value without the blanks
/// around it, or `None` if the header block has no such field.
pub fn header_field(raw: &str, name: &str) -> (r: Option<String>)
    ensures
        text_view(r) == field_value(raw@, name@),
{
    let chars = chars_of(raw);
    let wanted = chars_of(name);
    let n = chars.len();
    let mut from: usize = 0;
    while from < n
        invariant
            from <= n,
            n == chars.len(),
            chars@ == raw@,
            wanted@ == name@,
            field_value(raw@, name@) == field_from(raw@, from as int, name@),
        decreases n - from,
    {
        let mut end: usize = from;
        while end < n && chars[end] != '\n'
            invariant
                from <= end <= n,
                n == chars.len(),
                from + line_len(chars@, from as int) == end + line_len(chars@, end as int),
            decreases n - end,
        {
            end += 1;
        }
        let ghost line = chars@.subrange(from as int, end as int);
        if end == from || (end == from + 1 && chars[from] == '\r') {
            assert(end > from ==> line[0] == chars@[from as int]);
            return None;
        }
        assert(line[0] == chars@[from as int]);
        if line_names_field(&chars, from, end, &wanted) {
            let mut lo: usize = from + wanted.len() + 1;
            let mut hi: usize = end;
            let ghost rest = line.skip(name@.len() as int + 1);
            let ghost start = lo;
            assert(rest =~= chars@.subrange(start as int, end as int));
            while lo < hi && blank(chars[lo])
                invariant
                    start <= lo <= hi,
                    hi == end,
                    end <= chars.len(),
                    rest == chars@.subrange(start as int, end as int),
                    forall|i: int| 0 <= i < lo - start ==> is_blank(#[trigger] rest[i]),
                decreases hi - lo,
            {
                assert(rest[lo - start] == chars@[lo as int]);
                lo += 1;
            }
            proof {
                if lo < hi {
                    assert(rest[lo - start] == chars@[lo as int]);
                }
                lemma_trim_start_skips(rest, lo - start);
            }
            let ghost tail = rest.skip(lo - start);
            assert(tail =~= chars@.subrange(lo as int, end as int));
            while hi > lo && blank(chars[hi - 1])
                invariant
                    lo <= hi <= end,
                    end <= chars.len(),
                    tail == chars@.subrange(lo as int, end as int),
                    forall|i: int| hi - lo <= i < tail.len() ==> is_blank(#[trigger] tail[i]),
                decreases hi - lo,
            {
                assert(tail[hi - 1 - lo] == chars@[hi - 1]);
                hi -= 1;
            }
            proof {
                if hi > lo {
                    assert(tail[hi - 1 - lo] == chars@[hi - 1]);
                }
                lemma_trim_end_takes(tail, hi - lo);
                assert(tail.take(hi - lo) =~= raw@.subrange(lo as int, hi as int));
            }
            return Some(slice_of(raw, lo, hi));
        }
        if end >= n {
            return None;
        }
        from = end + 1;
    }
    None
}

} // verus!
