//! What the system descriptor shown by screensavers reads out of
//! `/etc/os-release` and `/proc/sys/kernel/osrelease`.
//!
//! Reading the files and the environment happens outside.

use vstd::prelude::*;

use crate::text::{chars_slice, split_on, starts_with, str_chars, string_from_chars, trim_chars, trimmed};

verus! {

/// The line the `k`-th part of a `\n` split of `s` becomes (as `str::lines`
/// yields it): a part followed by `\n` loses a trailing `\r`.
pub open spec fn line_text(parts: Seq<Seq<char>>, k: int) -> Seq<char> {
    let p = parts[k];
    if k < parts.len() - 1 && p.len() > 0 && p.last() == '\r' {
        p.drop_last()
    } else {
        p
    }
}

/// Number of lines `str::lines` yields for `s`: every `\n`-terminated part,
/// and a last part when it is not empty.
pub open spec fn line_count(s: Seq<char>) -> int {
    let parts = split_on(s, '\n');
    if parts.last().len() == 0 {
        parts.len() - 1
    } else {
        parts.len() as int
    }
}

/// `s` without leading `c`s.
pub open spec fn trim_start_char(s: Seq<char>, c: char) -> Seq<char>
    decreases s.len(),
{
    if s.len() > 0 && s[0] == c {
        trim_start_char(s.drop_first(), c)
    } else {
        s
    }
}

/// `s` without trailing `c`s.
pub open spec fn trim_end_char(s: Seq<char>, c: char) -> Seq<char>
    decreases s.len(),
{
    if s.len() > 0 && s.last() == c {
        trim_end_char(s.drop_last(), c)
    } else {
        s
    }
}

/// The value of a `PRETTY_NAME=` line: the text between the first and the
/// second `=`, without surrounding double quotes.
pub open spec fn pretty_value(line: Seq<char>) -> Seq<char> {
    let fields = split_on(line, '=');
    let v = if fields.len() > 1 {
        fields[1]
    } else {
        Seq::empty()
    };
    trim_end_char(trim_start_char(v, '"'), '"')
}

/// The first line from the `k`-th on (of `n`) that starts with
/// `PRETTY_NAME=` and has a non-empty value, as that value.
pub open spec fn pretty_from(parts: Seq<Seq<char>>, k: int, n: int) -> Option<Seq<char>>
    decreases n - k,
{
    if k >= n || k < 0 {
        None
    } else {
        let line = line_text(parts, k);
        if starts_with(line, "PRETTY_NAME="@) && pretty_value(line).len() > 0 {
            Some(pretty_value(line))
        } else {
            pretty_from(parts, k + 1, n)
        }
    }
}

/// The distribution's display name in an `os-release` text, if it has one.
pub open spec fn os_pretty_name_spec(content: Seq<char>) -> Option<Seq<char>> {
    pretty_from(split_on(content, '\n'), 0, line_count(content))
}

/// `v` without leading and trailing `c`s.
fn trim_char(v: &Vec<char>, c: char) -> (r: Vec<char>)
    ensures
        r@ == trim_end_char(trim_start_char(v@, c), c),
{
    let mut start: usize = 0;
    assert(v@.skip(0) =~= v@);
    while start < v.len() && v[start] == c
        invariant
            start <= v@.len(),
            trim_start_char(v@, c) == trim_start_char(v@.skip(start as int), c),
        decreases v@.len() - start,
    {
        assert(v@.skip(start as int).drop_first() =~= v@.skip(start + 1));
        start = start + 1;
    }
    let mut end: usize = v.len();
    proof {
        assert(trim_start_char(v@.skip(start as int), c) == v@.skip(start as int));
        assert(v@.skip(start as int) =~= v@.subrange(start as int, end as int));
    }
    while end > start && v[end - 1] == c
        invariant
            start <= end <= v@.len(),
            trim_end_char(trim_start_char(v@, c), c) == trim_end_char(v@.subrange(start as int, end as int), c),
        decreases end - start,
    {
        assert(v@.subrange(start as int, end as int).drop_last() =~= v@.subrange(start as int, end - 1));
        end = end - 1;
    }
    chars_slice(v, start, end)
}

/// The value of a `PRETTY_NAME=` line.
fn line_pretty_value(line: &Vec<char>) -> (r: Vec<char>)
    ensures
        r@ == pretty_value(line@),
{
    let fields = crate::discovery::split_chars(line, '=');
    let v: Vec<char> = if fields.len() > 1 {
        chars_slice(&fields[1], 0, fields[1].len())
    } else {
        Vec::new()
    };
    proof {
        if fields@.len() > 1 {
            assert(v@ =~= split_on(line@, '=')[1]);
        } else {
            assert(v@ =~= Seq::<char>::empty());
        }
    }
    trim_char(&v, '"')
}

/// The distribution's display name in an `/etc/os-release` text: the
/// non-empty value of the first such `PRETTY_NAME=` line.
pub fn os_pretty_name(content: &str) -> (r: Option<String>)
    ensures
        match r {
            Some(name) => os_pretty_name_spec(content@) == Some(name@),
            None => os_pretty_name_spec(content@) is None,
        },
{
    let chars = str_chars(content);
    let parts = crate::discovery::split_chars(&chars, '\n');
    let ghost ps = split_on(content@, '\n');
    proof {
        crate::text::lemma_split_nonempty(content@, '\n');
    }
    let last_len = parts[parts.len() - 1].len();
    let n: usize = if last_len == 0 {
        parts.len() - 1
    } else {
        parts.len()
    };
    let prefix = str_chars("PRETTY_NAME=");
    let mut k: usize = 0;
    while k < n
        invariant
            ps == split_on(content@, '\n'),
            parts@.len() == ps.len(),
            forall|j: int| 0 <= j < parts@.len() ==> #[trigger] parts@[j]@ == ps[j],
            n <= parts@.len(),
            n == line_count(content@),
            prefix@ == "PRETTY_NAME="@,
            k <= n,
            pretty_from(ps, 0, n as int) == pretty_from(ps, k as int, n as int),
        decreases n - k,
    {
        let part = &parts[k];
        let line: Vec<char> = if k + 1 < parts.len() && part.len() > 0 && part[part.len() - 1] == '\r' {
            chars_slice(part, 0, part.len() - 1)
        } else {
            chars_slice(part, 0, part.len())
        };
        proof {
            assert(line@ =~= line_text(ps, k as int));
        }
        if crate::text::chars_start_with(&line, prefix.as_slice()) {
            let value = line_pretty_value(&line);
            if value.len() > 0 {
                proof {
                    assert(starts_with(line_text(ps, k as int), "PRETTY_NAME="@));
                    assert(pretty_value(line_text(ps, k as int)) == value@);
                    assert(pretty_from(ps, k as int, n as int) == Some(value@));
                }
                return Some(string_from_chars(&value));
            }
        }
        k = k + 1;
    }
    None
}

/// The kernel release from the text of `/proc/sys/kernel/osrelease`
/// (`None` when unreadable): trimmed, or `unknown`.
pub fn kernel_release(content: Option<&str>) -> (r: String)
    ensures
        r@ == match content {
            Some(c) => trimmed(c@),
            None => "unknown"@,
        },
{
    match content {
        Some(c) => {
            let chars = str_chars(c);
            let t = trim_chars(&chars);
            string_from_chars(&t)
        },
        None => "unknown".to_string(),
    }
}


/// The first line `str::lines` yields for `text`, if any.
pub open spec fn first_line_spec(text: Seq<char>) -> Option<Seq<char>> {
    if line_count(text) > 0 {
        Some(line_text(split_on(text, '\n'), 0))
    } else {
        None
    }
}

/// The first line of `text` (as `text.lines().next()`).
pub fn first_line(text: &str) -> (r: Option<String>)
    ensures
        match r {
            Some(l) => first_line_spec(text@) == Some(l@),
            None => first_line_spec(text@) is None,
        },
{
    let chars = str_chars(text);
    let parts = crate::discovery::split_chars(&chars, '\n');
    proof {
        crate::text::lemma_split_nonempty(text@, '\n');
    }
    let n = parts.len();
    let count: usize = if parts[n - 1].len() == 0 {
        n - 1
    } else {
        n
    };
    if count == 0 {
        return None;
    }
    let part = &parts[0];
    let line: Vec<char> = if 1 < n && part.len() > 0 && part[part.len() - 1] == '\r' {
        chars_slice(part, 0, part.len() - 1)
    } else {
        chars_slice(part, 0, part.len())
    };
    proof {
        assert(line@ =~= line_text(split_on(text@, '\n'), 0));
    }
    Some(string_from_chars(&line))
}

} // verus!
