//! Readers of the host's metric sources: each turns what the operating
//! system reported (file contents, command output, raw counts) into a value
//! or a typed failure.
use vstd::prelude::*;
use crate::errors::SystemError;
use crate::status::{unknown_kernel_text, unknown_system_text};
use crate::text::{
    char_vec, decimal, decimal_text, has_prefix, index_of, lines, lines_of, parse_i64, parse_u64,
    parsed_i64, parsed_u64, starts_with, trim, trim_quotes, trimmed, unquoted, views_of, words,
    words_of,
};

verus! {

/// The first of `ls`, from position `i` on, that begins with `p`.
pub open spec fn first_with_prefix(ls: Seq<Seq<char>>, p: Seq<char>, i: int) -> Option<Seq<char>>
    decreases ls.len() - i,
{
    if i < 0 || i >= ls.len() {
        None
    } else if starts_with(ls[i], p) {
        Some(ls[i])
    } else {
        first_with_prefix(ls, p, i + 1)
    }
}

/// The first line of `content` that begins with `p`.
pub fn first_line_with_prefix<'a>(content: &'a str, p: &str) -> (r: Option<&'a str>)
    ensures
        match r {
            Some(l) => first_with_prefix(lines_of(content@), p@, 0) == Some(l@) && starts_with(
                l@,
                p@,
            ),
            None => first_with_prefix(lines_of(content@), p@, 0) is None,
        },
{
    let ls = lines(content);
    let pcs = char_vec(p);
    let ghost model = lines_of(content@);
    assert(views_of(ls@).len() == ls@.len());
    let mut i: usize = 0;
    while i < ls.len()
        invariant
            i <= ls@.len(),
            model == lines_of(content@),
            views_of(ls@) == model,
            model.len() == ls@.len(),
            pcs@ == p@,
            first_with_prefix(model, p@, i as int) == first_with_prefix(model, p@, 0),
        decreases ls.len() - i,
    {
        let l = ls[i];
        assert(model[i as int] == l@);
        let cs = char_vec(l);
        if has_prefix(&cs, &pcs) {
            return Some(l);
        }
        i = i + 1;
    }
    None
}

/// The prefix of the line of the OS release file that names the system.
pub open spec fn pretty_name_prefix() -> Seq<char> {
    seq!['P', 'R', 'E', 'T', 'T', 'Y', '_', 'N', 'A', 'M', 'E', '=']
}

/// The text between the first and the second `=` of a line (or its end).
pub open spec fn second_field(l: Seq<char>) -> Seq<char> {
    let t = l.skip(index_of(l, '=') + 1);
    t.take(index_of(t, '='))
}

/// The system version that the OS release file gives: the unquoted value of
/// its first `PRETTY_NAME=` line, or the unknown-system sentinel when the
/// file or the line is missing.
pub open spec fn system_version_of(content: Option<Seq<char>>) -> Seq<char> {
    match content {
        None => unknown_system_text(),
        Some(c) => match first_with_prefix(lines_of(c), pretty_name_prefix(), 0) {
            None => unknown_system_text(),
            Some(l) => unquoted(second_field(l)),
        },
    }
}

pub open spec fn optional_view(s: Option<&str>) -> Option<Seq<char>> {
    match s {
        Some(t) => Some(t@),
        None => None,
    }
}

fn unknown_system() -> (r: String)
    ensures
        r@ == unknown_system_text(),
{
    let r = "Unknown System".to_owned();
    proof {
        reveal_strlit("Unknown System");
        assert(r@ =~= unknown_system_text());
    }
    r
}

fn unknown_kernel() -> (r: String)
    ensures
        r@ == unknown_kernel_text(),
{
    let r = "Unknown Kernel".to_owned();
    proof {
        reveal_strlit("Unknown Kernel");
        assert(r@ =~= unknown_kernel_text());
    }
    r
}

/// The system version from the contents of the OS release file, `None`
/// where the file could not be read.
pub fn system_version_from(content: Option<&str>) -> (r: String)
    ensures
        r@ == system_version_of(optional_view(content)),
{
    match content {
        None => unknown_system(),
        Some(c) => {
            let prefix = "PRETTY_NAME=";
            proof {
                reveal_strlit("PRETTY_NAME=");
                assert(prefix@ =~= pretty_name_prefix());
            }
            match first_line_with_prefix(c, prefix) {
                None => unknown_system(),
                Some(l) => {
                    let cs = char_vec(l);
                    let a = crate::text::find_char(&cs, '=');
                    proof {
                        crate::text::lemma_index_from(cs@, '=', 0);
                    }
                    let start = if a < cs.len() {
                        a + 1
                    } else {
                        a
                    };
                    let t = l.substring_char(start, cs.len());
                    let tcs = char_vec(t);
                    let b = crate::text::find_char(&tcs, '=');
                    proof {
                        crate::text::lemma_index_from(tcs@, '=', 0);
                        if a == cs.len() {
                            assert(l@.take(12)[11] == pretty_name_prefix()[11]);
                            assert(l@[11] == '=');
                            assert(false);
                        } else {
                            assert(t@ =~= l@.skip(index_of(l@, '=') + 1));
                        }
                    }
                    let field = t.substring_char(0, b);
                    assert(field@ =~= second_field(l@));
                    trim_quotes(field).to_owned()
                },
            }
        },
    }
}

/// The kernel version from the output of the kernel-release query, `None`
/// where the query failed or did not give text.
pub fn kernel_version_from(output: Option<&str>) -> (r: String)
    ensures
        r@ == match optional_view(output) {
            Some(t) => trimmed(t),
            None => unknown_kernel_text(),
        },
{
    match output {
        Some(t) => trim(t).to_owned(),
        None => unknown_kernel(),
    }
}

/// The value, in bytes, of the `key` entry of a memory report: the second
/// word of the first line beginning with `key`, in kibibytes.
pub open spec fn meminfo_value(content: Seq<char>, key: Seq<char>) -> Result<u64, SystemError> {
    match first_with_prefix(lines_of(content), key, 0) {
        None => Err(SystemError::MemoryInfoUnavailable),
        Some(l) => {
            let ws = words_of(l);
            if ws.len() < 2 {
                Err(SystemError::MemoryInfoUnavailable)
            } else {
                match parsed_u64(ws[1]) {
                    None => Err(SystemError::MemoryInfoUnavailable),
                    Some(kb) => if kb * 1024 <= u64::MAX {
                        Ok((kb * 1024) as u64)
                    } else {
                        Err(SystemError::MemoryInfoUnavailable)
                    },
                }
            }
        },
    }
}

/// Reads one entry of a memory report, in bytes.
pub fn extract_memory_value(meminfo: &str, key: &str) -> (r: Result<u64, SystemError>)
    ensures
        r == meminfo_value(meminfo@, key@),
{
    match first_line_with_prefix(meminfo, key) {
        None => Err(SystemError::MemoryInfoUnavailable),
        Some(l) => {
            let ws = words(l);
            assert(views_of(ws@).len() == ws@.len());
            if ws.len() < 2 {
                return Err(SystemError::MemoryInfoUnavailable);
            }
            assert(views_of(ws@)[1] == ws@[1]@);
            match parse_u64(ws[1]) {
                None => Err(SystemError::MemoryInfoUnavailable),
                Some(kb) => match kb.checked_mul(1024) {
                    Some(b) => Ok(b),
                    None => Err(SystemError::MemoryInfoUnavailable),
                },
            }
        },
    }
}

/// Used and total memory from a memory report: total less available, and
/// total. A missing or unreadable entry, or more available than total, is
/// a failure.
pub open spec fn memory_of(content: Seq<char>) -> Result<(u64, u64), SystemError> {
    match meminfo_value(content, "MemTotal"@) {
        Err(e) => Err(e),
        Ok(total) => match meminfo_value(content, "MemAvailable"@) {
            Err(e) => Err(e),
            Ok(free) => if free <= total {
                Ok(((total - free) as u64, total))
            } else {
                Err(SystemError::MemoryInfoUnavailable)
            },
        },
    }
}

/// Used and total memory, in bytes, from the contents of the memory report.
pub fn memory_from_meminfo(meminfo: &str) -> (r: Result<(u64, u64), SystemError>)
    ensures
        r == memory_of(meminfo@),
{
    let total = extract_memory_value(meminfo, "MemTotal")?;
    let free = extract_memory_value(meminfo, "MemAvailable")?;
    if free <= total {
        Ok((total - free, total))
    } else {
        Err(SystemError::MemoryInfoUnavailable)
    }
}

/// Available and total disk space, in bytes, from the counts of available
/// and total blocks and the fragment size; a product that does not fit is a
/// failure.
pub fn disk_figures(available_blocks: u64, total_blocks: u64, fragment_size: u64) -> (r: Result<
    (u64, u64),
    SystemError,
>)
    ensures
        match r {
            Ok((a, t)) => a == available_blocks * fragment_size && t == total_blocks
                * fragment_size,
            Err(e) => e == SystemError::DiskInfoUnavailable && (available_blocks * fragment_size
                > u64::MAX || total_blocks * fragment_size > u64::MAX),
        },
{
    match (available_blocks.checked_mul(fragment_size), total_blocks.checked_mul(fragment_size)) {
        (Some(a), Some(t)) => Ok((a, t)),
        _ => Err(SystemError::DiskInfoUnavailable),
    }
}

/// The number in word `k` of a line, or zero where it is missing or not a
/// number.
pub open spec fn field_or_zero(ws: Seq<Seq<char>>, k: int) -> nat {
    if 0 <= k < ws.len() {
        match parsed_u64(ws[k]) {
            Some(v) => v as nat,
            None => 0,
        }
    } else {
        0
    }
}

/// The sum, over the lines, of the number in word `k` of each.
pub open spec fn column_total(ls: Seq<Seq<char>>, k: int) -> nat
    decreases ls.len(),
{
    if ls.len() == 0 {
        0
    } else {
        column_total(ls.drop_last(), k) + field_or_zero(words_of(ls.last()), k)
    }
}

/// The interface lines of a network report: all but the two header lines.
pub open spec fn interface_lines(content: Seq<char>) -> Seq<Seq<char>> {
    let ls = lines_of(content);
    if ls.len() > 2 {
        ls.skip(2)
    } else {
        Seq::empty()
    }
}

/// Received and sent bytes over all interfaces of a network report: the
/// sums of the second and the tenth word of each interface line; a sum that
/// does not fit is a failure.
pub open spec fn network_of(content: Seq<char>) -> Result<(u64, u64), SystemError> {
    let ls = interface_lines(content);
    if column_total(ls, 1) <= u64::MAX && column_total(ls, 9) <= u64::MAX {
        Ok((column_total(ls, 1) as u64, column_total(ls, 9) as u64))
    } else {
        Err(SystemError::NetworkTrafficUnavailable)
    }
}

proof fn lemma_column_prefix(ls: Seq<Seq<char>>, k: int, n: int)
    requires
        0 <= n <= ls.len(),
    ensures
        column_total(ls.take(n), k) <= column_total(ls, k),
    decreases ls.len(),
{
    if n < ls.len() {
        assert(ls.drop_last().take(n) =~= ls.take(n));
        lemma_column_prefix(ls.drop_last(), k, n);
    } else {
        assert(ls.take(n) =~= ls);
    }
}

fn word_number_or_zero(ws: &Vec<&str>, k: usize) -> (r: u64)
    ensures
        r == field_or_zero(views_of(ws@), k as int),
{
    if k < ws.len() {
        assert(views_of(ws@)[k as int] == ws@[k as int]@);
        match parse_u64(ws[k]) {
            Some(v) => v,
            None => 0,
        }
    } else {
        0
    }
}

/// Received and sent bytes from the contents of the network report.
pub fn network_from_report(dev: &str) -> (r: Result<(u64, u64), SystemError>)
    ensures
        r == network_of(dev@),
{
    let ls = lines(dev);
    let ghost all = lines_of(dev@);
    let ghost body = interface_lines(dev@);
    assert(views_of(ls@).len() == ls@.len());
    let mut rx: u64 = 0;
    let mut tx: u64 = 0;
    if ls.len() <= 2 {
        assert(column_total(body, 1) == 0 && column_total(body, 9) == 0);
        return Ok((0, 0));
    }
    let mut i: usize = 2;
    while i < ls.len()
        invariant
            2 <= i <= ls@.len(),
            all == lines_of(dev@),
            views_of(ls@) == all,
            all.len() == ls@.len(),
            all.len() > 2,
            body == all.skip(2),
            rx == column_total(body.take(i - 2), 1),
            tx == column_total(body.take(i - 2), 9),
        decreases ls.len() - i,
    {
        let ws = words(ls[i]);
        assert(all[i as int] == ls@[i as int]@);
        assert(body.take(i + 1 - 2).drop_last() =~= body.take(i - 2));
        assert(body.take(i + 1 - 2).last() == all[i as int]);
        let r = word_number_or_zero(&ws, 1);
        let t = word_number_or_zero(&ws, 9);
        match (rx.checked_add(r), tx.checked_add(t)) {
            (Some(a), Some(b)) => {
                rx = a;
                tx = b;
            },
            _ => {
                proof {
                    lemma_column_prefix(body, 1, i + 1 - 2);
                    lemma_column_prefix(body, 9, i + 1 - 2);
                }
                return Err(SystemError::NetworkTrafficUnavailable);
            },
        }
        i = i + 1;
    }
    assert(body.take(i - 2) =~= body);
    Ok((rx, tx))
}

/// A temperature sensor's reading, in thousandths of a degree, from the
/// text of its file.
pub fn sensor_reading(text: &str) -> (r: Option<i64>)
    ensures
        r == parsed_i64(trimmed(text@)),
{
    parse_i64(trim(text))
}

/// The uptime in days, hours and minutes.
pub open spec fn uptime_text_of(seconds: nat) -> Seq<char> {
    decimal_text(seconds / 86400) + " days, "@ + decimal_text((seconds % 86400) / 3600)
        + " hours, "@ + decimal_text((seconds % 3600) / 60) + " minutes"@
}

/// The uptime, given in whole seconds, as `D days, H hours, M minutes`.
pub fn uptime_text(seconds: u64) -> (r: String)
    ensures
        r@ == uptime_text_of(seconds as nat),
{
    let days = decimal(seconds / 86400);
    let hours = decimal((seconds % 86400) / 3600);
    let minutes = decimal((seconds % 3600) / 60);
    let r = days.concat(" days, ").concat(hours.as_str()).concat(" hours, ").concat(
        minutes.as_str(),
    ).concat(" minutes");
    r
}

} // verus!
