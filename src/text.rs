//! Scanning of text: lines, words, trimming, character search and decimal
//! numbers, each stated over the characters of the input.
use vstd::prelude::*;

verus! {

/// The characters of the string slice, in order.
pub(crate) fn char_vec(s: &str) -> (r: Vec<char>)
    ensures
        r@ == s@,
{
    let n = s.unicode_len();
    let mut out: Vec<char> = Vec::new();
    let mut i: usize = 0;
    while i < n
        invariant
            i <= n,
            n == s@.len(),
            out@ == s@.take(i as int),
        decreases n - i,
    {
        out.push(s.get_char(i));
        assert(out@ =~= s@.take(i + 1));
        i = i + 1;
    }
    assert(s@.take(n as int) =~= s@);
    out
}

/// A line without the `\r` that ends it, if any.
pub open spec fn strip_cr(l: Seq<char>) -> Seq<char> {
    if l.len() > 0 && l.last() == '\r' {
        l.drop_last()
    } else {
        l
    }
}

/// The lines of `s` read from position `i` on, the current line having
/// begun at `start`.
pub open spec fn lines_from(s: Seq<char>, i: int, start: int) -> Seq<Seq<char>>
    decreases s.len() - i,
{
    if i >= s.len() {
        if start < s.len() {
            seq![s.subrange(start, s.len() as int)]
        } else {
            seq![]
        }
    } else if s[i] == '\n' {
        seq![strip_cr(s.subrange(start, i))] + lines_from(s, i + 1, i + 1)
    } else {
        lines_from(s, i + 1, start)
    }
}

/// The lines of `s`: split at each `\n`, a `\r` just before a `\n` dropped,
/// and no empty line after a final `\n`.
pub open spec fn lines_of(s: Seq<char>) -> Seq<Seq<char>> {
    lines_from(s, 0, 0)
}

/// The views of a sequence of string slices.
pub open spec fn views_of(v: Seq<&str>) -> Seq<Seq<char>> {
    v.map_values(|l: &str| l@)
}

pub fn lines(s: &str) -> (r: Vec<&str>)
    ensures
        views_of(r@) == lines_of(s@),
{
    let cs = char_vec(s);
    let n = cs.len();
    let mut out: Vec<&str> = Vec::new();
    let mut start: usize = 0;
    let mut i: usize = 0;
    while i < n
        invariant
            cs@ == s@,
            n == cs.len(),
            start <= i <= n,
            views_of(out@) + lines_from(s@, i as int, start as int) == lines_of(s@),
        decreases n - i,
    {
        if cs[i] == '\n' {
            let ghost full = s@.subrange(start as int, i as int);
            let mut end = i;
            if end > start && cs[end - 1] == '\r' {
                end = end - 1;
                assert(full.drop_last() =~= s@.subrange(start as int, end as int));
            }
            let line = s.substring_char(start, end);
            assert(line@ == strip_cr(full));
            let ghost before = views_of(out@);
            out.push(line);
            assert(views_of(out@) =~= before.push(line@));
            assert(views_of(out@) + lines_from(s@, i + 1, i + 1) =~= before + lines_from(
                s@,
                i as int,
                start as int,
            ));
            start = i + 1;
        }
        i = i + 1;
    }
    if start < n {
        let line = s.substring_char(start, n);
        let ghost before = views_of(out@);
        out.push(line);
        assert(views_of(out@) =~= before.push(line@));
        assert(before + lines_from(s@, n as int, start as int) =~= views_of(out@));
    } else {
        assert(views_of(out@) + lines_from(s@, n as int, start as int) =~= views_of(out@));
    }
    out
}

/// The first position at or after `i` where `c` stands, or the length.
pub open spec fn index_from(s: Seq<char>, c: char, i: int) -> int
    decreases s.len() - i,
{
    if i >= s.len() {
        s.len() as int
    } else if s[i] == c {
        i
    } else {
        index_from(s, c, i + 1)
    }
}

/// The first position of `c` in `s`, or the length of `s` when it is absent.
pub open spec fn index_of(s: Seq<char>, c: char) -> int {
    index_from(s, c, 0)
}

/// How many times `c` occurs in `s`.
pub open spec fn count_of(s: Seq<char>, c: char) -> nat
    decreases s.len(),
{
    if s.len() == 0 {
        0
    } else {
        count_of(s.drop_last(), c) + if s.last() == c {
            1nat
        } else {
            0nat
        }
    }
}

pub fn find_char(cs: &Vec<char>, c: char) -> (r: usize)
    ensures
        r == index_of(cs@, c),
        r <= cs.len(),
{
    let mut i: usize = 0;
    while i < cs.len()
        invariant
            i <= cs.len(),
            index_from(cs@, c, i as int) == index_of(cs@, c),
        decreases cs.len() - i,
    {
        if cs[i] == c {
            return i;
        }
        i = i + 1;
    }
    i
}

pub fn count_char(cs: &Vec<char>, c: char) -> (r: usize)
    ensures
        r == count_of(cs@, c),
{
    let mut i: usize = 0;
    let mut k: usize = 0;
    while i < cs.len()
        invariant
            i <= cs.len(),
            k == count_of(cs@.take(i as int), c),
            k <= i,
        decreases cs.len() - i,
    {
        assert(cs@.take(i + 1).drop_last() =~= cs@.take(i as int));
        if cs[i] == c {
            k = k + 1;
        }
        i = i + 1;
    }
    assert(cs@.take(i as int) =~= cs@);
    k
}

pub proof fn lemma_index_from(s: Seq<char>, c: char, i: int)
    requires
        0 <= i <= s.len(),
    ensures
        i <= index_from(s, c, i) <= s.len(),
        index_from(s, c, i) < s.len() ==> s[index_from(s, c, i)] == c,
        forall|j: int| i <= j < index_from(s, c, i) ==> s[j] != c,
    decreases s.len() - i,
{
    if i < s.len() && s[i] != c {
        lemma_index_from(s, c, i + 1);
    }
}

pub proof fn lemma_count_concat(a: Seq<char>, b: Seq<char>, c: char)
    ensures
        count_of(a + b, c) == count_of(a, c) + count_of(b, c),
    decreases b.len(),
{
    if b.len() == 0 {
        assert(a + b =~= a);
    } else {
        assert((a + b).drop_last() =~= a + b.drop_last());
        lemma_count_concat(a, b.drop_last(), c);
    }
}

pub proof fn lemma_count_zero(s: Seq<char>, c: char)
    ensures
        count_of(s, c) == 0 <==> !s.contains(c),
    decreases s.len(),
{
    if s.len() > 0 {
        lemma_count_zero(s.drop_last(), c);
        if s.drop_last().contains(c) {
            let j = choose|j: int| 0 <= j < s.drop_last().len() && s.drop_last()[j] == c;
            assert(s[j] == c);
        }
        if s.contains(c) && s.last() != c {
            let j = choose|j: int| 0 <= j < s.len() && s[j] == c;
            assert(s.drop_last()[j] == c);
        }
    }
}

/// Where `c` occurs exactly once, `index_of` finds it, and neither side of
/// it holds another.
pub proof fn lemma_single_occurrence(s: Seq<char>, c: char)
    requires
        count_of(s, c) == 1,
    ensures
        0 <= index_of(s, c) < s.len(),
        s[index_of(s, c)] == c,
        !s.take(index_of(s, c)).contains(c),
        !s.skip(index_of(s, c) + 1).contains(c),
{
    lemma_index_from(s, c, 0);
    let k = index_of(s, c);
    if k == s.len() {
        assert(!s.contains(c));
        lemma_count_zero(s, c);
    }
    assert(s =~= s.take(k) + (seq![c] + s.skip(k + 1)));
    lemma_count_concat(s.take(k), seq![c] + s.skip(k + 1), c);
    lemma_count_concat(seq![c], s.skip(k + 1), c);
    assert(seq![c].drop_last() =~= Seq::<char>::empty());
    lemma_count_zero(s.take(k), c);
    lemma_count_zero(s.skip(k + 1), c);
}

proof fn lemma_lines_from_no_break(s: Seq<char>, i: int, start: int)
    requires
        0 <= start <= i <= s.len(),
        forall|j: int| start <= j < i ==> s[j] != '\n',
    ensures
        forall|k: int|
            0 <= k < lines_from(s, i, start).len() ==> !(#[trigger] lines_from(
                s,
                i,
                start,
            )[k]).contains('\n'),
    decreases s.len() - i,
{
    if i >= s.len() {
        if start < s.len() {
            let l = s.subrange(start, s.len() as int);
            assert forall|j: int| 0 <= j < l.len() implies l[j] != '\n' by {
                assert(l[j] == s[start + j]);
            }
            assert(!l.contains('\n'));
            assert(lines_from(s, i, start) =~= seq![l]);
        } else {
            assert(lines_from(s, i, start) =~= Seq::<Seq<char>>::empty());
        }
    } else if s[i] == '\n' {
        lemma_lines_from_no_break(s, i + 1, i + 1);
        let l = strip_cr(s.subrange(start, i));
        assert forall|j: int| 0 <= j < l.len() implies l[j] != '\n' by {
            assert(l[j] == s[start + j]);
        }
        assert(!l.contains('\n'));
        let rest = lines_from(s, i + 1, i + 1);
        assert forall|k: int| 0 <= k < lines_from(s, i, start).len() implies !(#[trigger] lines_from(
            s,
            i,
            start,
        )[k]).contains('\n') by {
            if k > 0 {
                assert(lines_from(s, i, start)[k] == rest[k - 1]);
            } else {
                assert(lines_from(s, i, start)[k] == l);
            }
        }
    } else {
        lemma_lines_from_no_break(s, i + 1, start);
        assert(lines_from(s, i, start) == lines_from(s, i + 1, start));
    }
}

/// No line holds a line break.
pub proof fn lemma_lines_no_break(s: Seq<char>)
    ensures
        forall|k: int| 0 <= k < lines_of(s).len() ==> !(#[trigger] lines_of(s)[k]).contains('\n'),
{
    lemma_lines_from_no_break(s, 0, 0);
}

/// A character with the Unicode `White_Space` property, which is what
/// `char::is_whitespace` tests.
pub open spec fn is_white_space(c: char) -> bool {
    let v = c as u32;
    (9 <= v <= 13) || v == 32 || v == 0x85 || v == 0xA0 || v == 0x1680 || (0x2000 <= v <= 0x200A)
        || v == 0x2028 || v == 0x2029 || v == 0x202F || v == 0x205F || v == 0x3000
}

pub fn is_white_space_char(c: char) -> (r: bool)
    ensures
        r == is_white_space(c),
{
    let v = c as u32;
    (9 <= v && v <= 13) || v == 32 || v == 0x85 || v == 0xA0 || v == 0x1680 || (0x2000 <= v && v
        <= 0x200A) || v == 0x2028 || v == 0x2029 || v == 0x202F || v == 0x205F || v == 0x3000
}

/// The characters that trimming removes: `"` when `quotes` holds, else
/// white space.
pub open spec fn is_trimmed(c: char, quotes: bool) -> bool {
    if quotes {
        c == '"'
    } else {
        is_white_space(c)
    }
}

/// The first position at or after `i` that trimming keeps.
pub open spec fn trim_start_at(s: Seq<char>, i: int, quotes: bool) -> int
    decreases s.len() - i,
{
    if 0 <= i < s.len() && is_trimmed(s[i], quotes) {
        trim_start_at(s, i + 1, quotes)
    } else {
        i
    }
}

/// The end, at or before `j` and not before `lo`, of what trimming keeps.
pub open spec fn trim_end_at(s: Seq<char>, j: int, lo: int, quotes: bool) -> int
    decreases j,
{
    if 0 <= lo < j <= s.len() && is_trimmed(s[j - 1], quotes) {
        trim_end_at(s, j - 1, lo, quotes)
    } else {
        j
    }
}

pub open spec fn trim_with(s: Seq<char>, quotes: bool) -> Seq<char> {
    let a = trim_start_at(s, 0, quotes);
    s.subrange(a, trim_end_at(s, s.len() as int, a, quotes))
}

/// `s` without leading and trailing white space.
pub open spec fn trimmed(s: Seq<char>) -> Seq<char> {
    trim_with(s, false)
}

/// `s` without leading and trailing `"`.
pub open spec fn unquoted(s: Seq<char>) -> Seq<char> {
    trim_with(s, true)
}

fn trimmed_char(c: char, quotes: bool) -> (r: bool)
    ensures
        r == is_trimmed(c, quotes),
{
    if quotes {
        c == '"'
    } else {
        is_white_space_char(c)
    }
}

fn trim_slice<'a>(s: &'a str, quotes: bool) -> (r: &'a str)
    ensures
        r@ == trim_with(s@, quotes),
{
    let cs = char_vec(s);
    let n = cs.len();
    let mut a: usize = 0;
    while a < n && trimmed_char(cs[a], quotes)
        invariant
            a <= n == cs@.len(),
            cs@ == s@,
            trim_start_at(cs@, a as int, quotes) == trim_start_at(cs@, 0, quotes),
        decreases n - a,
    {
        a = a + 1;
    }
    let mut b: usize = n;
    while b > a && trimmed_char(cs[b - 1], quotes)
        invariant
            a <= b <= n == cs@.len(),
            cs@ == s@,
            trim_end_at(cs@, b as int, a as int, quotes) == trim_end_at(
                cs@,
                n as int,
                a as int,
                quotes,
            ),
        decreases b,
    {
        b = b - 1;
    }
    s.substring_char(a, b)
}

/// `s` with leading and trailing white space
/// removed, as `str::trim` does.
pub fn trim(s: &str) -> (r: &str)
    ensures
        r@ == trimmed(s@),
{
    trim_slice(s, false)
}

/// `s` with leading and trailing `"` removed, as `str::trim_matches('"')`
/// does.
pub fn trim_quotes(s: &str) -> (r: &str)
    ensures
        r@ == unquoted(s@),
{
    trim_slice(s, true)
}

/// A separator between pieces: `sep` itself, or white space where `sep` is
/// `None`.
pub open spec fn is_separator(c: char, sep: Option<char>) -> bool {
    match sep {
        Some(d) => c == d,
        None => is_white_space(c),
    }
}

/// The non-empty pieces of `s` between separators, read from position `i`
/// on, the current piece having begun at `start`.
pub open spec fn pieces_from(s: Seq<char>, sep: Option<char>, i: int, start: int) -> Seq<Seq<char>>
    decreases s.len() - i,
{
    if i >= s.len() {
        if start < s.len() {
            seq![s.subrange(start, s.len() as int)]
        } else {
            seq![]
        }
    } else if is_separator(s[i], sep) {
        if start < i {
            seq![s.subrange(start, i)] + pieces_from(s, sep, i + 1, i + 1)
        } else {
            pieces_from(s, sep, i + 1, i + 1)
        }
    } else {
        pieces_from(s, sep, i + 1, start)
    }
}

/// The words of `s`: its maximal runs of characters other than white space.
pub open spec fn words_of(s: Seq<char>) -> Seq<Seq<char>> {
    pieces_from(s, None, 0, 0)
}

/// The non-empty fields of `s` between occurrences of `d`, as
/// `s.split(d).filter(|f| !f.is_empty())` gives them.
pub open spec fn fields_of(s: Seq<char>, d: char) -> Seq<Seq<char>> {
    pieces_from(s, Some(d), 0, 0)
}

fn separator_char(c: char, sep: Option<char>) -> (r: bool)
    ensures
        r == is_separator(c, sep),
{
    match sep {
        Some(d) => c == d,
        None => is_white_space_char(c),
    }
}

fn pieces(s: &str, sep: Option<char>) -> (r: Vec<&str>)
    ensures
        views_of(r@) == pieces_from(s@, sep, 0, 0),
{
    let cs = char_vec(s);
    let n = cs.len();
    let mut out: Vec<&str> = Vec::new();
    let mut start: usize = 0;
    let mut i: usize = 0;
    while i < n
        invariant
            cs@ == s@,
            n == cs.len(),
            start <= i <= n,
            views_of(out@) + pieces_from(s@, sep, i as int, start as int) == pieces_from(
                s@,
                sep,
                0,
                0,
            ),
        decreases n - i,
    {
        if separator_char(cs[i], sep) {
            if start < i {
                let w = s.substring_char(start, i);
                let ghost before = views_of(out@);
                out.push(w);
                assert(views_of(out@) =~= before.push(w@));
                assert(views_of(out@) + pieces_from(s@, sep, i + 1, i + 1) =~= before
                    + pieces_from(s@, sep, i as int, start as int));
            }
            start = i + 1;
        }
        i = i + 1;
    }
    if start < n {
        let w = s.substring_char(start, n);
        let ghost before = views_of(out@);
        out.push(w);
        assert(views_of(out@) =~= before.push(w@));
        assert(before + pieces_from(s@, sep, n as int, start as int) =~= views_of(out@));
    } else {
        assert(views_of(out@) + pieces_from(s@, sep, n as int, start as int) =~= views_of(out@));
    }
    out
}

/// The words of `s`, as `str::split_whitespace` gives them.
pub fn words(s: &str) -> (r: Vec<&str>)
    ensures
        views_of(r@) == words_of(s@),
{
    pieces(s, None)
}

/// The non-empty fields of `s` between occurrences of `d`.
pub fn nonempty_fields(s: &str, d: char) -> (r: Vec<&str>)
    ensures
        views_of(r@) == fields_of(s@, d),
{
    pieces(s, Some(d))
}

pub open spec fn is_digit_char(c: char) -> bool {
    48 <= (c as u32) <= 57
}

pub open spec fn digit_value(c: char) -> nat {
    ((c as u32) - 48) as nat
}

/// The value of a string of decimal digits.
pub open spec fn decimal_value(s: Seq<char>) -> nat
    decreases s.len(),
{
    if s.len() == 0 {
        0
    } else {
        decimal_value(s.drop_last()) * 10 + digit_value(s.last())
    }
}

/// A non-empty string of decimal digits.
pub open spec fn is_decimal(s: Seq<char>) -> bool {
    s.len() > 0 && forall|i: int| 0 <= i < s.len() ==> is_digit_char(#[trigger] s[i])
}

/// `s` without one leading `+`.
pub open spec fn without_plus(s: Seq<char>) -> Seq<char> {
    if s.len() > 0 && s[0] == '+' {
        s.drop_first()
    } else {
        s
    }
}

/// The `u64` that `s` spells, as `u64::from_str` reads it: an optional `+`,
/// then decimal digits, of a value that fits.
pub open spec fn parsed_u64(s: Seq<char>) -> Option<u64> {
    let d = without_plus(s);
    if is_decimal(d) && decimal_value(d) <= u64::MAX {
        Some(decimal_value(d) as u64)
    } else {
        None
    }
}

/// The `i64` that `s` spells, as `i64::from_str` reads it: an optional sign,
/// then decimal digits, of a value that fits.
pub open spec fn parsed_i64(s: Seq<char>) -> Option<i64> {
    if s.len() > 0 && s[0] == '-' {
        let d = s.drop_first();
        if is_decimal(d) && decimal_value(d) <= 0x8000_0000_0000_0000 {
            Some((0 - decimal_value(d)) as i64)
        } else {
            None
        }
    } else {
        let d = without_plus(s);
        if is_decimal(d) && decimal_value(d) <= i64::MAX {
            Some(decimal_value(d) as i64)
        } else {
            None
        }
    }
}

proof fn lemma_decimal_prefix(s: Seq<char>, k: int)
    requires
        0 <= k <= s.len(),
    ensures
        decimal_value(s.take(k)) <= decimal_value(s),
    decreases s.len(),
{
    if k < s.len() {
        assert(s.drop_last().take(k) =~= s.take(k));
        lemma_decimal_prefix(s.drop_last(), k);
    } else {
        assert(s.take(k) =~= s);
    }
}

/// The value of the digits of `cs` from position `from` on, when they are
/// a non-empty string of decimal digits whose value fits in a `u64`.
fn decimal_from(cs: &Vec<char>, from: usize) -> (r: Option<u64>)
    requires
        from <= cs@.len(),
    ensures
        r == (if is_decimal(cs@.skip(from as int)) && decimal_value(cs@.skip(from as int))
            <= u64::MAX {
            Some(decimal_value(cs@.skip(from as int)) as u64)
        } else {
            None
        }),
{
    let ghost d = cs@.skip(from as int);
    if from == cs.len() {
        return None;
    }
    let mut v: u64 = 0;
    let mut i: usize = from;
    while i < cs.len()
        invariant
            from <= i <= cs@.len(),
            d == cs@.skip(from as int),
            v == decimal_value(d.take(i - from)),
            forall|j: int| 0 <= j < i - from ==> is_digit_char(#[trigger] d[j]),
        decreases cs.len() - i,
    {
        let c = cs[i] as u32;
        if !(48 <= c && c <= 57) {
            assert(!is_digit_char(d[i - from]));
            return None;
        }
        assert(d.take(i + 1 - from).drop_last() =~= d.take(i - from));
        let next = match v.checked_mul(10) {
            Some(t) => t.checked_add((c - 48) as u64),
            None => None,
        };
        match next {
            Some(t) => {
                v = t;
            },
            None => {
                proof {
                    lemma_decimal_prefix(d, i + 1 - from);
                }
                return None;
            },
        }
        i = i + 1;
    }
    assert(d.take(i - from) =~= d);
    Some(v)
}

/// Reads a `u64` as `u64::from_str` does.
pub fn parse_u64(s: &str) -> (r: Option<u64>)
    ensures
        r == parsed_u64(s@),
{
    let cs = char_vec(s);
    if cs.len() > 0 && cs[0] == '+' {
        assert(cs@.skip(1) =~= without_plus(s@));
        decimal_from(&cs, 1)
    } else {
        assert(cs@.skip(0) =~= without_plus(s@));
        decimal_from(&cs, 0)
    }
}

/// Reads an `i64` as `i64::from_str` does.
pub fn parse_i64(s: &str) -> (r: Option<i64>)
    ensures
        r == parsed_i64(s@),
{
    let cs = char_vec(s);
    if cs.len() > 0 && cs[0] == '-' {
        assert(cs@.skip(1) =~= s@.drop_first());
        match decimal_from(&cs, 1) {
            Some(m) => if m <= 0x8000_0000_0000_0000 {
                if m == 0x8000_0000_0000_0000 {
                    Some(i64::MIN)
                } else {
                    Some(0 - (m as i64))
                }
            } else {
                None
            },
            None => None,
        }
    } else {
        let from: usize = if cs.len() > 0 && cs[0] == '+' {
            1
        } else {
            0
        };
        assert(cs@.skip(from as int) =~= without_plus(s@));
        match decimal_from(&cs, from) {
            Some(m) => if m <= 0x7FFF_FFFF_FFFF_FFFF {
                Some(m as i64)
            } else {
                None
            },
            None => None,
        }
    }
}

/// The character of a decimal digit.
pub open spec fn digit_char(d: nat) -> char {
    if d == 0 {
        '0'
    } else if d == 1 {
        '1'
    } else if d == 2 {
        '2'
    } else if d == 3 {
        '3'
    } else if d == 4 {
        '4'
    } else if d == 5 {
        '5'
    } else if d == 6 {
        '6'
    } else if d == 7 {
        '7'
    } else if d == 8 {
        '8'
    } else {
        '9'
    }
}

/// The decimal digits of `n`, without leading zeros.
pub open spec fn decimal_text(n: nat) -> Seq<char>
    decreases n,
{
    if n < 10 {
        seq![digit_char(n)]
    } else {
        decimal_text(n / 10).push(digit_char(n % 10))
    }
}

fn digit_str(d: u64) -> (r: &'static str)
    requires
        d < 10,
    ensures
        r@ == seq![digit_char(d as nat)],
{
    let r = if d == 0 {
        proof {
            reveal_strlit("0");
        }
        "0"
    } else if d == 1 {
        proof {
            reveal_strlit("1");
        }
        "1"
    } else if d == 2 {
        proof {
            reveal_strlit("2");
        }
        "2"
    } else if d == 3 {
        proof {
            reveal_strlit("3");
        }
        "3"
    } else if d == 4 {
        proof {
            reveal_strlit("4");
        }
        "4"
    } else if d == 5 {
        proof {
            reveal_strlit("5");
        }
        "5"
    } else if d == 6 {
        proof {
            reveal_strlit("6");
        }
        "6"
    } else if d == 7 {
        proof {
            reveal_strlit("7");
        }
        "7"
    } else if d == 8 {
        proof {
            reveal_strlit("8");
        }
        "8"
    } else {
        proof {
            reveal_strlit("9");
        }
        "9"
    };
    assert(r@ =~= seq![digit_char(d as nat)]);
    r
}

/// The decimal digits of `n`, with no sign and no leading zeros.
pub(crate) fn decimal(n: u64) -> (r: String)
    ensures
        r@ == decimal_text(n as nat),
    decreases n,
{
    if n < 10 {
        digit_str(n).to_owned()
    } else {
        let head = decimal(n / 10);
        let r = head.concat(digit_str(n % 10));
        assert(r@ =~= decimal_text(n as nat));
        r
    }
}

/// `s` begins with `p`.
pub open spec fn starts_with(s: Seq<char>, p: Seq<char>) -> bool {
    p.len() <= s.len() && s.take(p.len() as int) == p
}

/// Whether `h` begins with `p`.
pub fn has_prefix(h: &Vec<char>, p: &Vec<char>) -> (r: bool)
    ensures
        r == starts_with(h@, p@),
{
    if p.len() > h.len() {
        return false;
    }
    let mut i: usize = 0;
    while i < p.len()
        invariant
            i <= p@.len() <= h@.len(),
            forall|j: int| 0 <= j < i ==> h@[j] == p@[j],
        decreases p.len() - i,
    {
        if h[i] != p[i] {
            assert(h@.take(p@.len() as int)[i as int] != p@[i as int]);
            return false;
        }
        i = i + 1;
    }
    assert(h@.take(p@.len() as int) =~= p@);
    true
}

} // verus!
