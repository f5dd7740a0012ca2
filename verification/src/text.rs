//! Text rules: clipping, trimming, lists and number formats.
use crate::delivery;
use vstd::arithmetic::power::*;
use vstd::prelude::*;
use vstd::string::*;

verus! {

/// The text inside an optional string.
pub open spec fn opt_text(s: Option<String>) -> Option<Seq<char>> {
    match s {
        Some(t) => Some(t@),
        None => None,
    }
}

/// A copy of an optional string.
pub fn clone_option(s: &Option<String>) -> (res: Option<String>)
    ensures
        opt_text(res) == opt_text(*s),
{
    match s {
        Some(t) => Some(t.clone()),
        None => None,
    }
}

/// The texts inside a list of strings.
pub open spec fn texts(list: Seq<String>) -> Seq<Seq<char>> {
    list.map_values(|s: String| s@)
}

// Clipping

/// The first `max_chars` characters of a text, or all of it when it is shorter.
pub open spec fn clipped(s: Seq<char>, max_chars: int) -> Seq<char> {
    if s.len() <= max_chars {
        s
    } else {
        s.take(max_chars)
    }
}

/// Free text fields (display names, countries, cities) may hold any character, but not more
/// than `max_chars` of them.
pub fn clip(s: &str, max_chars: usize) -> (res: String)
    ensures
        res@ == clipped(s@, max_chars as int),
{
    let len: usize = s.unicode_len();
    if len <= max_chars {
        s.to_owned()
    } else {
        let head = s.substring_char(0, max_chars);
        assert(head@ =~= s@.take(max_chars as int));
        head.to_owned()
    }
}

/// A clipped text is the longest prefix of the text within the limit, a text within the limit
/// stays as it is, and clipping twice to one limit is clipping once.
pub proof fn law_clip(s: Seq<char>, max_chars: nat)
    ensures
        clipped(s, max_chars as int).is_prefix_of(s),
        clipped(s, max_chars as int).len() == if s.len() <= max_chars {
            s.len()
        } else {
            max_chars
        },
        s.len() <= max_chars ==> clipped(s, max_chars as int) == s,
        clipped(clipped(s, max_chars as int), max_chars as int) == clipped(s, max_chars as int),
{
}

/// Clipping to one limit and then to another is clipping to the smaller of the two.
pub proof fn law_clip_twice(s: Seq<char>, first: nat, second: nat)
    ensures
        clipped(clipped(s, first as int), second as int) == clipped(
            s,
            if first <= second {
                first as int
            } else {
                second as int
            },
        ),
{
}

// Trimming

/// The characters with the Unicode property White_Space.
pub open spec fn white_space(c: char) -> bool {
    ||| '\u{9}' <= c <= '\u{d}'
    ||| c == ' '
    ||| c == '\u{85}'
    ||| c == '\u{a0}'
    ||| c == '\u{1680}'
    ||| '\u{2000}' <= c <= '\u{200a}'
    ||| c == '\u{2028}'
    ||| c == '\u{2029}'
    ||| c == '\u{202f}'
    ||| c == '\u{205f}'
    ||| c == '\u{3000}'
}

/// Tells whether a character is white space.
pub fn is_white_space(c: char) -> (res: bool)
    ensures
        res == white_space(c),
{
    (c >= '\u{9}' && c <= '\u{d}') || c == ' ' || c == '\u{85}' || c == '\u{a0}' || c == '\u{1680}'
        || (c >= '\u{2000}' && c <= '\u{200a}') || c == '\u{2028}' || c == '\u{2029}' || c
        == '\u{202f}' || c == '\u{205f}' || c == '\u{3000}'
}

/// A text without its leading white space.
pub open spec fn trimmed_start(s: Seq<char>) -> Seq<char>
    decreases s.len(),
{
    if s.len() > 0 && white_space(s[0]) {
        trimmed_start(s.drop_first())
    } else {
        s
    }
}

/// A text without its trailing white space.
pub open spec fn trimmed_end(s: Seq<char>) -> Seq<char>
    decreases s.len(),
{
    if s.len() > 0 && white_space(s.last()) {
        trimmed_end(s.drop_last())
    } else {
        s
    }
}

/// A text without leading and trailing white space.
pub open spec fn trimmed(s: Seq<char>) -> Seq<char> {
    trimmed_end(trimmed_start(s))
}

/// A text that holds nothing but white space.
pub open spec fn blank(s: Seq<char>) -> bool {
    trimmed(s).len() == 0
}

/// The characters of a text, for access by index.
fn chars_of(s: &str) -> (res: Vec<char>)
    ensures
        res@ == s@,
{
    let mut out: Vec<char> = Vec::new();
    for c in it: s.chars()
        invariant
            it.seq() == s@,
            out@ == s@.take(it.index() as int),
    {
        out.push(c);
        assert(out@ =~= s@.take(it.index() as int + 1));
    }
    assert(s@.take(s@.len() as int) =~= s@);
    out
}

/// Removes leading and trailing white space.
pub fn trim(s: &str) -> (res: String)
    ensures
        res@ == trimmed(s@),
{
    let chars = chars_of(s);
    let len: usize = chars.len();
    let mut from: usize = 0;
    assert(s@.skip(0) =~= s@);
    while from < len && is_white_space(chars[from])
        invariant
            len == chars.len(),
            chars@ == s@,
            from <= len,
            trimmed_start(s@) == trimmed_start(s@.skip(from as int)),
        decreases len - from,
    {
        assert(s@.skip(from as int).drop_first() =~= s@.skip(from as int + 1));
        from = from + 1;
    }
    let ghost head = s@.skip(from as int);
    assert(trimmed_start(s@) == head);
    let mut to: usize = len;
    assert(s@.subrange(from as int, len as int) =~= head);
    while to > from && is_white_space(chars[to - 1])
        invariant
            len == chars.len(),
            chars@ == s@,
            from <= to <= len,
            trimmed_end(head) == trimmed_end(s@.subrange(from as int, to as int)),
        decreases to,
    {
        assert(s@.subrange(from as int, to as int).drop_last() =~= s@.subrange(
            from as int,
            to - 1,
        ));
        to = to - 1;
    }
    s.substring_char(from, to).to_owned()
}

/// Tells whether a text holds nothing but white space.
pub fn is_blank(s: &str) -> (res: bool)
    ensures
        res == blank(s@),
{
    trim(s).as_str().is_empty()
}

/// A text without the slashes at its end.
pub open spec fn without_slashes(s: Seq<char>) -> Seq<char>
    decreases s.len(),
{
    if s.len() > 0 && s.last() == '/' {
        without_slashes(s.drop_last())
    } else {
        s
    }
}

/// Removes the slashes at the end of a text.
pub fn trim_slashes(s: &str) -> (res: String)
    ensures
        res@ == without_slashes(s@),
{
    let chars = chars_of(s);
    let mut to: usize = chars.len();
    assert(s@.take(to as int) =~= s@);
    while to > 0 && chars[to - 1] == '/'
        invariant
            chars@ == s@,
            to <= chars.len(),
            without_slashes(s@) == without_slashes(s@.take(to as int)),
        decreases to,
    {
        assert(s@.take(to as int).drop_last() =~= s@.take(to - 1));
        to = to - 1;
    }
    let head = s.substring_char(0, to);
    assert(head@ =~= s@.take(to as int));
    head.to_owned()
}

/// Tells whether a text begins with another.
pub fn starts_with(s: &str, prefix: &str) -> (res: bool)
    ensures
        res == prefix@.is_prefix_of(s@),
{
    let text = chars_of(s);
    let head = chars_of(prefix);
    if head.len() > text.len() {
        return false;
    }
    let mut i: usize = 0;
    while i < head.len()
        invariant
            text@ == s@,
            head@ == prefix@,
            i <= head.len() <= text.len(),
            forall|j: int| 0 <= j < i ==> head@[j] == text@[j],
        decreases head.len() - i,
    {
        if head[i] != text[i] {
            assert(s@.subrange(0, prefix@.len() as int)[i as int] != prefix@[i as int]);
            return false;
        }
        i = i + 1;
    }
    assert(s@.subrange(0, prefix@.len() as int) =~= prefix@);
    true
}

/// A path that leads to the root of the file system: slashes, with nothing between them but
/// single dots, which stand for the directory before them.
pub open spec fn root_path(s: Seq<char>) -> bool {
    &&& s.len() > 0
    &&& s[0] == '/'
    &&& forall|i: int| 0 < i < s.len() ==> #[trigger] s[i] == '/' || (s[i] == '.' && s[i - 1] == '/')
}

/// Tells whether a path leads to the root of the file system.
pub fn is_root_path(s: &str) -> (res: bool)
    ensures
        res == root_path(s@),
{
    let chars = chars_of(s);
    if chars.len() == 0 || chars[0] != '/' {
        return false;
    }
    let mut i: usize = 1;
    while i < chars.len()
        invariant
            chars@ == s@,
            1 <= i <= chars.len(),
            forall|j: int| 0 < j < i ==> #[trigger] s@[j] == '/' || (s@[j] == '.' && s@[j - 1] == '/'),
        decreases chars.len() - i,
    {
        if chars[i] != '/' && !(chars[i] == '.' && chars[i - 1] == '/') {
            assert(s@[i as int] != '/');
            return false;
        }
        i = i + 1;
    }
    true
}

// Lists

/// The fields of a comma separated text: a comma opens a new field, any other character
/// extends the last one.
pub open spec fn comma_fields(s: Seq<char>) -> Seq<Seq<char>>
    decreases s.len(),
{
    if s.len() == 0 {
        seq![Seq::<char>::empty()]
    } else {
        let before = comma_fields(s.drop_last());
        if s.last() == ',' {
            before.push(Seq::<char>::empty())
        } else {
            before.drop_last().push(before.last().push(s.last()))
        }
    }
}

/// The fields that hold more than white space, each trimmed.
pub open spec fn names_in(fields: Seq<Seq<char>>) -> Seq<Seq<char>>
    decreases fields.len(),
{
    if fields.len() == 0 {
        Seq::empty()
    } else {
        let before = names_in(fields.drop_last());
        if blank(fields.last()) {
            before
        } else {
            before.push(trimmed(fields.last()))
        }
    }
}

/// Reads a comma separated list of names; blank entries do not count.
pub fn name_list(s: &str) -> (res: Vec<String>)
    ensures
        texts(res@) == names_in(comma_fields(s@)),
{
    let fields = split_commas(s);
    let mut out: Vec<String> = Vec::new();
    let mut i: usize = 0;
    let ghost all = texts(fields@);
    assert(texts(out@) =~= names_in(all.take(0)));
    while i < fields.len()
        invariant
            all == texts(fields@),
            i <= fields.len(),
            texts(out@) == names_in(all.take(i as int)),
        decreases fields.len() - i,
    {
        let name = trim(fields[i].as_str());
        let ghost before = out@;
        assert(all.take(i as int + 1).drop_last() =~= all.take(i as int));
        assert(all.take(i as int + 1).last() == fields@[i as int]@);
        if !name.as_str().is_empty() {
            out.push(name);
            assert(texts(out@) =~= texts(before).push(name@));
        }
        i = i + 1;
    }
    assert(all.take(all.len() as int) =~= all);
    out
}

fn split_commas(s: &str) -> (res: Vec<String>)
    ensures
        texts(res@) == comma_fields(s@),
{
    let chars = chars_of(s);
    let mut out: Vec<String> = Vec::new();
    let mut start: usize = 0;
    let mut i: usize = 0;
    assert(s@.subrange(0, 0) =~= Seq::<char>::empty());
    assert(comma_fields(s@.take(0)) =~= texts(out@).push(s@.subrange(0, 0)));
    while i < chars.len()
        invariant
            chars@ == s@,
            start <= i <= chars.len(),
            comma_fields(s@.take(i as int)) == texts(out@).push(
                s@.subrange(start as int, i as int),
            ),
        decreases chars.len() - i,
    {
        let ghost now = s@.take(i as int + 1);
        let ghost open_field = s@.subrange(start as int, i as int);
        assert(now.drop_last() =~= s@.take(i as int));
        assert(now.last() == chars@[i as int]);
        if chars[i] == ',' {
            let field = s.substring_char(start, i).to_owned();
            let ghost before = texts(out@);
            out.push(field);
            start = i + 1;
            assert(texts(out@) =~= before.push(open_field));
            assert(s@.subrange(start as int, i as int + 1) =~= Seq::<char>::empty());
        } else {
            let ghost before = comma_fields(now.drop_last());
            assert(before.drop_last() =~= texts(out@));
            assert(s@.subrange(start as int, i as int + 1) =~= open_field.push(s@[i as int]));
        }
        i = i + 1;
    }
    let field = s.substring_char(start, i).to_owned();
    let ghost before = texts(out@);
    out.push(field);
    assert(texts(out@) =~= before.push(s@.subrange(start as int, i as int)));
    assert(s@.take(s@.len() as int) =~= s@);
    out
}

// Numbers

/// A decimal digit character.
pub open spec fn digit(c: char) -> bool {
    '0' <= c <= '9'
}

/// The number that a row of digits denotes.
pub open spec fn digits_value(s: Seq<char>) -> nat
    decreases s.len(),
{
    if s.len() == 0 {
        0
    } else {
        10 * digits_value(s.drop_last()) + (s.last() as nat - '0' as nat) as nat
    }
}

/// The digits of a number that may be written with a plus sign.
pub open spec fn unsigned_digits(s: Seq<char>) -> Seq<char> {
    if s.len() > 0 && s[0] == '+' {
        s.drop_first()
    } else {
        s
    }
}

/// The unsigned 64 bit number that a text denotes: an optional plus sign, then digits only, at
/// least one.
pub open spec fn unsigned_number(s: Seq<char>) -> Option<u64> {
    let digits = unsigned_digits(s);
    if digits.len() > 0 && (forall|i: int| 0 <= i < digits.len() ==> digit(#[trigger] digits[i]))
        && digits_value(digits) <= u64::MAX {
        Some(digits_value(digits) as u64)
    } else {
        None
    }
}

proof fn lemma_digits_grow(s: Seq<char>, i: int)
    requires
        0 <= i <= s.len(),
    ensures
        digits_value(s.take(i)) <= digits_value(s),
    decreases s.len() - i,
{
    if i < s.len() {
        lemma_digits_grow(s, i + 1);
        assert(s.take(i + 1).drop_last() =~= s.take(i));
    } else {
        assert(s.take(i) =~= s);
    }
}

/// Reads an unsigned number.
pub fn parse_unsigned(s: &str) -> (res: Option<u64>)
    ensures
        res == unsigned_number(s@),
{
    let chars = chars_of(s);
    let start: usize = if chars.len() > 0 && chars[0] == '+' {
        1
    } else {
        0
    };
    let ghost digits = unsigned_digits(s@);
    assert(digits =~= s@.skip(start as int));
    if chars.len() == start {
        return None;
    }
    let mut value: u64 = 0;
    let mut i: usize = start;
    while i < chars.len()
        invariant
            chars@ == s@,
            start <= i <= chars.len(),
            digits == unsigned_digits(s@),
            digits == s@.skip(start as int),
            forall|j: int| 0 <= j < i - start ==> digit(#[trigger] digits[j]),
            value == digits_value(digits.take(i - start)),
        decreases chars.len() - i,
    {
        let c = chars[i];
        let ghost k = i - start;
        assert(digits[k] == c);
        if c < '0' || c > '9' {
            return None;
        }
        let d: u64 = (c as u32 - '0' as u32) as u64;
        proof {
            assert(digits.take(k + 1).drop_last() =~= digits.take(k));
            lemma_digits_grow(digits, k + 1);
        }
        if value > (u64::MAX - d) / 10 {
            return None;
        }
        value = value * 10 + d;
        i = i + 1;
    }
    assert(digits.take(digits.len() as int) =~= digits);
    Some(value)
}

/// The character of a digit.
pub open spec fn digit_char(d: nat) -> char {
    ('0' as nat + d) as char
}

/// A number in decimal, without leading zeros.
pub open spec fn decimal(n: nat) -> Seq<char>
    decreases n,
{
    if n < 10 {
        seq![digit_char(n)]
    } else {
        decimal(n / 10).push(digit_char(n % 10))
    }
}

fn digit_text(d: u64) -> (res: &'static str)
    requires
        d < 10,
    ensures
        res@ == seq![digit_char(d as nat)],
{
    proof {
        reveal_strlit("0");
        reveal_strlit("1");
        reveal_strlit("2");
        reveal_strlit("3");
        reveal_strlit("4");
        reveal_strlit("5");
        reveal_strlit("6");
        reveal_strlit("7");
        reveal_strlit("8");
        reveal_strlit("9");
    }
    let text = if d == 0 {
        "0"
    } else if d == 1 {
        "1"
    } else if d == 2 {
        "2"
    } else if d == 3 {
        "3"
    } else if d == 4 {
        "4"
    } else if d == 5 {
        "5"
    } else if d == 6 {
        "6"
    } else if d == 7 {
        "7"
    } else if d == 8 {
        "8"
    } else {
        "9"
    };
    assert(text@ =~= seq![digit_char(d as nat)]);
    text
}

/// Writes a number in decimal.
pub fn decimal_text(n: u64) -> (res: String)
    ensures
        res@ == decimal(n as nat),
    decreases n,
{
    if n < 10 {
        digit_text(n).to_owned()
    } else {
        let mut text = decimal_text(n / 10);
        text.append(digit_text(n % 10));
        assert(text@ =~= decimal(n as nat));
        text
    }
}

// Laws

proof fn lemma_trimmed_start(s: Seq<char>) -> (i: int)
    ensures
        0 <= i <= s.len(),
        trimmed_start(s) == s.skip(i),
        forall|k: int| 0 <= k < i ==> white_space(#[trigger] s[k]),
        i < s.len() ==> !white_space(s[i]),
    decreases s.len(),
{
    if s.len() > 0 && white_space(s[0]) {
        let rest = s.drop_first();
        let j = lemma_trimmed_start(rest);
        assert(rest.skip(j) =~= s.skip(j + 1));
        assert forall|k: int| 0 <= k < j + 1 implies white_space(#[trigger] s[k]) by {
            if k > 0 {
                assert(rest[k - 1] == s[k]);
            }
        }
        if j < rest.len() {
            assert(rest[j] == s[j + 1]);
        }
        j + 1
    } else {
        assert(s.skip(0) =~= s);
        0
    }
}

proof fn lemma_trimmed_end(s: Seq<char>) -> (j: int)
    ensures
        0 <= j <= s.len(),
        trimmed_end(s) == s.take(j),
        forall|k: int| j <= k < s.len() ==> white_space(#[trigger] s[k]),
        j > 0 ==> !white_space(s[j - 1]),
    decreases s.len(),
{
    if s.len() > 0 && white_space(s.last()) {
        let rest = s.drop_last();
        let j = lemma_trimmed_end(rest);
        assert(rest.take(j) =~= s.take(j));
        assert forall|k: int| j <= k < s.len() implies white_space(#[trigger] s[k]) by {
            if k < rest.len() {
                assert(rest[k] == s[k]);
            }
        }
        j
    } else {
        assert(s.take(s.len() as int) =~= s);
        s.len() as int
    }
}

/// Trimming cuts white space off both ends and nothing else: what is left is a stretch of the
/// text with white space around it, and neither begins nor ends with white space.
pub proof fn law_trim(s: Seq<char>)
    ensures
        exists|i: int, j: int|
            {
                &&& 0 <= i <= j <= s.len()
                &&& trimmed(s) == #[trigger] s.subrange(i, j)
                &&& forall|k: int| 0 <= k < i ==> white_space(#[trigger] s[k])
                &&& forall|k: int| j <= k < s.len() ==> white_space(#[trigger] s[k])
                &&& i < j ==> !white_space(s[i]) && !white_space(s[j - 1])
            },
{
    let i = lemma_trimmed_start(s);
    let head = s.skip(i);
    let n = lemma_trimmed_end(head);
    let j = i + n;
    assert(head.take(n) =~= s.subrange(i, j));
    assert forall|k: int| j <= k < s.len() implies white_space(#[trigger] s[k]) by {
        assert(head[k - i] == s[k]);
    }
    if i < j {
        assert(head[n - 1] == s[j - 1]);
    }
}

/// A text is blank exactly when each of its characters is white space.
pub proof fn law_blank(s: Seq<char>)
    ensures
        blank(s) <==> forall|k: int| 0 <= k < s.len() ==> white_space(#[trigger] s[k]),
{
    law_trim(s);
    let (i, j) = choose|i: int, j: int|
        {
            &&& 0 <= i <= j <= s.len()
            &&& trimmed(s) == #[trigger] s.subrange(i, j)
            &&& forall|k: int| 0 <= k < i ==> white_space(#[trigger] s[k])
            &&& forall|k: int| j <= k < s.len() ==> white_space(#[trigger] s[k])
            &&& i < j ==> !white_space(s[i]) && !white_space(s[j - 1])
        };
    assert(trimmed(s).len() == j - i);
}

/// Without its slashes a text is a prefix of itself that does not end in a slash, and all that
/// was cut off is slashes.
pub proof fn law_without_slashes(s: Seq<char>)
    ensures
        without_slashes(s).is_prefix_of(s),
        without_slashes(s).len() > 0 ==> without_slashes(s).last() != '/',
        forall|k: int| without_slashes(s).len() <= k < s.len() ==> #[trigger] s[k] == '/',
    decreases s.len(),
{
    if s.len() > 0 && s.last() == '/' {
        let rest = s.drop_last();
        law_without_slashes(rest);
        let t = without_slashes(s);
        assert(rest.subrange(0, t.len() as int) =~= s.subrange(0, t.len() as int));
        assert forall|k: int| t.len() <= k < s.len() implies #[trigger] s[k] == '/' by {
            if k < rest.len() {
                assert(rest[k] == s[k]);
            }
        }
    }
}

/// A path leads to the root exactly when it is a slash, or goes on from such a path with a slash,
/// or with a dot right after a slash.
pub proof fn law_root_path(s: Seq<char>, c: char)
    ensures
        !root_path(Seq::empty()),
        root_path(seq![c]) <==> c == '/',
        s.len() > 0 ==> (root_path(s.push(c)) <==> root_path(s) && (c == '/' || (c == '.'
            && s.last() == '/'))),
{
    if s.len() > 0 {
        let t = s.push(c);
        if root_path(t) {
            assert forall|i: int| 0 < i < s.len() implies #[trigger] s[i] == '/' || (s[i] == '.'
                && s[i - 1] == '/') by {
                assert(t[i] == s[i]);
                assert(t[i - 1] == s[i - 1]);
            }
            assert(t[s.len() as int] == c);
            assert(t[s.len() - 1] == s.last());
        }
    }
}

/// The fields of a text, put together again with commas, are the text, and no field holds a
/// comma.
pub proof fn law_comma_fields(s: Seq<char>)
    ensures
        comma_fields(s).len() > 0,
        delivery::joined(comma_fields(s), seq![',']) == s,
        forall|i: int|
            0 <= i < comma_fields(s).len() ==> !(#[trigger] comma_fields(s)[i]).contains(','),
    decreases s.len(),
{
    let comma = seq![','];
    if s.len() == 0 {
        assert(delivery::joined(comma_fields(s), comma) =~= s);
    } else {
        let rest = s.drop_last();
        law_comma_fields(rest);
        let before = comma_fields(rest);
        let all = comma_fields(s);
        if s.last() == ',' {
            assert(all.drop_last() =~= before);
            assert(delivery::joined(all, comma) =~= s);
        } else {
            let field = before.last().push(s.last());
            assert(all.drop_last() =~= before.drop_last());
            assert(all.last() == field);
            assert(rest.push(s.last()) =~= s);
            if before.len() == 1 {
                assert(delivery::joined(before, comma) == before[0]);
                assert(delivery::joined(all, comma) == field);
            } else {
                let head = delivery::joined(before.drop_last(), comma);
                assert(head + comma + field =~= (head + comma + before.last()).push(s.last()));
            }
            assert(delivery::joined(all, comma) =~= s);
            assert forall|i: int| 0 <= i < all.len() implies !(#[trigger] all[i]).contains(
                ',',
            ) by {
                if i < all.len() - 1 {
                    assert(all[i] == before[i]);
                } else {
                    assert(!before[before.len() - 1].contains(','));
                    assert forall|k: int| 0 <= k < field.len() implies field[k] != ',' by {
                        if k < before.last().len() {
                            assert(before.last().contains(before.last()[k]));
                        }
                    }
                }
            }
        }
    }
}

/// The names in a list are the names in its parts, in order; a field of white space gives no
/// name, and any other gives itself without the white space around it.
pub proof fn law_names_in(a: Seq<Seq<char>>, b: Seq<Seq<char>>, field: Seq<char>)
    ensures
        names_in(a + b) == names_in(a) + names_in(b),
        (forall|k: int| 0 <= k < field.len() ==> white_space(#[trigger] field[k])) ==> names_in(
            seq![field],
        ) == Seq::<Seq<char>>::empty(),
        !(forall|k: int| 0 <= k < field.len() ==> white_space(#[trigger] field[k])) ==> names_in(
            seq![field],
        ) == seq![trimmed(field)],
    decreases b.len(),
{
    law_blank(field);
    let single = seq![field];
    assert(single.drop_last() =~= Seq::<Seq<char>>::empty());
    assert(names_in(single.drop_last()) =~= Seq::<Seq<char>>::empty());
    assert(Seq::<Seq<char>>::empty().push(trimmed(field)) =~= seq![trimmed(field)]);
    if b.len() == 0 {
        assert(a + b =~= a);
        assert(names_in(a) + names_in(b) =~= names_in(a));
    } else {
        assert((a + b).drop_last() =~= a + b.drop_last());
        law_names_in(a, b.drop_last(), field);
        assert(names_in(a + b) =~= names_in(a) + names_in(b));
    }
}

/// A digit in front adds its value times the power of ten that its place stands for.
pub proof fn law_digits_have_places(c: char, s: Seq<char>)
    requires
        '0' <= c <= '9',
        forall|i: int| 0 <= i < s.len() ==> '0' <= #[trigger] s[i] <= '9',
    ensures
        digits_value(Seq::empty()) == 0,
        digits_value(seq![c] + s) == (c as int - '0' as int) * pow(10, s.len()) + digits_value(s),
    decreases s.len(),
{
    let all = seq![c] + s;
    if s.len() == 0 {
        assert(all.drop_last() =~= Seq::<char>::empty());
        lemma_pow0(10);
        assert(digits_value(all.drop_last()) == 0);
    } else {
        assert(all.drop_last() =~= seq![c] + s.drop_last());
        assert forall|i: int| 0 <= i < s.drop_last().len() implies '0' <= #[trigger] s.drop_last()[i]
            <= '9' by {
            assert(s[i] == s.drop_last()[i]);
        }
        law_digits_have_places(c, s.drop_last());
        let d = c as int - '0' as int;
        let p = pow(10, (s.len() - 1) as nat);
        assert(pow(10, s.len()) == 10 * p) by {
            reveal(pow);
        }
        assert(10 * (d * p) == d * (10 * p)) by (nonlinear_arith);
        assert(s[s.len() - 1] == s.last());
    }
}

/// A number in decimal is made of digits, without a zero in front unless it is zero, and denotes
/// the number.
pub proof fn law_decimal(n: nat)
    ensures
        decimal(n).len() > 0,
        forall|i: int| 0 <= i < decimal(n).len() ==> '0' <= #[trigger] decimal(n)[i] <= '9',
        decimal(n)[0] == '0' ==> n == 0 && decimal(n).len() == 1,
        digits_value(decimal(n)) == n,
    decreases n,
{
    let text = decimal(n);
    if n < 10 {
        assert(text.drop_last() =~= Seq::<char>::empty());
        assert(digits_value(text.drop_last()) == 0);
    } else {
        law_decimal(n / 10);
        assert(text.drop_last() =~= decimal(n / 10));
        assert(text[0] == decimal(n / 10)[0]);
    }
}

/// Only digits, with at most a plus sign in front, are read as a number.
pub proof fn law_numbers_are_digits(s: Seq<char>)
    requires
        unsigned_number(s) is Some,
    ensures
        s.len() > 0,
        '0' <= s[0] <= '9' || (s[0] == '+' && s.len() > 1),
        forall|i: int| 0 < i < s.len() ==> '0' <= #[trigger] s[i] <= '9',
{
    let digits = unsigned_digits(s);
    if s[0] == '+' {
        assert forall|i: int| 0 < i < s.len() implies '0' <= #[trigger] s[i] <= '9' by {
            assert(digit(digits[i - 1]));
        }
    } else {
        assert forall|i: int| 0 <= i < s.len() implies '0' <= #[trigger] s[i] <= '9' by {
            assert(digit(digits[i]));
        }
    }
}

/// Any digits, with or without a plus sign and with any zeros in front, are read as the number
/// that they denote, if it has 64 bits.
pub proof fn law_digits_are_read(s: Seq<char>)
    requires
        s.len() > 0,
        forall|i: int| 0 <= i < s.len() ==> '0' <= #[trigger] s[i] <= '9',
    ensures
        digits_value(s) <= u64::MAX ==> unsigned_number(s) == Some(digits_value(s) as u64),
        digits_value(s) > u64::MAX ==> unsigned_number(s) is None,
        unsigned_number(seq!['+'] + s) == unsigned_number(s),
{
    assert(s[0] != '+');
    assert((seq!['+'] + s).drop_first() =~= s);
    assert forall|i: int| 0 <= i < s.len() implies digit(#[trigger] s[i]) by {}
}

/// A number that was written in decimal is read back.
pub proof fn law_decimal_is_read_back(n: u64)
    ensures
        unsigned_number(decimal(n as nat)) == Some(n),
{
    law_decimal(n as nat);
    law_digits_are_read(decimal(n as nat));
}

/// An optional string holds a text exactly when it is there, and a list of strings the texts of
/// its strings, in order.
pub proof fn law_texts_of_strings(s: Option<String>, list: Seq<String>)
    ensures
        s is Some <==> opt_text(s) is Some,
        s matches Some(t) ==> opt_text(s) == Some(t@),
        texts(list).len() == list.len(),
        forall|i: int| 0 <= i < list.len() ==> #[trigger] texts(list)[i] == list[i]@,
{
}

} // verus!
