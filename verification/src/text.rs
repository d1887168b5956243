//! Text primitives: case folding, searching, trimming and number rendering,
//! stated over the sequence of characters that a string holds.
use vstd::prelude::*;
use vstd::string::*;

verus! {

/// The character with ASCII capitals turned to small letters.
pub open spec fn ascii_lower(c: char) -> char {
    if 'A' <= c && c <= 'Z' {
        (c as u8 + 32) as char
    } else {
        c
    }
}

/// Equality of two texts up to the case of ASCII letters.
pub open spec fn same_ignoring_ascii_case(a: Seq<char>, b: Seq<char>) -> bool {
    &&& a.len() == b.len()
    &&& forall|i: int| 0 <= i < a.len() ==> ascii_lower(a[i]) == ascii_lower(b[i])
}

/// Whether `needle` stands in `hay` at position `at`.
pub open spec fn stands_at(needle: Seq<char>, hay: Seq<char>, at: int) -> bool {
    &&& 0 <= at
    &&& at + needle.len() <= hay.len()
    &&& hay.subrange(at, at + needle.len()) == needle
}

/// Whether `needle` occurs somewhere in `hay`.
pub open spec fn is_substring(needle: Seq<char>, hay: Seq<char>) -> bool {
    exists|at: int| stands_at(needle, hay, at)
}

/// The Unicode `White_Space` property.
pub open spec fn is_space(c: char) -> bool {
    let u = c as u32;
    ||| 0x09 <= u <= 0x0D
    ||| u == 0x20
    ||| u == 0x85
    ||| u == 0xA0
    ||| u == 0x1680
    ||| 0x2000 <= u <= 0x200A
    ||| u == 0x2028
    ||| u == 0x2029
    ||| u == 0x202F
    ||| u == 0x205F
    ||| u == 0x3000
}

/// `s` without its leading white space.
pub open spec fn trimmed_start(s: Seq<char>) -> Seq<char>
    decreases s.len(),
{
    if s.len() > 0 && is_space(s[0]) {
        trimmed_start(s.drop_first())
    } else {
        s
    }
}

/// `s` without its trailing white space.
pub open spec fn trimmed_end(s: Seq<char>) -> Seq<char>
    decreases s.len(),
{
    if s.len() > 0 && is_space(s.last()) {
        trimmed_end(s.drop_last())
    } else {
        s
    }
}

/// `s` without white space at either end.
pub open spec fn trimmed(s: Seq<char>) -> Seq<char> {
    trimmed_end(trimmed_start(s))
}

/// Whether `s` begins with `prefix`.
pub open spec fn has_prefix(s: Seq<char>, prefix: Seq<char>) -> bool {
    stands_at(prefix, s, 0)
}

/// What follows `prefix` in `s`, where `s` begins with it.
pub open spec fn after_prefix(s: Seq<char>, prefix: Seq<char>) -> Option<Seq<char>> {
    if has_prefix(s, prefix) {
        Some(s.skip(prefix.len() as int))
    } else {
        None
    }
}

/// The decimal digit of a number below ten.
pub open spec fn digit_char(d: int) -> char {
    (d + 48) as char
}

/// The decimal notation of a natural number.
pub open spec fn decimal(n: nat) -> Seq<char>
    decreases n,
{
    if n < 10 {
        seq![digit_char(n as int)]
    } else {
        decimal(n / 10).push(digit_char((n % 10) as int))
    }
}

/// The decimal notation of an integer, with a minus sign where it is negative.
pub open spec fn signed_decimal(n: int) -> Seq<char> {
    if n < 0 {
        seq!['-'] + decimal((-n) as nat)
    } else {
        decimal(n as nat)
    }
}

/// Whether every character is a decimal digit.
pub open spec fn all_digits(s: Seq<char>) -> bool {
    forall|i: int| 0 <= i < s.len() ==> '0' <= #[trigger] s[i] && s[i] <= '9'
}

/// The number that a row of decimal digits denotes.
pub open spec fn digits_value(s: Seq<char>) -> nat
    decreases s.len(),
{
    if s.len() == 0 {
        0
    } else {
        10 * digits_value(s.drop_last()) + (s.last() as nat - 48) as nat
    }
}

/// The byte that a text denotes: an optional plus sign, then at least one
/// decimal digit and nothing else, for a number up to 255.
pub open spec fn byte_of(s: Seq<char>) -> Option<u8> {
    let digits = if s.len() > 0 && s[0] == '+' {
        s.drop_first()
    } else {
        s
    };
    if digits.len() > 0 && all_digits(digits) && digits_value(digits) <= 255 {
        Some(digits_value(digits) as u8)
    } else {
        None
    }
}

/// The value of a hexadecimal digit of either case.
pub open spec fn hex_value(c: char) -> Option<u8> {
    if '0' <= c && c <= '9' {
        Some((c as u8 - 48) as u8)
    } else if 'a' <= c && c <= 'f' {
        Some((c as u8 - 87) as u8)
    } else if 'A' <= c && c <= 'F' {
        Some((c as u8 - 55) as u8)
    } else {
        None
    }
}

/// The byte that two characters denote in base 16: two digits, or a plus sign
/// and one digit.
pub open spec fn hex_byte(high: char, low: char) -> Option<u8> {
    match (hex_value(high), hex_value(low)) {
        (Some(h), Some(l)) => Some((16 * h + l) as u8),
        (None, Some(l)) => if high == '+' {
            Some(l)
        } else {
            None
        },
        _ => None,
    }
}

/// A text with its ASCII capitals turned to small letters.
pub open spec fn ascii_lowered(s: Seq<char>) -> Seq<char> {
    s.map_values(|c: char| ascii_lower(c))
}

/// What `str::to_lowercase` of the standard library makes of a text that is
/// not empty: its first character, and the others.
pub uninterp spec fn lowercase_parts(s: Seq<char>) -> (char, Seq<char>);

/// A text in lower case. The empty text, and no other, is empty in lower case.
pub open spec fn lowercase(s: Seq<char>) -> Seq<char> {
    if s.len() == 0 {
        s
    } else {
        seq![lowercase_parts(s).0] + lowercase_parts(s).1
    }
}

/// `str::to_lowercase`: the text with every character replaced by its Unicode
/// lower-case mapping, which is at least one character. So the empty text stays
/// empty, and any other has a first character and a rest, both of which depend
/// on the text alone. On a text of ASCII characters it turns exactly the
/// capitals to small letters.
#[verifier::external_body]
pub(crate) fn to_lowercase(s: &str) -> (r: String)
    ensures
        s@.len() == 0 ==> r@ == s@,
        s@.len() > 0 ==> r@ == seq![lowercase_parts(s@).0] + lowercase_parts(s@).1,
        vstd::utf8::is_ascii_chars(s@) ==> r@ == ascii_lowered(s@),
{
    s.to_lowercase()
}

/// The characters of a string, one by one.
pub fn chars_of(s: &str) -> (r: Vec<char>)
    ensures
        r@ == s@,
{
    let mut out: Vec<char> = Vec::new();
    for c in it: s.chars()
        invariant
            out@.len() == it.index(),
            forall|i: int| 0 <= i < out@.len() ==> out@[i] == it.seq()[i],
            it.seq() == s@,
    {
        out.push(c);
    }
    assert(out@ =~= s@);
    out
}

/// Text equality.
pub fn same(a: &str, b: &str) -> (r: bool)
    ensures
        r == (a@ == b@),
{
    let x = chars_of(a);
    let y = chars_of(b);
    if x.len() != y.len() {
        return false;
    }
    let mut i: usize = 0;
    while i < x.len()
        invariant
            i <= x@.len(),
            x@.len() == y@.len(),
            x@ == a@,
            y@ == b@,
            forall|j: int| 0 <= j < i ==> x@[j] == y@[j],
        decreases x@.len() - i,
    {
        if x[i] != y[i] {
            return false;
        }
        i += 1;
    }
    assert(x@ =~= y@);
    true
}

fn lower(c: char) -> (r: char)
    ensures
        r == ascii_lower(c),
{
    if 'A' <= c && c <= 'Z' {
        ((c as u8) + 32) as char
    } else {
        c
    }
}

/// Text equality up to the case of ASCII letters.
pub fn eq_ignore_ascii_case(a: &str, b: &str) -> (r: bool)
    ensures
        r == same_ignoring_ascii_case(a@, b@),
{
    let x = chars_of(a);
    let y = chars_of(b);
    if x.len() != y.len() {
        return false;
    }
    let mut i: usize = 0;
    while i < x.len()
        invariant
            i <= x@.len(),
            x@.len() == y@.len(),
            x@ == a@,
            y@ == b@,
            forall|j: int| 0 <= j < i ==> ascii_lower(x@[j]) == ascii_lower(y@[j]),
        decreases x@.len() - i,
    {
        if lower(x[i]) != lower(y[i]) {
            return false;
        }
        i += 1;
    }
    true
}

/// Whether `needle` stands at position `at` of `hay`.
fn matches_at(hay: &Vec<char>, needle: &Vec<char>, at: usize) -> (r: bool)
    requires
        at + needle@.len() <= hay@.len(),
    ensures
        r == stands_at(needle@, hay@, at as int),
{
    let total: usize = hay.len();
    let mut i: usize = 0;
    while i < needle.len()
        invariant
            i <= needle@.len(),
            at + needle@.len() <= hay@.len(),
            hay@.len() == total,
            forall|j: int| 0 <= j < i ==> hay@[at + j] == needle@[j],
        decreases needle@.len() - i,
    {
        if hay[at + i] != needle[i] {
            assert(hay@.subrange(at as int, at + needle@.len())[i as int] == hay@[at + i]);
            return false;
        }
        i += 1;
    }
    assert(hay@.subrange(at as int, at + needle@.len()) =~= needle@);
    true
}

/// Substring search.
pub fn contains(hay: &str, needle: &str) -> (r: bool)
    ensures
        r == is_substring(needle@, hay@),
        r == found_in(needle@, hay@),
{
    proof {
        law_substrings_are_cut_out(needle@, hay@);
    }
    let h = chars_of(hay);
    let n = chars_of(needle);
    if n.len() > h.len() {
        return false;
    }
    let last: usize = h.len() - n.len();
    let mut at: usize = 0;
    while at < last
        invariant
            h@ == hay@,
            n@ == needle@,
            n@.len() <= h@.len(),
            last == h@.len() - n@.len(),
            at <= last,
            is_substring(needle@, hay@) == found_in(needle@, hay@),
            forall|j: int| 0 <= j < at ==> !stands_at(n@, h@, j),
        decreases last - at,
    {
        if matches_at(&h, &n, at) {
            return true;
        }
        at += 1;
    }
    let r = matches_at(&h, &n, last);
    assert(forall|j: int| stands_at(n@, h@, j) ==> j <= last);
    r
}

/// Whether a character is white space.
pub fn is_whitespace(c: char) -> (r: bool)
    ensures
        r == is_space(c),
{
    let u: u32 = c as u32;
    (0x09 <= u && u <= 0x0D) || u == 0x20 || u == 0x85 || u == 0xA0 || u == 0x1680 || (0x2000 <= u
        && u <= 0x200A) || u == 0x2028 || u == 0x2029 || u == 0x202F || u == 0x205F || u == 0x3000
}

/// The text without white space at either end.
pub fn trim(s: &str) -> (r: &str)
    ensures
        r@ == trimmed(s@),
{
    let v = chars_of(s);
    let mut from: usize = 0;
    assert(s@.skip(0) =~= s@);
    while from < v.len() && is_whitespace(v[from])
        invariant
            v@ == s@,
            from <= v@.len(),
            trimmed_start(s@) == trimmed_start(s@.skip(from as int)),
        decreases v@.len() - from,
    {
        assert(s@.skip(from as int).drop_first() =~= s@.skip(from + 1));
        from += 1;
    }
    let ghost body = s@.skip(from as int);
    assert(trimmed_start(s@) == body);
    let mut to: usize = v.len();
    assert(body =~= s@.subrange(from as int, to as int));
    while from < to && is_whitespace(v[to - 1])
        invariant
            v@ == s@,
            from <= to <= v@.len(),
            trimmed_end(body) == trimmed_end(s@.subrange(from as int, to as int)),
        decreases to - from,
    {
        assert(s@.subrange(from as int, to as int).drop_last() =~= s@.subrange(
            from as int,
            to - 1,
        ));
        to -= 1;
    }
    s.substring_char(from, to)
}

/// What follows `prefix`, where the text begins with it.
pub fn strip_prefix<'a>(s: &'a str, prefix: &str) -> (r: Option<&'a str>)
    ensures
        match r {
            Some(rest) => after_prefix(s@, prefix@) == Some(rest@) && s@ == prefix@ + rest@,
            None => after_prefix(s@, prefix@) is None,
        },
{
    let v = chars_of(s);
    let p = chars_of(prefix);
    if p.len() <= v.len() && matches_at(&v, &p, 0) {
        let rest = s.substring_char(p.len(), v.len());
        assert(rest@ =~= s@.skip(prefix@.len() as int));
        proof {
            law_prefix_and_rest_are_the_text(s@, prefix@, rest@);
        }
        Some(rest)
    } else {
        None
    }
}

/// What the standard library says of a text that it does not read as a byte in
/// decimal notation.
pub uninterp spec fn decimal_error(s: Seq<char>) -> Seq<char>;

/// `str::parse` for a `u8`: it accepts an optional plus sign with decimal
/// digits behind it, at least one and nothing else, for a number up to 255.
/// What it says of any other text, as `std::num::ParseIntError` displays it,
/// depends on the text alone.
#[verifier::external_body]
pub(crate) fn parse_u8(s: &str) -> (r: Result<u8, String>)
    ensures
        match r {
            Ok(n) => byte_of(s@) == Some(n),
            Err(words) => byte_of(s@) is None && words@ == decimal_error(s@),
        },
{
    s.parse::<u8>().map_err(|e| e.to_string())
}

/// What the standard library says of two characters that it does not read as
/// a byte in base 16.
pub uninterp spec fn hex_error(s: Seq<char>) -> Seq<char>;

/// `u8::from_str_radix` in base 16, on two characters: it accepts two
/// hexadecimal digits of either case, or a plus sign and one digit. What it
/// says of any others, as `std::num::ParseIntError` displays it, depends on
/// the characters alone.
#[verifier::external_body]
pub(crate) fn parse_hex_byte(s: &str) -> (r: Result<u8, String>)
    requires
        s@.len() == 2,
    ensures
        match r {
            Ok(n) => hex_byte(s@[0], s@[1]) == Some(n),
            Err(words) => hex_byte(s@[0], s@[1]) is None && words@ == hex_error(s@),
        },
{
    u8::from_str_radix(s, 16).map_err(|e| e.to_string())
}

fn append_digit(s: &mut String, d: u64)
    requires
        d < 10,
    ensures
        final(s)@ == old(s)@.push(digit_char(d as int)),
{
    proof {
        reveal_strlit("0");
        reveal_strlit("1");
        reveal_strlit("2");
        reveal_strlit("3");
        reveal_strlit("4");
        reveal_strlit("5");
        reveal_strlit("6");
        reveal_strlit("7");
        reveal_strlit("8");
        reveal_strlit("9");
    }
    if d == 0 {
        s.append("0");
    } else if d == 1 {
        s.append("1");
    } else if d == 2 {
        s.append("2");
    } else if d == 3 {
        s.append("3");
    } else if d == 4 {
        s.append("4");
    } else if d == 5 {
        s.append("5");
    } else if d == 6 {
        s.append("6");
    } else if d == 7 {
        s.append("7");
    } else if d == 8 {
        s.append("8");
    } else {
        s.append("9");
    }
    assert(s@ =~= old(s)@.push(digit_char(d as int)));
}

/// Appends the decimal notation of `n`.
pub fn append_decimal(s: &mut String, n: u64)
    ensures
        final(s)@ == old(s)@ + decimal(n as nat),
    decreases n,
{
    if n >= 10 {
        append_decimal(s, n / 10);
    }
    append_digit(s, n % 10);
    assert(s@ =~= old(s)@ + decimal(n as nat));
}

/// Appends the decimal notation of `n`, with a minus sign where it is negative.
pub fn append_signed(s: &mut String, n: i64)
    ensures
        final(s)@ == old(s)@ + signed_decimal(n as int),
{
    if n >= 0 {
        append_decimal(s, n as u64);
    } else {
        proof {
            reveal_strlit("-");
        }
        s.append("-");
        let magnitude: u64 = if n == i64::MIN {
            0x8000_0000_0000_0000u64
        } else {
            (-n) as u64
        };
        append_decimal(s, magnitude);
        assert(s@ =~= old(s)@ + signed_decimal(n as int));
    }
}

/// Texts that differ in the case of ASCII letters alone are the same once
/// their capitals are turned to small letters, so it makes no difference which
/// of them is searched for.
pub proof fn law_ascii_case_makes_no_difference(a: Seq<char>, b: Seq<char>)
    requires
        same_ignoring_ascii_case(a, b),
    ensures
        ascii_lowered(a) == ascii_lowered(b),
{
    assert(ascii_lowered(a) =~= ascii_lowered(b));
}

/// Whether a text has a part in it: there is something before the part and
/// something behind it, or nothing, and together they are the text.
pub open spec fn found_in(part: Seq<char>, text: Seq<char>) -> bool {
    exists|before: Seq<char>, behind: Seq<char>| text == #[trigger] (before + part + behind)
}

/// To search a text for a part is to ask whether the text can be cut into
/// something, the part, and something else.
pub proof fn law_substrings_are_cut_out(part: Seq<char>, text: Seq<char>)
    ensures
        is_substring(part, text) <==> found_in(part, text),
{
    if is_substring(part, text) {
        let at = choose|at: int| stands_at(part, text, at);
        let before = text.take(at);
        let behind = text.skip(at + part.len());
        assert(text =~= before + part + behind) by {
            assert forall|i: int| at <= i < at + part.len() implies text[i] == part[i - at] by {
                assert(text.subrange(at, at + part.len())[i - at] == text[i]);
            }
        }
    }
    if found_in(part, text) {
        let (before, behind) = choose|before: Seq<char>, behind: Seq<char>|
            text == #[trigger] (before + part + behind);
        assert(text.subrange(before.len() as int, (before.len() + part.len()) as int) =~= part);
        assert(stands_at(part, text, before.len() as int));
    }
}

/// A prefix and what follows it are together the text, and a text that begins
/// with the prefix gives back the rest.
pub proof fn law_prefix_and_rest_are_the_text(text: Seq<char>, prefix: Seq<char>, rest: Seq<char>)
    ensures
        after_prefix(text, prefix) == Some(rest) <==> text == prefix + rest,
{
    if after_prefix(text, prefix) == Some(rest) {
        assert(text.subrange(0, prefix.len() as int) =~= prefix);
        assert(text =~= prefix + rest) by {
            assert forall|i: int| 0 <= i < prefix.len() implies text[i] == prefix[i] by {
                assert(text.subrange(0, prefix.len() as int)[i] == text[i]);
            }
        }
    }
    if text == prefix + rest {
        assert(text.subrange(0, prefix.len() as int) =~= prefix);
        assert(text.skip(prefix.len() as int) =~= rest);
    }
}

/// Trimming takes white space away from both ends and nothing else: what is
/// left neither begins nor ends with white space. Among the ASCII characters
/// white space is the blank and the characters from tab to carriage return.
pub proof fn law_trimming_takes_white_space_away(s: Seq<char>)
    ensures
        exists|before: Seq<char>, behind: Seq<char>|
            {
                &&& s == #[trigger] (before + trimmed(s) + behind)
                &&& forall|i: int| 0 <= i < before.len() ==> is_space(#[trigger] before[i])
                &&& forall|i: int| 0 <= i < behind.len() ==> is_space(#[trigger] behind[i])
            },
        trimmed(s).len() > 0 ==> !is_space(trimmed(s)[0]) && !is_space(trimmed(s).last()),
        forall|c: char|
            c as u32 <= 0x7f ==> (#[trigger] is_space(c) <==> c as u32 == 0x20 || 0x09 <= c as u32
                <= 0x0D),
{
    let middle = trimmed_start(s);
    lemma_trimmed_start(s);
    lemma_trimmed_end(middle);
    let before = choose|before: Seq<char>| s == #[trigger] (before + middle) && all_space(before);
    let behind = choose|behind: Seq<char>|
        middle == #[trigger] (trimmed(s) + behind) && all_space(behind);
    assert(s =~= before + trimmed(s) + behind);
    if trimmed(s).len() > 0 {
        assert(middle[0] == trimmed(s)[0]);
    }
}

spec fn all_space(s: Seq<char>) -> bool {
    forall|i: int| 0 <= i < s.len() ==> is_space(#[trigger] s[i])
}

proof fn lemma_trimmed_start(s: Seq<char>)
    ensures
        exists|before: Seq<char>| s == #[trigger] (before + trimmed_start(s)) && all_space(before),
        trimmed_start(s).len() > 0 ==> !is_space(trimmed_start(s)[0]),
    decreases s.len(),
{
    if s.len() > 0 && is_space(s[0]) {
        lemma_trimmed_start(s.drop_first());
        let rest = trimmed_start(s.drop_first());
        let before = choose|before: Seq<char>|
            s.drop_first() == #[trigger] (before + rest) && all_space(before);
        let longer = seq![s[0]] + before;
        assert(s =~= seq![s[0]] + s.drop_first());
        assert(s =~= longer + trimmed_start(s));
        assert(all_space(longer));
    } else {
        assert(s =~= Seq::<char>::empty() + trimmed_start(s));
        assert(all_space(Seq::<char>::empty()));
    }
}

proof fn lemma_trimmed_end(s: Seq<char>)
    ensures
        exists|behind: Seq<char>| s == #[trigger] (trimmed_end(s) + behind) && all_space(behind),
        trimmed_end(s).len() > 0 ==> !is_space(trimmed_end(s).last()),
    decreases s.len(),
{
    if s.len() > 0 && is_space(s.last()) {
        lemma_trimmed_end(s.drop_last());
        let rest = trimmed_end(s.drop_last());
        let behind = choose|behind: Seq<char>|
            s.drop_last() == #[trigger] (rest + behind) && all_space(behind);
        let longer = behind.push(s.last());
        assert(s =~= s.drop_last().push(s.last()));
        assert(s =~= trimmed_end(s) + longer);
        assert(all_space(longer));
    } else {
        assert(s =~= trimmed_end(s) + Seq::<char>::empty());
        assert(all_space(Seq::<char>::empty()));
    }
}

/// Two texts are the same up to case exactly where each pair of characters is
/// the same, or one is the capital of the other: a letter from `a` to `z` and
/// the one 32 below it.
pub proof fn law_case_is_that_of_ascii_letters(a: Seq<char>, b: Seq<char>)
    ensures
        same_ignoring_ascii_case(a, b) <==> a.len() == b.len() && forall|i: int|
            0 <= i < a.len() ==> {
                let (x, y) = (#[trigger] a[i] as u32, b[i] as u32);
                ||| x == y
                ||| 97 <= x <= 122 && x == y + 32
                ||| 97 <= y <= 122 && y == x + 32
            },
        forall|i: int|
            0 <= i < a.len() ==> (#[trigger] ascii_lowered(a)[i]) as u32 == if 65 <= a[i] as u32
                <= 90 {
                a[i] as u32 + 32
            } else {
                a[i] as u32 as int
            },
        ascii_lowered(a).len() == a.len(),
{
}

/// The decimal notation of a number reads back as the number. It consists of
/// digits, and of one digit only where the number is below ten.
pub proof fn law_decimals_read_back(n: nat)
    ensures
        digits_value(decimal(n)) == n,
        all_digits(decimal(n)),
        decimal(n).len() == 1 <==> n < 10,
        n > 0 ==> decimal(n)[0] != '0',
    decreases n,
{
    if n >= 10 {
        law_decimals_read_back(n / 10);
        let d = decimal(n);
        assert(d.drop_last() =~= decimal(n / 10));
        assert(d.last() == digit_char((n % 10) as int));
        assert(all_digits(d)) by {
            assert forall|i: int| 0 <= i < d.len() implies '0' <= #[trigger] d[i] && d[i] <= '9' by {
                if i < d.len() - 1 {
                    assert(d[i] == decimal(n / 10)[i]);
                }
            }
        }
    } else {
        let d = decimal(n);
        assert(d.drop_last() =~= Seq::<char>::empty());
        assert(digits_value(Seq::<char>::empty()) == 0);
        assert(digits_value(d) == 10 * digits_value(d.drop_last()) + (d.last() as nat - 48) as nat);
    }
}

/// A number below 256 is read from its digits, with a plus sign before them or
/// not; nothing else is read as one. Each further digit is worth itself and ten
/// times what stood before it.
pub proof fn law_bytes_are_read_from_digits(s: Seq<char>, digits: Seq<char>, v: u8, c: char)
    ensures
        (s == digits || s == seq!['+'] + digits) && digits.len() > 0 && all_digits(digits)
            && digits_value(digits) == v ==> byte_of(s) == Some(v),
        byte_of(s) == Some(v) ==> {
            let d = if s[0] == '+' {
                s.skip(1)
            } else {
                s
            };
            d.len() > 0 && all_digits(d) && digits_value(d) == v
        },
        all_digits(digits) <==> forall|i: int|
            0 <= i < digits.len() ==> '0' <= #[trigger] digits[i] && digits[i] <= '9',
        digits_value(Seq::<char>::empty()) == 0,
        '0' <= c && c <= '9' ==> digits_value(digits.push(c)) == 10 * digits_value(digits) + (
        c as int - '0' as int),
{
    assert((seq!['+'] + digits).skip(1) =~= digits);
    assert(digits.push(c).drop_last() =~= digits);
    if digits.len() > 0 && all_digits(digits) {
        assert('0' <= digits[0] && digits[0] <= '9');
    }
}

/// A negative number has a minus sign before its digits.
pub proof fn law_negative_numbers_have_a_sign(n: nat)
    ensures
        signed_decimal(n as int) == decimal(n),
        n > 0 ==> signed_decimal(-n) == seq!['-'] + decimal(n),
{
}

} // verus!
