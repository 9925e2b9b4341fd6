//! Text primitives: searching, trimming, ordering and number formatting over
//! the characters of a string.

use vstd::prelude::*;

verus! {

/// `part` occurs in `s` as consecutive characters.
pub open spec fn has_substring(s: Seq<char>, part: Seq<char>) -> bool {
    exists|i: int|
        0 <= i && i + part.len() <= s.len() && #[trigger] s.subrange(i, i + part.len()) == part
}

/// `s` begins with `prefix`.
pub open spec fn has_prefix(s: Seq<char>, prefix: Seq<char>) -> bool {
    prefix.len() <= s.len() && s.subrange(0, prefix.len() as int) == prefix
}

/// `s` ends with `suffix`.
pub open spec fn has_suffix(s: Seq<char>, suffix: Seq<char>) -> bool {
    suffix.len() <= s.len() && s.subrange(s.len() - suffix.len(), s.len() as int) == suffix
}

/// The texts of a list.
pub open spec fn texts(list: Seq<String>) -> Seq<Seq<char>> {
    list.map_values(|s: String| s@)
}

/// The Unicode `White_Space` property.
pub open spec fn is_white_space(c: char) -> bool {
    let n = c as u32;
    ||| 0x9 <= n <= 0xd
    ||| n == 0x20
    ||| n == 0x85
    ||| n == 0xa0
    ||| n == 0x1680
    ||| 0x2000 <= n <= 0x200a
    ||| n == 0x2028
    ||| n == 0x2029
    ||| n == 0x202f
    ||| n == 0x205f
    ||| n == 0x3000
}

/// Every character of `s` is white space; the empty string is blank.
pub open spec fn is_blank_text(s: Seq<char>) -> bool {
    forall|i: int| 0 <= i < s.len() ==> is_white_space(#[trigger] s[i])
}

/// `s` from its first character that is not white space on.
pub open spec fn trim_front(s: Seq<char>) -> Seq<char>
    decreases s.len(),
{
    if s.len() > 0 && is_white_space(s[0]) {
        trim_front(s.drop_first())
    } else {
        s
    }
}

/// `s` up to its last character that is not white space.
pub open spec fn trim_back(s: Seq<char>) -> Seq<char>
    decreases s.len(),
{
    if s.len() > 0 && is_white_space(s.last()) {
        trim_back(s.drop_last())
    } else {
        s
    }
}

/// `s` without its leading and trailing white space.
pub open spec fn trimmed(s: Seq<char>) -> Seq<char> {
    trim_back(trim_front(s))
}

/// The decimal digit of a value below ten.
pub open spec fn digit_char(d: nat) -> char {
    if d == 0 {
        '0'
    } else if d == 1 {
        '1'
    } else if d == 2 {
        '2'
    } else if d == 3 {
        '3'
    } else if d == 4 {
        '4'
    } else if d == 5 {
        '5'
    } else if d == 6 {
        '6'
    } else if d == 7 {
        '7'
    } else if d == 8 {
        '8'
    } else {
        '9'
    }
}

/// The decimal notation of `n`, without leading zeros.
pub open spec fn decimal(n: nat) -> Seq<char>
    decreases n,
{
    if n < 10 {
        seq![digit_char(n)]
    } else {
        decimal(n / 10).push(digit_char(n % 10))
    }
}

/// The three octal digits of a permission mode.
pub open spec fn octal3(mode: nat) -> Seq<char> {
    seq![digit_char(mode / 64), digit_char(mode / 8 % 8), digit_char(mode % 8)]
}

/// The ASCII lower case of a character.
pub open spec fn ascii_lower(c: char) -> char {
    if 'A' as u32 <= c as u32 <= 'Z' as u32 {
        ((c as u32) + 32) as char
    } else {
        c
    }
}

/// What `str::to_lowercase` makes of the characters of a string.
pub uninterp spec fn lowercase(s: Seq<char>) -> Seq<char>;

/// `str::to_lowercase`: the Unicode lower case of a string. The result is
/// named by `lowercase`; on a string of ASCII characters it is the letter by
/// letter ASCII lower case.
pub assume_specification[ str::to_lowercase ](s: &str) -> (r: String)
    ensures
        r@ == lowercase(s@),
        (forall|i: int| 0 <= i < s@.len() ==> (#[trigger] s@[i]) as u32 <= 127) ==> r@
            == s@.map_values(|c: char| ascii_lower(c)),
;

/// What `String::from_utf8_lossy` reads from a byte sequence.
pub uninterp spec fn utf8_lossy(bytes: Seq<u8>) -> Seq<char>;

/// `String::from_utf8_lossy`: decodes UTF-8, with a replacement character
/// for what is not UTF-8. The result is named by `utf8_lossy`; a sequence of
/// ASCII bytes is read byte by byte.
#[verifier::external_body]
pub(crate) fn lossy_text(bytes: &[u8]) -> (r: String)
    ensures
        r@ == utf8_lossy(bytes@),
        (forall|i: int| 0 <= i < bytes@.len() ==> #[trigger] bytes@[i] <= 127) ==> r@
            == bytes@.map_values(|b: u8| b as char),
{
    String::from_utf8_lossy(bytes).into_owned()
}

/// The characters of a string, in order.
pub fn char_vec(s: &str) -> (r: Vec<char>)
    ensures
        r@ == s@,
{
    let mut v: Vec<char> = Vec::new();
    for c in it: s.chars()
        invariant
            v@ == it.seq().take(it.index() as int),
            it.seq() == s@,
    {
        v.push(c);
    }
    v
}

fn matches_at(s: &Vec<char>, part: &Vec<char>, at: usize) -> (r: bool)
    requires
        at + part@.len() <= s@.len(),
    ensures
        r == (s@.subrange(at as int, at + part@.len()) == part@),
{
    let ghost window = s@.subrange(at as int, at + part@.len());
    let end: usize = s.len();
    let mut k: usize = 0;
    while k < part.len()
        invariant
            k <= part@.len(),
            at + part@.len() <= s@.len(),
            end == s@.len(),
            window == s@.subrange(at as int, at + part@.len()),
            forall|j: int| 0 <= j < k ==> window[j] == part@[j],
        decreases part@.len() - k,
    {
        if s[at + k] != part[k] {
            assert(window[k as int] != part@[k as int]);
            return false;
        }
        k = k + 1;
    }
    assert(window =~= part@);
    true
}

/// Whether `part` occurs in `s`.
pub fn contains(s: &str, part: &str) -> (r: bool)
    ensures
        r == has_substring(s@, part@),
{
    let text: Vec<char> = char_vec(s);
    let wanted: Vec<char> = char_vec(part);
    if wanted.len() > text.len() {
        return false;
    }
    let last: usize = text.len() - wanted.len();
    let mut i: usize = 0;
    loop
        invariant
            i <= last,
            last + wanted@.len() == text@.len(),
            text@ == s@,
            wanted@ == part@,
            forall|j: int|
                0 <= j < i ==> #[trigger] s@.subrange(j, j + part@.len()) != part@,
        decreases last - i,
    {
        if matches_at(&text, &wanted, i) {
            assert(s@.subrange(i as int, i + part@.len()) == part@);
            return true;
        }
        if i == last {
            return false;
        }
        i = i + 1;
    }
}

/// Whether `s` begins with `prefix`.
pub fn starts_with(s: &str, prefix: &str) -> (r: bool)
    ensures
        r == has_prefix(s@, prefix@),
{
    let text: Vec<char> = char_vec(s);
    let wanted: Vec<char> = char_vec(prefix);
    wanted.len() <= text.len() && matches_at(&text, &wanted, 0)
}

/// Whether `s` ends with `suffix`.
pub fn ends_with(s: &str, suffix: &str) -> (r: bool)
    ensures
        r == has_suffix(s@, suffix@),
{
    let text: Vec<char> = char_vec(s);
    let wanted: Vec<char> = char_vec(suffix);
    wanted.len() <= text.len() && matches_at(&text, &wanted, text.len() - wanted.len())
}

/// Whether two strings hold the same characters.
pub fn same_text(a: &str, b: &str) -> (r: bool)
    ensures
        r == (a@ == b@),
{
    let x: Vec<char> = char_vec(a);
    let y: Vec<char> = char_vec(b);
    if x.len() != y.len() {
        return false;
    }
    proof {
        assert(x@.subrange(0, y@.len() as int) =~= x@);
    }
    matches_at(&x, &y, 0)
}

/// Whether a character is Unicode white space.
pub fn is_space(c: char) -> (r: bool)
    ensures
        r == is_white_space(c),
{
    let n: u32 = c as u32;
    (0x9 <= n && n <= 0xd) || n == 0x20 || n == 0x85 || n == 0xa0 || n == 0x1680 || (0x2000 <= n
        && n <= 0x200a) || n == 0x2028 || n == 0x2029 || n == 0x202f || n == 0x205f || n == 0x3000
}

/// Whether nothing but white space stands in `s`.
pub fn is_blank(s: &str) -> (r: bool)
    ensures
        r == is_blank_text(s@),
{
    let text: Vec<char> = char_vec(s);
    let mut i: usize = 0;
    while i < text.len()
        invariant
            i <= text@.len(),
            text@ == s@,
            forall|j: int| 0 <= j < i ==> is_white_space(#[trigger] s@[j]),
        decreases text@.len() - i,
    {
        if !is_space(text[i]) {
            return false;
        }
        i = i + 1;
    }
    true
}

/// The string without leading and trailing white space.
pub fn trim(s: &str) -> (r: String)
    ensures
        r@ == trimmed(s@),
{
    let text: Vec<char> = char_vec(s);
    let mut from: usize = 0;
    proof {
        assert(s@.skip(0) =~= s@);
    }
    while from < text.len() && is_space(text[from])
        invariant
            from <= text@.len(),
            text@ == s@,
            trim_front(s@) == trim_front(s@.skip(from as int)),
        decreases text@.len() - from,
    {
        proof {
            assert(s@.skip(from as int).drop_first() =~= s@.skip(from + 1));
        }
        from = from + 1;
    }
    let mut to: usize = text.len();
    proof {
        assert(s@.subrange(from as int, to as int) =~= s@.skip(from as int));
    }
    while from < to && is_space(text[to - 1])
        invariant
            from <= to <= text@.len(),
            text@ == s@,
            trimmed(s@) == trim_back(s@.subrange(from as int, to as int)),
        decreases to,
    {
        proof {
            assert(s@.subrange(from as int, to as int).drop_last() =~= s@.subrange(
                from as int,
                to - 1,
            ));
        }
        to = to - 1;
    }
    s.substring_char(from, to).to_owned()
}

/// Blank text is exactly the text of which trimming leaves nothing.
pub proof fn lemma_blank_trims_to_nothing(s: Seq<char>)
    ensures
        is_blank_text(s) <==> trimmed(s).len() == 0,
    decreases s.len(),
{
    if s.len() > 0 && is_white_space(s[0]) {
        lemma_blank_trims_to_nothing(s.drop_first());
        if is_blank_text(s.drop_first()) {
            assert forall|i: int| 0 <= i < s.len() implies is_white_space(#[trigger] s[i]) by {
                if i > 0 {
                    assert(s.drop_first()[i - 1] == s[i]);
                }
            }
        } else {
            let j = choose|j: int|
                0 <= j < s.drop_first().len() && !is_white_space(#[trigger] s.drop_first()[j]);
            assert(s[j + 1] == s.drop_first()[j]);
        }
    } else if s.len() > 0 {
        lemma_trim_back_keeps_head(s);
    }
}

proof fn lemma_trim_back_keeps_head(s: Seq<char>)
    requires
        s.len() > 0,
        !is_white_space(s[0]),
    ensures
        trim_back(s).len() > 0,
    decreases s.len(),
{
    if is_white_space(s.last()) {
        assert(s.drop_last()[0] == s[0]);
        lemma_trim_back_keeps_head(s.drop_last());
    }
}

fn digit_text(d: u8) -> (r: &'static str)
    requires
        d < 10,
    ensures
        r@ == seq![digit_char(d as nat)],
{
    proof {
        reveal_strlit("0");
        reveal_strlit("1");
        reveal_strlit("2");
        reveal_strlit("3");
        reveal_strlit("4");
        reveal_strlit("5");
        reveal_strlit("6");
        reveal_strlit("7");
        reveal_strlit("8");
        reveal_strlit("9");
    }
    let r: &'static str = match d {
        0 => "0",
        1 => "1",
        2 => "2",
        3 => "3",
        4 => "4",
        5 => "5",
        6 => "6",
        7 => "7",
        8 => "8",
        _ => "9",
    };
    assert(r@ =~= seq![digit_char(d as nat)]);
    r
}

/// Appends the decimal notation of `n`.
pub fn push_decimal(out: &mut String, n: u128)
    ensures
        final(out)@ == old(out)@ + decimal(n as nat),
    decreases n,
{
    if n < 10 {
        out.append(digit_text(n as u8));
    } else {
        push_decimal(out, n / 10);
        out.append(digit_text((n % 10) as u8));
    }
    assert(out@ =~= old(out)@ + decimal(n as nat));
}

/// The three octal digits of a permission mode.
pub fn octal_mode(mode: u32) -> (r: String)
    requires
        mode <= 0o777,
    ensures
        r@ == octal3(mode as nat),
{
    let mut out: String = String::new();
    out.append(digit_text((mode / 64) as u8));
    out.append(digit_text((mode / 8 % 8) as u8));
    out.append(digit_text((mode % 8) as u8));
    assert(out@ =~= octal3(mode as nat));
    out
}

/// Trimming takes white space away at both ends, all of it, and nothing else.
pub proof fn law_trimming(s: Seq<char>)
    ensures
        exists|before: Seq<char>, after: Seq<char>|
            s == #[trigger] (before + trimmed(s) + after) && is_blank_text(before)
                && is_blank_text(after),
        trimmed(s).len() > 0 ==> !is_white_space(trimmed(s)[0]) && !is_white_space(
            trimmed(s).last(),
        ),
{
    lemma_trim_front(s);
    let t = trim_front(s);
    lemma_trim_back(t);
    let before = s.take(s.len() - t.len());
    let after = t.skip(trim_back(t).len() as int);
    assert(s =~= before + trimmed(s) + after);
}

proof fn lemma_trim_front(s: Seq<char>)
    ensures
        trim_front(s).len() <= s.len(),
        trim_front(s) == s.skip(s.len() - trim_front(s).len()),
        is_blank_text(s.take(s.len() - trim_front(s).len())),
        trim_front(s).len() > 0 ==> !is_white_space(trim_front(s)[0]),
    decreases s.len(),
{
    if s.len() > 0 && is_white_space(s[0]) {
        let rest = s.drop_first();
        lemma_trim_front(rest);
        let n = s.len() - trim_front(s).len();
        assert(trim_front(s) =~= s.skip(n));
        assert forall|i: int| 0 <= i < n implies is_white_space(#[trigger] s.take(n)[i]) by {
            if i > 0 {
                assert(rest.take(n - 1)[i - 1] == s[i]);
            }
        }
    } else {
        assert(s.skip(0) =~= s);
    }
}

proof fn lemma_trim_back(s: Seq<char>)
    ensures
        trim_back(s).len() <= s.len(),
        trim_back(s) == s.take(trim_back(s).len() as int),
        is_blank_text(s.skip(trim_back(s).len() as int)),
        trim_back(s).len() > 0 ==> !is_white_space(trim_back(s).last()),
    decreases s.len(),
{
    if s.len() > 0 && is_white_space(s.last()) {
        let rest = s.drop_last();
        lemma_trim_back(rest);
        let n = trim_back(s).len() as int;
        assert(trim_back(s) =~= s.take(n));
        assert forall|i: int| 0 <= i < s.len() - n implies is_white_space(
            #[trigger] s.skip(n)[i],
        ) by {
            if n + i < s.len() - 1 {
                assert(rest.skip(n)[i] == s[n + i]);
            }
        }
    } else {
        assert(s.take(s.len() as int) =~= s);
    }
}

/// Of the ASCII characters, the space and those from tab to carriage return are
/// white space, and no others.
pub proof fn law_ascii_white_space(c: char)
    requires
        c as u32 <= 127,
    ensures
        is_white_space(c) <==> c == ' ' || '\t' <= c <= '\r',
{
}

/// The number that a digit stands for.
pub open spec fn digit_number(c: char) -> int {
    c as int - '0' as int
}

/// A number in decimal notation: its last digit is what division by ten leaves,
/// the digits before are those of the quotient, and a number below ten has one
/// digit.
pub proof fn law_decimal_notation(n: nat)
    ensures
        decimal(n).len() > 0,
        digit_number(decimal(n).last()) == n % 10,
        n < 10 ==> decimal(n).len() == 1,
        n >= 10 ==> decimal(n).drop_last() == decimal(n / 10) && decimal(n)[0] != '0',
        forall|i: int| 0 <= i < decimal(n).len() ==> '0' <= #[trigger] decimal(n)[i] <= '9',
    decreases n,
{
    if n >= 10 {
        law_decimal_notation(n / 10);
        assert(decimal(n).drop_last() =~= decimal(n / 10));
        assert(decimal(n)[0] == decimal(n / 10)[0]);
        assert forall|i: int| 0 <= i < decimal(n).len() implies '0' <= #[trigger] decimal(n)[i]
            <= '9' by {
            if i < decimal(n).len() - 1 {
                assert(decimal(n)[i] == decimal(n / 10)[i]);
            }
        }
    }
}

/// The three octal digits of a mode make up the mode.
pub proof fn law_octal_notation(mode: nat)
    requires
        mode <= 0o777,
    ensures
        octal3(mode).len() == 3,
        64 * digit_number(octal3(mode)[0]) + 8 * digit_number(octal3(mode)[1]) + digit_number(
            octal3(mode)[2],
        ) == mode,
        forall|i: int| 0 <= i < 3 ==> '0' <= #[trigger] octal3(mode)[i] <= '7',
{
}

/// A text begins or ends with another exactly if something stands behind or
/// before that.
pub proof fn law_beginnings_and_ends(s: Seq<char>, part: Seq<char>)
    ensures
        has_prefix(s, part) <==> exists|rest: Seq<char>| s == #[trigger] (part + rest),
        has_suffix(s, part) <==> exists|rest: Seq<char>| s == #[trigger] (rest + part),
{
    if has_prefix(s, part) {
        let rest = s.skip(part.len() as int);
        assert(s =~= part + rest);
    }
    if exists|rest: Seq<char>| s == #[trigger] (part + rest) {
        assert(s.subrange(0, part.len() as int) =~= part);
    }
    if has_suffix(s, part) {
        let rest = s.take(s.len() - part.len());
        assert(s =~= rest + part);
    }
    if exists|rest: Seq<char>| s == #[trigger] (rest + part) {
        assert(s.subrange(s.len() - part.len(), s.len() as int) =~= part);
    }
}

/// The word stands somewhere in the text.
pub open spec fn has_word(text: Seq<char>, word: Seq<char>) -> bool {
    exists|before: Seq<char>, after: Seq<char>| text == #[trigger] (before + word + after)
}

/// A word that stands in a text is found in it, and no other.
pub proof fn law_words_are_found(text: Seq<char>, word: Seq<char>)
    ensures
        has_substring(text, word) <==> has_word(text, word),
{
    if has_substring(text, word) {
        let i: int = choose|i: int|
            0 <= i && i + word.len() <= text.len() && #[trigger] text.subrange(i, i + word.len())
                == word;
        let (before, after) = (text.take(i), text.skip(i + word.len()));
        assert(text =~= before + word + after);
    }
    if has_word(text, word) {
        let (before, after) = choose|before: Seq<char>, after: Seq<char>|
            text == #[trigger] (before + word + after);
        let i = before.len() as int;
        assert(text.subrange(i, i + word.len()) =~= word);
    }
}

} // verus!
