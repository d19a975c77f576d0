//! Characters and text: trimming, word splitting, decimal rendering, slugs and titles.
use vstd::prelude::*;

verus! {

/// `String::push`: appends one character.
pub assume_specification[ String::push ](s: &mut String, ch: char)
    ensures
        final(s)@ == old(s)@.push(ch),
;

/// Sets of characters that text is stripped of or split at.
pub enum CharClass {
    /// Characters with the Unicode property `White_Space`.
    WhiteSpace,
    /// The double quote.
    Quote,
    /// ASCII letters and digits.
    Alphanumeric,
    /// Everything but `_`, `-` and the space.
    NamePart,
}

/// The Unicode property `White_Space`.
pub open spec fn white_space(c: char) -> bool {
    ||| '\u{9}' <= c <= '\u{d}'
    ||| c == ' '
    ||| c == '\u{85}'
    ||| c == '\u{a0}'
    ||| c == '\u{1680}'
    ||| '\u{2000}' <= c <= '\u{200a}'
    ||| c == '\u{2028}'
    ||| c == '\u{2029}'
    ||| c == '\u{202f}'
    ||| c == '\u{205f}'
    ||| c == '\u{3000}'
}

pub open spec fn ascii_alphanumeric(c: char) -> bool {
    ||| '0' <= c <= '9'
    ||| 'A' <= c <= 'Z'
    ||| 'a' <= c <= 'z'
}

impl CharClass {
    pub open spec fn holds(self, c: char) -> bool {
        match self {
            CharClass::WhiteSpace => white_space(c),
            CharClass::Quote => c == '"',
            CharClass::Alphanumeric => ascii_alphanumeric(c),
            CharClass::NamePart => c != '_' && c != '-' && c != ' ',
        }
    }

    /// Whether `c` belongs to the class.
    pub fn contains(&self, c: char) -> (r: bool)
        ensures
            r == self.holds(c),
    {
        match self {
            CharClass::WhiteSpace => {
                ('\u{9}' <= c && c <= '\u{d}') || c == ' ' || c == '\u{85}' || c == '\u{a0}' || c
                    == '\u{1680}' || ('\u{2000}' <= c && c <= '\u{200a}') || c == '\u{2028}' || c
                    == '\u{2029}' || c == '\u{202f}' || c == '\u{205f}' || c == '\u{3000}'
            },
            CharClass::Quote => c == '"',
            CharClass::Alphanumeric => {
                ('0' <= c && c <= '9') || ('A' <= c && c <= 'Z') || ('a' <= c && c <= 'z')
            },
            CharClass::NamePart => c != '_' && c != '-' && c != ' ',
        }
    }
}

/// The characters of an optional text.
pub open spec fn opt_view(s: Option<String>) -> Option<Seq<char>> {
    match s {
        Some(s) => Some(s@),
        None => None,
    }
}

/// The characters of a text.
pub fn chars_of(s: &str) -> (r: Vec<char>)
    ensures
        r@ == s@,
{
    let mut out: Vec<char> = Vec::new();
    for c in it: s.chars()
        invariant
            out@ == it.seq().take(it.index()),
            it.seq() == s@,
    {
        out.push(c);
        assert(it.seq().take(it.index() + 1) =~= it.seq().take(it.index()).push(c));
    }
    assert(s@.take(s@.len() as int) =~= s@);
    out
}

/// The text made of the given characters.
pub fn text_of(chars: &Vec<char>) -> (r: String)
    ensures
        r@ == chars@,
{
    let mut out: String = String::new();
    let mut i: usize = 0;
    while i < chars.len()
        invariant
            i <= chars.len(),
            out@ == chars@.take(i as int),
        decreases chars.len() - i,
    {
        out.push(chars[i]);
        i += 1;
        assert(chars@.take(i as int) =~= chars@.take(i - 1).push(chars@[i - 1]));
    }
    assert(chars@.take(i as int) =~= chars@);
    out
}

/// Whether two texts hold the same characters.
pub fn same_text(a: &str, b: &str) -> (r: bool)
    ensures
        r == (a@ == b@),
{
    a.to_owned() == b.to_owned()
}

/// `s` without the leading and trailing characters of `class`.
pub open spec fn stripped(s: Seq<char>, class: CharClass) -> Seq<char>
    decreases s.len(),
{
    if s.len() == 0 {
        s
    } else if class.holds(s.first()) {
        stripped(s.drop_first(), class)
    } else if class.holds(s.last()) {
        stripped(s.drop_last(), class)
    } else {
        s
    }
}

/// Removes the characters of `class` from both ends of `s`.
pub fn strip(s: &str, class: CharClass) -> (r: String)
    ensures
        r@ == stripped(s@, class),
{
    let chars = chars_of(s);
    let mut from: usize = 0;
    assert(chars@.skip(0) =~= chars@);
    while from < chars.len() && class.contains(chars[from])
        invariant
            from <= chars.len(),
            stripped(chars@, class) == stripped(chars@.skip(from as int), class),
        decreases chars.len() - from,
    {
        assert(chars@.skip(from as int).drop_first() =~= chars@.skip(from + 1));
        from += 1;
    }
    let mut to: usize = chars.len();
    assert(chars@.subrange(from as int, to as int) =~= chars@.skip(from as int));
    while from < to && class.contains(chars[to - 1])
        invariant
            from <= to <= chars.len(),
            from < to ==> !class.holds(chars@[from as int]),
            stripped(chars@, class) == stripped(chars@.subrange(from as int, to as int), class),
        decreases to,
    {
        assert(chars@.subrange(from as int, to as int).drop_last() =~= chars@.subrange(
            from as int,
            to - 1,
        ));
        to -= 1;
    }
    let mut out: String = String::new();
    let mut i: usize = from;
    while i < to
        invariant
            from <= i <= to <= chars.len(),
            out@ == chars@.subrange(from as int, i as int),
        decreases to - i,
    {
        out.push(chars[i]);
        i += 1;
        assert(chars@.subrange(from as int, i as int) =~= chars@.subrange(from as int, i - 1).push(
            chars@[i - 1],
        ));
    }
    out
}

/// The maximal runs of characters of `class` in `s`, from left to right.
pub open spec fn words(s: Seq<char>, class: CharClass) -> Seq<Seq<char>>
    decreases s.len(),
{
    if s.len() == 0 {
        seq![]
    } else {
        let before = words(s.drop_last(), class);
        if !class.holds(s.last()) {
            before
        } else if s.len() >= 2 && class.holds(s[s.len() - 2]) {
            before.drop_last().push(before.last().push(s.last()))
        } else {
            before.push(seq![s.last()])
        }
    }
}

/// The contents of a list of character lists.
pub open spec fn char_lists(v: Seq<Vec<char>>) -> Seq<Seq<char>> {
    v.map_values(|w: Vec<char>| w@)
}

/// Splits `s` into the maximal runs of characters of `class`.
pub fn split_words(s: &str, class: CharClass) -> (r: Vec<Vec<char>>)
    ensures
        char_lists(r@) == words(s@, class),
{
    let chars = chars_of(s);
    let mut done: Vec<Vec<char>> = Vec::new();
    let mut current: Vec<char> = Vec::new();
    let mut i: usize = 0;
    assert(char_lists(done@) =~= words(chars@.take(0), class));
    while i < chars.len()
        invariant
            i <= chars.len(),
            current@.len() == 0 ==> {
                &&& words(chars@.take(i as int), class) == char_lists(done@)
                &&& i > 0 ==> !class.holds(chars@[i - 1])
            },
            current@.len() > 0 ==> {
                &&& words(chars@.take(i as int), class) == char_lists(done@).push(current@)
                &&& i > 0
                &&& class.holds(chars@[i - 1])
            },
        decreases chars.len() - i,
    {
        let c = chars[i];
        let ghost before = char_lists(done@);
        let ghost run = current@;
        assert(chars@.take(i + 1).drop_last() =~= chars@.take(i as int));
        if class.contains(c) {
            current.push(c);
            proof {
                if run.len() == 0 {
                    assert(current@ =~= seq![c]);
                } else {
                    assert(before.push(run).drop_last() =~= before);
                }
            }
        } else if current.len() > 0 {
            let mut word: Vec<char> = Vec::new();
            word.append(&mut current);
            done.push(word);
            assert(char_lists(done@) =~= before.push(run));
        }
        i += 1;
    }
    assert(chars@.take(i as int) =~= chars@);
    if current.len() > 0 {
        let ghost before = char_lists(done@);
        let ghost run = current@;
        done.push(current);
        assert(char_lists(done@) =~= before.push(run));
    }
    done
}

/// The parts one after the other, with `sep` between neighbours.
pub open spec fn joined(parts: Seq<Seq<char>>, sep: char) -> Seq<char>
    decreases parts.len(),
{
    if parts.len() == 0 {
        seq![]
    } else if parts.len() == 1 {
        parts[0]
    } else {
        joined(parts.drop_last(), sep).push(sep) + parts.last()
    }
}

/// The ASCII lower case of a character; other characters stay as they are.
pub open spec fn ascii_lower(c: char) -> char {
    if 'A' <= c <= 'Z' {
        ((c as u8) + 32) as char
    } else {
        c
    }
}

pub open spec fn ascii_lowered(s: Seq<char>) -> Seq<char> {
    s.map_values(|c: char| ascii_lower(c))
}

/// The ASCII lower case of a character.
pub fn lower_char(c: char) -> (r: char)
    ensures
        r == ascii_lower(c),
{
    if 'A' <= c && c <= 'Z' {
        (c as u8 + 32) as char
    } else {
        c
    }
}

/// The slug of a name: its runs of ASCII letters and digits in lower case, joined by dashes.
pub open spec fn slug(s: Seq<char>) -> Seq<char> {
    joined(words(s, CharClass::Alphanumeric).map_values(|w: Seq<char>| ascii_lowered(w)), '-')
}

/// The contents of a list of texts.
pub open spec fn text_list(v: Seq<String>) -> Seq<Seq<char>> {
    v.map_values(|t: String| t@)
}

/// Joins texts with `sep` between neighbours.
pub fn join(parts: &Vec<String>, sep: char) -> (r: String)
    ensures
        r@ == joined(text_list(parts@), sep),
{
    let mut out: String = String::new();
    let mut i: usize = 0;
    let ghost all = text_list(parts@);
    assert(out@ =~= joined(all.take(0), sep));
    while i < parts.len()
        invariant
            i <= parts.len(),
            all == text_list(parts@),
            out@ == joined(all.take(i as int), sep),
        decreases parts.len() - i,
    {
        if i > 0 {
            out.push(sep);
        }
        out.append(parts[i].as_str());
        assert(all.take(i + 1).drop_last() =~= all.take(i as int));
        assert(out@ =~= joined(all.take(i + 1), sep));
        i += 1;
    }
    assert(all.take(i as int) =~= all);
    out
}

/// The characters in ASCII lower case.
pub fn lower_text(chars: &Vec<char>) -> (r: String)
    ensures
        r@ == ascii_lowered(chars@),
{
    let mut out: String = String::new();
    let mut i: usize = 0;
    while i < chars.len()
        invariant
            i <= chars.len(),
            out@ == ascii_lowered(chars@.take(i as int)),
        decreases chars.len() - i,
    {
        out.push(lower_char(chars[i]));
        assert(ascii_lowered(chars@.take(i + 1)) =~= ascii_lowered(chars@.take(i as int)).push(
            ascii_lower(chars@[i as int]),
        ));
        i += 1;
    }
    assert(chars@.take(i as int) =~= chars@);
    out
}

/// Turns a name into an identifier of lower case ASCII letters, digits and single dashes.
pub fn slugify(input: &str) -> (r: String)
    ensures
        r@ == slug(input@),
{
    let runs = split_words(input, CharClass::Alphanumeric);
    let ghost all = words(input@, CharClass::Alphanumeric);
    let mut parts: Vec<String> = Vec::new();
    let mut i: usize = 0;
    while i < runs.len()
        invariant
            i <= runs.len(),
            char_lists(runs@) == all,
            parts@.len() == i,
            forall|k: int| 0 <= k < i ==> (#[trigger] parts@[k])@ == ascii_lowered(all[k]),
        decreases runs.len() - i,
    {
        assert(all[i as int] == runs@[i as int]@);
        parts.push(lower_text(&runs[i]));
        i += 1;
    }
    assert(text_list(parts@) =~= all.map_values(|w: Seq<char>| ascii_lowered(w)));
    join(&parts, '-')
}

/// What `char::to_uppercase` yields for a character.
pub uninterp spec fn unicode_upper(c: char) -> Seq<char>;

/// What `char::to_lowercase` yields for a character.
pub uninterp spec fn unicode_lower(c: char) -> Seq<char>;

/// The ASCII upper case of a character; other characters stay as they are.
pub open spec fn ascii_upper(c: char) -> char {
    if 'a' <= c <= 'z' {
        ((c as u8) - 32) as char
    } else {
        c
    }
}

/// `char::to_uppercase`: the characters of the upper case mapping of `c`, named by
/// `unicode_upper`, of which there is at least one; an ASCII character is mapped to its ASCII upper
/// case.
#[verifier::external_body]
fn upper_chars(c: char) -> (r: Vec<char>)
    ensures
        r@ == unicode_upper(c),
        r@.len() > 0,
        c <= '\u{7f}' ==> r@ == seq![ascii_upper(c)],
{
    c.to_uppercase().collect()
}

/// `char::to_lowercase`: the characters of the lower case mapping of `c`, named by
/// `unicode_lower`, of which there is at least one; an ASCII character is mapped to its ASCII lower
/// case.
#[verifier::external_body]
fn lower_chars(c: char) -> (r: Vec<char>)
    ensures
        r@ == unicode_lower(c),
        r@.len() > 0,
        c <= '\u{7f}' ==> r@ == seq![ascii_lower(c)],
{
    c.to_lowercase().collect()
}

/// The characters of `s` in Unicode lower case.
pub open spec fn unicode_lowered(s: Seq<char>) -> Seq<char>
    decreases s.len(),
{
    if s.len() == 0 {
        seq![]
    } else {
        unicode_lowered(s.drop_last()) + unicode_lower(s.last())
    }
}

/// A word with its first character in upper case and the others in lower case.
pub open spec fn title_word(w: Seq<char>) -> Seq<char> {
    if w.len() == 0 {
        seq![]
    } else {
        unicode_upper(w.first()) + unicode_lowered(w.drop_first())
    }
}

/// Whether all characters are ASCII.
pub open spec fn ascii(s: Seq<char>) -> bool {
    forall|i: int| 0 <= i < s.len() ==> #[trigger] s[i] <= '\u{7f}'
}

/// A word with its first letter in ASCII upper case and the others in ASCII lower case.
pub open spec fn ascii_title_word(w: Seq<char>) -> Seq<char> {
    if w.len() == 0 {
        seq![]
    } else {
        seq![ascii_upper(w.first())] + ascii_lowered(w.drop_first())
    }
}

fn title_text(word: &Vec<char>) -> (r: String)
    ensures
        r@ == title_word(word@),
        ascii(word@) ==> r@ == ascii_title_word(word@),
        r@.len() >= word@.len(),
{
    let mut out: Vec<char> = Vec::new();
    if word.len() > 0 {
        out = upper_chars(word[0]);
        let mut i: usize = 1;
        let ghost rest = word@.drop_first();
        assert(out@ =~= unicode_upper(word@[0]) + unicode_lowered(rest.take(0)));
        assert(ascii(word@) ==> out@ =~= seq![ascii_upper(word@[0])] + ascii_lowered(rest.take(0)));
        while i < word.len()
            invariant
                1 <= i <= word.len(),
                rest == word@.drop_first(),
                out@ == unicode_upper(word@[0]) + unicode_lowered(rest.take(i - 1)),
                ascii(word@) ==> out@ == seq![ascii_upper(word@[0])] + ascii_lowered(
                    rest.take(i - 1),
                ),
                out@.len() >= i,
            decreases word.len() - i,
        {
            let mut mapped = lower_chars(word[i]);
            out.append(&mut mapped);
            assert(rest.take(i as int).drop_last() =~= rest.take(i - 1));
            assert(out@ =~= unicode_upper(word@[0]) + unicode_lowered(rest.take(i as int)));
            assert(ascii(word@) ==> out@ =~= seq![ascii_upper(word@[0])] + ascii_lowered(
                rest.take(i as int),
            ));
            i += 1;
        }
        assert(rest.take(i - 1) =~= rest);
    }
    text_of(&out)
}

/// The display form of a name: its parts between `_`, `-` and spaces, each with a capital first
/// letter, separated by one space.
pub open spec fn title(s: Seq<char>) -> Seq<char> {
    joined(words(s, CharClass::NamePart).map_values(|w: Seq<char>| title_word(w)), ' ')
}

/// The display form of a name of ASCII characters.
pub open spec fn ascii_title(s: Seq<char>) -> Seq<char> {
    joined(words(s, CharClass::NamePart).map_values(|w: Seq<char>| ascii_title_word(w)), ' ')
}

/// The words of an ASCII text are ASCII.
proof fn lemma_words_ascii(s: Seq<char>, class: CharClass)
    requires
        ascii(s),
    ensures
        forall|i: int| 0 <= i < words(s, class).len() ==> ascii(#[trigger] words(s, class)[i]),
    decreases s.len(),
{
    if s.len() > 0 {
        let rest = s.drop_last();
        assert(ascii(rest)) by {
            assert forall|i: int| 0 <= i < rest.len() implies #[trigger] rest[i] <= '\u{7f}' by {
                assert(s[i] <= '\u{7f}');
            }
        }
        lemma_words_ascii(rest, class);
        lemma_words(rest, class);
        let before = words(rest, class);
        let all = words(s, class);
        assert(s[s.len() - 1] <= '\u{7f}');
        if class.holds(s.last()) && s.len() >= 2 && class.holds(s[s.len() - 2]) {
            assert(rest.last() == s[s.len() - 2]);
            assert(ascii(before[before.len() - 1]));
        }
        assert forall|i: int| 0 <= i < all.len() implies ascii(#[trigger] all[i]) by {
            if i < before.len() - 1 || (i < before.len() && all.len() > before.len()) {
                assert(all[i] == before[i]);
            }
        }
    }
}

/// A text has no words exactly where none of its characters is of the class.
proof fn lemma_no_words(s: Seq<char>, class: CharClass)
    ensures
        words(s, class).len() == 0 <==> forall|i: int|
            0 <= i < s.len() ==> !class.holds(#[trigger] s[i]),
    decreases s.len(),
{
    if s.len() > 0 {
        let rest = s.drop_last();
        lemma_no_words(rest, class);
        lemma_words(rest, class);
        if forall|i: int| 0 <= i < s.len() ==> !class.holds(#[trigger] s[i]) {
            assert forall|i: int| 0 <= i < rest.len() implies !class.holds(#[trigger] rest[i]) by {
                assert(!class.holds(s[i]));
            }
            assert(!class.holds(s[s.len() - 1]));
        }
        if words(s, class).len() == 0 {
            assert forall|i: int| 0 <= i < s.len() implies !class.holds(#[trigger] s[i]) by {
                if i < s.len() - 1 {
                    assert(!class.holds(rest[i]));
                }
            }
        }
    }
}

/// Turns a name with underscores, dashes or spaces into a title, which is empty exactly where the
/// name holds nothing else.
pub fn titleize(input: &str) -> (r: String)
    ensures
        r@ == title(input@),
        ascii(input@) ==> r@ == ascii_title(input@),
        r@.len() == 0 <==> forall|i: int|
            0 <= i < input@.len() ==> !CharClass::NamePart.holds(#[trigger] input@[i]),
{
    let runs = split_words(input, CharClass::NamePart);
    let ghost all = words(input@, CharClass::NamePart);
    let mut parts: Vec<String> = Vec::new();
    let mut i: usize = 0;
    while i < runs.len()
        invariant
            i <= runs.len(),
            char_lists(runs@) == all,
            parts@.len() == i,
            forall|k: int| 0 <= k < i ==> (#[trigger] parts@[k])@ == title_word(all[k]),
            forall|k: int|
                0 <= k < i && ascii(all[k]) ==> (#[trigger] parts@[k])@ == ascii_title_word(all[k]),
            forall|k: int| 0 <= k < i ==> (#[trigger] parts@[k])@.len() >= all[k].len(),
        decreases runs.len() - i,
    {
        assert(all[i as int] == runs@[i as int]@);
        parts.push(title_text(&runs[i]));
        i += 1;
    }
    assert(text_list(parts@) =~= all.map_values(|w: Seq<char>| title_word(w)));
    proof {
        lemma_no_words(input@, CharClass::NamePart);
        lemma_words(input@, CharClass::NamePart);
        if all.len() > 0 {
            assert(is_word(all[0], CharClass::NamePart));
            assert(text_list(parts@)[0].len() > 0);
        }
        if ascii(input@) {
            lemma_words_ascii(input@, CharClass::NamePart);
            assert forall|k: int| 0 <= k < all.len() implies (#[trigger] parts@[k])@
                == ascii_title_word(all[k]) by {
                assert(ascii(words(input@, CharClass::NamePart)[k]));
            }
            assert(text_list(parts@) =~= all.map_values(|w: Seq<char>| ascii_title_word(w)));
        }
    }
    join(&parts, ' ')
}

/// Whether `part` occurs in `s`.
pub open spec fn occurs(part: Seq<char>, s: Seq<char>) -> bool {
    exists|i: int| occurs_at(part, s, i)
}

/// Whether `part` stands in `s` from position `i` on.
pub open spec fn occurs_at(part: Seq<char>, s: Seq<char>, i: int) -> bool {
    0 <= i <= s.len() - part.len() && s.subrange(i, i + part.len()) == part
}

/// Whether `part` occurs in `s`.
pub fn contains_text(s: &str, part: &str) -> (r: bool)
    ensures
        r == occurs(part@, s@),
{
    let hay = chars_of(s);
    let needle = chars_of(part);
    if needle.len() > hay.len() {
        return false;
    }
    let mut i: usize = 0;
    while i <= hay.len() - needle.len()
        invariant
            hay@ == s@,
            needle@ == part@,
            needle.len() <= hay.len(),
            i <= hay.len() - needle.len() + 1,
            forall|j: int| 0 <= j < i ==> !occurs_at(part@, s@, j),
        decreases hay.len() - i,
    {
        let mut k: usize = 0;
        while k < needle.len() && hay[i + k] == needle[k]
            invariant
                needle.len() <= hay.len(),
                i <= hay.len() - needle.len(),
                k <= needle.len(),
                forall|j: int| 0 <= j < k ==> hay@[i + j] == needle@[j],
            decreases needle.len() - k,
        {
            k += 1;
        }
        if k == needle.len() {
            assert(s@.subrange(i as int, i + part@.len()) =~= part@);
            assert(occurs_at(part@, s@, i as int));
            return true;
        }
        assert(!occurs_at(part@, s@, i as int)) by {
            if occurs_at(part@, s@, i as int) {
                assert(s@.subrange(i as int, i + part@.len())[k as int] == part@[k as int]);
            }
        }
        if i == hay.len() - needle.len() {
            return false;
        }
        i += 1;
    }
    false
}

/// Whether two texts are equal but for the case of ASCII letters.
pub fn equal_ignoring_case(a: &str, b: &str) -> (r: bool)
    ensures
        r == (ascii_lowered(a@) == ascii_lowered(b@)),
{
    let a = lower_text(&chars_of(a));
    let b = lower_text(&chars_of(b));
    a == b
}

/// The decimal digits of a number, without leading zeros.
pub open spec fn decimal(n: nat) -> Seq<char>
    decreases n,
{
    if n < 10 {
        seq![(48 + n) as char]
    } else {
        decimal(n / 10).push((48 + n % 10) as char)
    }
}

/// The decimal digits of `n`.
pub fn decimal_text(n: u64) -> (r: String)
    ensures
        r@ == decimal(n as nat),
    decreases n,
{
    if n < 10 {
        let mut out: String = String::new();
        out.push((48u8 + n as u8) as char);
        assert(out@ =~= decimal(n as nat));
        out
    } else {
        let mut out = decimal_text(n / 10);
        out.push((48u8 + (n % 10) as u8) as char);
        out
    }
}

/// `s` with zeros before it up to `width` characters.
pub open spec fn zero_padded(s: Seq<char>, width: nat) -> Seq<char> {
    if s.len() < width {
        Seq::new((width - s.len()) as nat, |i: int| '0') + s
    } else {
        s
    }
}

/// Puts zeros before the characters of `s` until there are `width` of them.
pub fn zero_pad(s: &str, width: usize) -> (r: String)
    ensures
        r@ == zero_padded(s@, width as nat),
{
    let chars = chars_of(s);
    let mut out: String = String::new();
    if chars.len() < width {
        let missing: usize = width - chars.len();
        let mut i: usize = 0;
        while i < missing
            invariant
                i <= missing,
                out@ == Seq::new(i as nat, |k: int| '0'),
            decreases missing - i,
        {
            out.push('0');
            i += 1;
            assert(out@ =~= Seq::new(i as nat, |k: int| '0'));
        }
    }
    out.append(s);
    assert(out@ =~= zero_padded(s@, width as nat));
    out
}

/// Whether `a` comes before `b` in the order of their characters' code points.
pub open spec fn text_before(a: Seq<char>, b: Seq<char>) -> bool
    decreases a.len(),
{
    if b.len() == 0 {
        false
    } else if a.len() == 0 {
        true
    } else if a[0] != b[0] {
        (a[0] as int) < (b[0] as int)
    } else {
        text_before(a.drop_first(), b.drop_first())
    }
}

/// Whether `a` comes before `b` in the order of their characters' code points.
pub fn is_before(a: &str, b: &str) -> (r: bool)
    ensures
        r == text_before(a@, b@),
{
    let left = chars_of(a);
    let right = chars_of(b);
    let mut i: usize = 0;
    assert(left@.skip(0) =~= left@);
    assert(right@.skip(0) =~= right@);
    while i < left.len() && i < right.len() && left[i] == right[i]
        invariant
            i <= left.len(),
            i <= right.len(),
            text_before(left@, right@) == text_before(left@.skip(i as int), right@.skip(i as int)),
        decreases left.len() - i,
    {
        assert(left@.skip(i as int).drop_first() =~= left@.skip(i + 1));
        assert(right@.skip(i as int).drop_first() =~= right@.skip(i + 1));
        i += 1;
    }
    if i == right.len() {
        false
    } else if i == left.len() {
        true
    } else {
        left[i] < right[i]
    }
}

/// The number that decimal digits stand for.
pub open spec fn digits_value(s: Seq<char>) -> int
    decreases s.len(),
{
    if s.len() == 0 {
        0
    } else {
        10 * digits_value(s.drop_last()) + (s.last() as int - 48)
    }
}

proof fn lemma_decimal_value(n: nat)
    ensures
        digits_value(decimal(n)) == n,
        decimal(n).len() >= 1,
        forall|i: int| 0 <= i < decimal(n).len() ==> '0' <= #[trigger] decimal(n)[i] <= '9',
    decreases n,
{
    if n < 10 {
        reveal_with_fuel(digits_value, 2);
        assert(decimal(n).drop_last() =~= seq![]);
    } else {
        lemma_decimal_value(n / 10);
        assert(decimal(n).drop_last() =~= decimal(n / 10));
    }
}

proof fn lemma_zeros_value(k: nat, s: Seq<char>)
    ensures
        digits_value(Seq::new(k, |i: int| '0') + s) == digits_value(s),
    decreases s.len(), k,
{
    let zeros = Seq::new(k, |i: int| '0');
    if s.len() > 0 {
        assert((zeros + s).drop_last() =~= zeros + s.drop_last());
        lemma_zeros_value(k, s.drop_last());
    } else if k > 0 {
        assert((zeros + s).drop_last() =~= Seq::new((k - 1) as nat, |i: int| '0') + s);
        lemma_zeros_value((k - 1) as nat, s);
    } else {
        assert(zeros + s =~= s);
    }
}

/// Decimal digits with zeros before them are digits, and at least one.
pub proof fn lemma_padded_digits(n: nat, width: nat)
    ensures
        zero_padded(decimal(n), width).len() >= 1,
        forall|i: int|
            0 <= i < zero_padded(decimal(n), width).len() ==> '0' <= #[trigger] zero_padded(
                decimal(n),
                width,
            )[i] <= '9',
{
    lemma_decimal_value(n);
}

/// Two numbers with the same digits, zeros before them aside, are the same.
pub proof fn lemma_padded_unique(a: nat, b: nat, width: nat)
    requires
        zero_padded(decimal(a), width) == zero_padded(decimal(b), width),
    ensures
        a == b,
{
    lemma_decimal_value(a);
    lemma_decimal_value(b);
    if decimal(a).len() < width {
        lemma_zeros_value((width - decimal(a).len()) as nat, decimal(a));
    }
    if decimal(b).len() < width {
        lemma_zeros_value((width - decimal(b).len()) as nat, decimal(b));
    }
}

/// A word of a class: at least one character, and all of the class.
pub open spec fn is_word(w: Seq<char>, class: CharClass) -> bool {
    w.len() > 0 && forall|k: int| 0 <= k < w.len() ==> class.holds(#[trigger] w[k])
}

proof fn lemma_words(s: Seq<char>, class: CharClass)
    ensures
        forall|i: int| 0 <= i < words(s, class).len() ==> is_word(#[trigger] words(s, class)[i], class),
        s.len() > 0 && class.holds(s.last()) ==> words(s, class).len() > 0,
    decreases s.len(),
{
    if s.len() > 0 {
        let rest = s.drop_last();
        lemma_words(rest, class);
        let before = words(rest, class);
        let all = words(s, class);
        if class.holds(s.last()) && s.len() >= 2 && class.holds(s[s.len() - 2]) {
            assert(rest.last() == s[s.len() - 2]);
            assert forall|i: int| 0 <= i < all.len() implies is_word(#[trigger] all[i], class) by {
                if i < before.len() - 1 {
                    assert(all[i] == before[i]);
                } else {
                    assert(is_word(before[before.len() - 1], class));
                }
            }
        } else if class.holds(s.last()) {
            assert forall|i: int| 0 <= i < all.len() implies is_word(#[trigger] all[i], class) by {
                if i < before.len() {
                    assert(all[i] == before[i]);
                }
            }
        }
    }
}

proof fn lemma_words_append(p: Seq<char>, w: Seq<char>, class: CharClass)
    requires
        is_word(w, class),
        p.len() > 0 ==> !class.holds(p.last()),
    ensures
        words(p + w, class) == words(p, class).push(w),
    decreases w.len(),
{
    let all = p + w;
    let rest = w.drop_last();
    assert(all.drop_last() =~= p + rest);
    assert(all.last() == w.last());
    if rest.len() == 0 {
        assert(p + rest =~= p);
        assert(w =~= seq![w.last()]);
        if all.len() >= 2 {
            assert(all[all.len() - 2] == p.last());
        }
    } else {
        assert(is_word(rest, class));
        lemma_words_append(p, rest, class);
        assert(all[all.len() - 2] == rest.last());
        let before = words(p, class).push(rest);
        assert(before.drop_last() =~= words(p, class));
        assert(rest.push(w.last()) =~= w);
    }
}

/// Words of a class, joined by a character outside it, are the words of the joined text.
pub proof fn lemma_words_of_joined(ws: Seq<Seq<char>>, sep: char, class: CharClass)
    requires
        forall|i: int| 0 <= i < ws.len() ==> is_word(#[trigger] ws[i], class),
        !class.holds(sep),
    ensures
        words(joined(ws, sep), class) == ws,
    decreases ws.len(),
{
    if ws.len() == 0 {
        assert(words(joined(ws, sep), class) =~= ws);
    } else {
        let rest = ws.drop_last();
        let w = ws.last();
        assert(is_word(ws[ws.len() - 1], class));
        assert forall|i: int| 0 <= i < rest.len() implies is_word(#[trigger] rest[i], class) by {
            assert(rest[i] == ws[i]);
        }
        lemma_words_of_joined(rest, sep, class);
        if rest.len() == 0 {
            let empty: Seq<char> = seq![];
            lemma_words_append(empty, w, class);
            assert(empty + w =~= w);
            assert(words(empty, class).push(w) =~= ws);
        } else {
            let p = joined(rest, sep).push(sep);
            assert(p.drop_last() =~= joined(rest, sep));
            lemma_words_append(p, w, class);
            assert(rest.push(w) =~= ws);
        }
    }
}

/// The words of a slug are those of the name in lower case.
proof fn lemma_slug_words(s: Seq<char>)
    ensures
        ({
            let ws = words(s, CharClass::Alphanumeric).map_values(
                |w: Seq<char>| ascii_lowered(w),
            );
            &&& words(slug(s), CharClass::Alphanumeric) == ws
            &&& forall|i: int|
                0 <= i < ws.len() ==> is_word(#[trigger] ws[i], CharClass::Alphanumeric)
                    && ascii_lowered(ws[i]) == ws[i]
        }),
{
    let class = CharClass::Alphanumeric;
    let all = words(s, class);
    let ws = all.map_values(|w: Seq<char>| ascii_lowered(w));
    lemma_words(s, class);
    assert forall|i: int| 0 <= i < ws.len() implies is_word(#[trigger] ws[i], class)
        && ascii_lowered(ws[i]) == ws[i] by {
        assert(is_word(all[i], class));
        assert forall|k: int| 0 <= k < ws[i].len() implies class.holds(#[trigger] ws[i][k])
            && ascii_lower(ws[i][k]) == ws[i][k] by {
            assert(class.holds(all[i][k]));
        }
        assert(ascii_lowered(ws[i]) =~= ws[i]);
    }
    lemma_words_of_joined(ws, '-', class);
}

/// Law: the slug of a slug is the slug itself.
pub proof fn law_slug_idempotent(s: Seq<char>)
    ensures
        slug(slug(s)) == slug(s),
{
    let ws = words(s, CharClass::Alphanumeric).map_values(|w: Seq<char>| ascii_lowered(w));
    lemma_slug_words(s);
    assert(ws.map_values(|w: Seq<char>| ascii_lowered(w)) =~= ws);
}

/// A lower case ASCII letter or a digit.
pub open spec fn slug_char(c: char) -> bool {
    '0' <= c <= '9' || 'a' <= c <= 'z'
}

proof fn lemma_joined_shape(ws: Seq<Seq<char>>)
    requires
        forall|i: int|
            0 <= i < ws.len() ==> is_word(#[trigger] ws[i], CharClass::Alphanumeric)
                && ascii_lowered(ws[i]) == ws[i],
    ensures
        ({
            let t = joined(ws, '-');
            &&& forall|i: int| 0 <= i < t.len() ==> slug_char(#[trigger] t[i]) || t[i] == '-'
            &&& t.len() > 0 ==> slug_char(t.first()) && slug_char(t.last())
            &&& forall|i: int| 0 <= i < t.len() - 1 ==> #[trigger] t[i] != '-' || t[i + 1] != '-'
            &&& ws.len() > 0 ==> t.len() > 0
        }),
    decreases ws.len(),
{
    if ws.len() > 0 {
        let w = ws.last();
        assert(is_word(ws[ws.len() - 1], CharClass::Alphanumeric));
        assert(ascii_lowered(ws[ws.len() - 1]) == w);
        assert forall|k: int| 0 <= k < w.len() implies slug_char(#[trigger] w[k]) by {
            assert(CharClass::Alphanumeric.holds(w[k]));
            assert(ascii_lowered(w)[k] == w[k]);
        }
        if ws.len() > 1 {
            let rest = ws.drop_last();
            assert forall|i: int| 0 <= i < rest.len() implies is_word(
                #[trigger] rest[i],
                CharClass::Alphanumeric,
            ) && ascii_lowered(rest[i]) == rest[i] by {
                assert(rest[i] == ws[i]);
            }
            lemma_joined_shape(rest);
            let t = joined(ws, '-');
            let head = joined(rest, '-');
            assert(t == head.push('-') + w);
            assert forall|i: int| 0 <= i < t.len() implies slug_char(#[trigger] t[i])
                || t[i] == '-' by {
                if i < head.len() {
                    assert(t[i] == head[i]);
                } else if i > head.len() {
                    assert(t[i] == w[i - head.len() - 1]);
                }
            }
            assert(t.first() == head.first());
            assert(t.last() == w.last());
            assert forall|i: int| 0 <= i < t.len() - 1 implies #[trigger] t[i] != '-' || t[i + 1]
                != '-' by {
                if i + 1 < head.len() {
                    assert(t[i] == head[i] && t[i + 1] == head[i + 1]);
                } else if i + 1 == head.len() {
                    assert(t[i] == head.last());
                } else {
                    assert(t[i + 1] == w[i - head.len()]);
                }
            }
        }
    }
}

/// Law: a slug holds lower case ASCII letters, digits and dashes; no dash stands at an end or beside
/// another.
pub proof fn law_slug_shape(s: Seq<char>)
    ensures
        forall|i: int| 0 <= i < slug(s).len() ==> slug_char(#[trigger] slug(s)[i]) || slug(s)[i]
            == '-',
        slug(s).len() > 0 ==> slug_char(slug(s).first()) && slug_char(slug(s).last()),
        forall|i: int|
            0 <= i < slug(s).len() - 1 ==> #[trigger] slug(s)[i] != '-' || slug(s)[i + 1] != '-',
{
    lemma_slug_words(s);
    lemma_joined_shape(
        words(s, CharClass::Alphanumeric).map_values(|w: Seq<char>| ascii_lowered(w)),
    );
}

/// The characters in ASCII upper case.
pub open spec fn ascii_uppered(s: Seq<char>) -> Seq<char> {
    s.map_values(|c: char| ascii_upper(c))
}

/// A change of characters that keeps to the class and leaves the class alone changes the characters
/// of the words, and the words stay apart as they were.
proof fn lemma_words_mapped(s: Seq<char>, class: CharClass, f: spec_fn(char) -> char)
    requires
        forall|c: char| class.holds(#[trigger] f(c)) == class.holds(c),
    ensures
        words(s.map_values(f), class) == words(s, class).map_values(|w: Seq<char>| w.map_values(f)),
    decreases s.len(),
{
    let mapped = s.map_values(f);
    let each = |w: Seq<char>| w.map_values(f);
    if s.len() == 0 {
        assert(words(mapped, class) =~= words(s, class).map_values(each));
    } else {
        let rest = s.drop_last();
        lemma_words_mapped(rest, class, f);
        lemma_words(rest, class);
        assert(mapped.drop_last() =~= rest.map_values(f));
        assert(mapped.last() == f(s.last()));
        assert(class.holds(mapped.last()) == class.holds(s.last()));
        let before = words(rest, class);
        if s.len() >= 2 {
            assert(mapped[s.len() - 2] == f(s[s.len() - 2]));
            assert(rest.last() == s[s.len() - 2]);
        }
        if class.holds(s.last()) && s.len() >= 2 && class.holds(s[s.len() - 2]) {
            let grown = before.last().push(s.last());
            assert(grown.map_values(f) =~= before.last().map_values(f).push(f(s.last())));
            assert(before.map_values(each).drop_last() =~= before.drop_last().map_values(each));
            assert(before.drop_last().push(grown).map_values(each)
                =~= before.drop_last().map_values(each).push(grown.map_values(f)));
        } else if class.holds(s.last()) {
            let word = seq![s.last()];
            assert(word.map_values(f) =~= seq![f(s.last())]);
            assert(before.push(word).map_values(each) =~= before.map_values(each).push(
                word.map_values(f),
            ));
        }
    }
}

/// Law: the case of ASCII letters does not change a slug.
pub proof fn law_slug_ignores_case(s: Seq<char>)
    ensures
        slug(ascii_uppered(s)) == slug(s),
        slug(ascii_lowered(s)) == slug(s),
{
    let class = CharClass::Alphanumeric;
    let upper = |c: char| ascii_upper(c);
    let lower = |c: char| ascii_lower(c);
    lemma_words_mapped(s, class, upper);
    lemma_words_mapped(s, class, lower);
    let each = |w: Seq<char>| ascii_lowered(w);
    let all = words(s, class);
    assert forall|i: int| 0 <= i < all.len() implies ascii_lowered(
        #[trigger] all[i].map_values(upper),
    ) == ascii_lowered(all[i]) by {
        assert(ascii_lowered(all[i].map_values(upper)) =~= ascii_lowered(all[i]));
    }
    assert forall|i: int| 0 <= i < all.len() implies ascii_lowered(
        #[trigger] all[i].map_values(lower),
    ) == ascii_lowered(all[i]) by {
        assert(ascii_lowered(all[i].map_values(lower)) =~= ascii_lowered(all[i]));
    }
    assert(words(ascii_uppered(s), class).map_values(each) =~= all.map_values(each));
    assert(words(ascii_lowered(s), class).map_values(each) =~= all.map_values(each));
}

/// Law: the case of the letters of an ASCII name does not change its title.
pub proof fn law_title_ignores_case(s: Seq<char>)
    ensures
        ascii_title(ascii_uppered(s)) == ascii_title(s),
        ascii_title(ascii_lowered(s)) == ascii_title(s),
{
    let class = CharClass::NamePart;
    let upper = |c: char| ascii_upper(c);
    let lower = |c: char| ascii_lower(c);
    lemma_words_mapped(s, class, upper);
    lemma_words_mapped(s, class, lower);
    let each = |w: Seq<char>| ascii_title_word(w);
    let all = words(s, class);
    assert forall|i: int| 0 <= i < all.len() implies ascii_title_word(
        #[trigger] all[i].map_values(upper),
    ) == ascii_title_word(all[i]) by {
        assert(ascii_title_word(all[i].map_values(upper)) =~= ascii_title_word(all[i]));
    }
    assert forall|i: int| 0 <= i < all.len() implies ascii_title_word(
        #[trigger] all[i].map_values(lower),
    ) == ascii_title_word(all[i]) by {
        assert(ascii_title_word(all[i].map_values(lower)) =~= ascii_title_word(all[i]));
    }
    assert(words(ascii_uppered(s), class).map_values(each) =~= all.map_values(each));
    assert(words(ascii_lowered(s), class).map_values(each) =~= all.map_values(each));
}

proof fn lemma_joined_ascii(ws: Seq<Seq<char>>, sep: char)
    requires
        forall|i: int| 0 <= i < ws.len() ==> ascii(#[trigger] ws[i]),
        sep <= '\u{7f}',
    ensures
        ascii(joined(ws, sep)),
    decreases ws.len(),
{
    if ws.len() > 1 {
        let rest = ws.drop_last();
        assert forall|i: int| 0 <= i < rest.len() implies ascii(#[trigger] rest[i]) by {
            assert(ascii(ws[i]));
        }
        lemma_joined_ascii(rest, sep);
        assert(ascii(ws[ws.len() - 1]));
        let head = joined(rest, sep);
        let all = joined(ws, sep);
        assert forall|i: int| 0 <= i < all.len() implies #[trigger] all[i] <= '\u{7f}' by {
            if i < head.len() {
                assert(all[i] == head[i]);
            } else if i > head.len() {
                assert(all[i] == ws.last()[i - head.len() - 1]);
            }
        }
    } else if ws.len() == 1 {
        assert(ascii(ws[0]));
    }
}

/// Law: the title of an ASCII name is ASCII, and the title of that title is itself.
pub proof fn law_title_idempotent(s: Seq<char>)
    ensures
        ascii(s) ==> ascii(ascii_title(s)),
        ascii_title(ascii_title(s)) == ascii_title(s),
{
    let class = CharClass::NamePart;
    let each = |w: Seq<char>| ascii_title_word(w);
    let all = words(s, class);
    let titled = all.map_values(each);
    lemma_words(s, class);
    assert forall|i: int| 0 <= i < titled.len() implies is_word(#[trigger] titled[i], class)
        && ascii_title_word(titled[i]) == titled[i] by {
        let w = all[i];
        assert(is_word(w, class));
        let t = ascii_title_word(w);
        assert forall|k: int| 0 <= k < t.len() implies class.holds(#[trigger] t[k]) by {
            assert(class.holds(w[k]));
            if k > 0 {
                assert(t[k] == ascii_lower(w[k]));
            }
        }
        assert(ascii_title_word(t) =~= t);
    }
    lemma_words_of_joined(titled, ' ', class);
    assert(titled.map_values(each) =~= titled);
    if ascii(s) {
        lemma_words_ascii(s, class);
        assert forall|i: int| 0 <= i < titled.len() implies ascii(#[trigger] titled[i]) by {
            let w = all[i];
            assert(ascii(w));
            assert forall|k: int| 0 <= k < titled[i].len() implies #[trigger] titled[i][k]
                <= '\u{7f}' by {
                assert(w[k] <= '\u{7f}');
                if k > 0 {
                    assert(titled[i][k] == ascii_lower(w[k]));
                }
            }
        }
        lemma_joined_ascii(titled, ' ');
    }
}

/// Two texts that differ in characters outside the class alone have the same words.
proof fn lemma_words_alike(a: Seq<char>, b: Seq<char>, class: CharClass)
    requires
        a.len() == b.len(),
        forall|i: int|
            0 <= i < a.len() ==> #[trigger] a[i] == b[i] || (!class.holds(a[i]) && !class.holds(
                b[i],
            )),
    ensures
        words(a, class) == words(b, class),
    decreases a.len(),
{
    if a.len() > 0 {
        let ra = a.drop_last();
        let rb = b.drop_last();
        assert forall|i: int| 0 <= i < ra.len() implies #[trigger] ra[i] == rb[i] || (!class.holds(
            ra[i],
        ) && !class.holds(rb[i])) by {
            assert(a[i] == b[i] || (!class.holds(a[i]) && !class.holds(b[i])));
        }
        lemma_words_alike(ra, rb, class);
        let n = a.len();
        assert(a[n - 1] == b[n - 1] || (!class.holds(a[n - 1]) && !class.holds(b[n - 1])));
        if n >= 2 {
            assert(a[n - 2] == b[n - 2] || (!class.holds(a[n - 2]) && !class.holds(b[n - 2])));
        }
    }
}

/// A character outside the class adds no word at the beginning or behind another such character.
proof fn lemma_words_gap(p: Seq<char>, gap: char, q: Seq<char>, class: CharClass)
    requires
        !class.holds(gap),
        p.len() > 0 ==> !class.holds(p.last()),
    ensures
        words(p.push(gap) + q, class) == words(p + q, class),
    decreases q.len(),
{
    let a = p.push(gap) + q;
    let b = p + q;
    if q.len() == 0 {
        assert(a =~= p.push(gap));
        assert(b =~= p);
        assert(p.push(gap).drop_last() =~= p);
    } else {
        lemma_words_gap(p, gap, q.drop_last(), class);
        assert(a.drop_last() =~= p.push(gap) + q.drop_last());
        assert(b.drop_last() =~= p + q.drop_last());
        assert(a.last() == q.last() && b.last() == q.last());
        if q.len() >= 2 {
            assert(a[a.len() - 2] == q[q.len() - 2]);
            assert(b[b.len() - 2] == q[q.len() - 2]);
        } else {
            assert(a[a.len() - 2] == gap);
            if b.len() >= 2 {
                assert(b[b.len() - 2] == p.last());
            }
        }
    }
}

/// Law: which of the separators stands between two parts of a name does not change its title.
pub proof fn law_title_any_separator(a: Seq<char>, b: Seq<char>)
    requires
        a.len() == b.len(),
        forall|i: int|
            0 <= i < a.len() ==> #[trigger] a[i] == b[i] || (!CharClass::NamePart.holds(a[i])
                && !CharClass::NamePart.holds(b[i])),
    ensures
        title(a) == title(b),
        ascii_title(a) == ascii_title(b),
{
    lemma_words_alike(a, b, CharClass::NamePart);
}

/// Law: a separator at either end of a name or beside another one does not change its title.
pub proof fn law_title_extra_separator(p: Seq<char>, gap: char, q: Seq<char>)
    requires
        !CharClass::NamePart.holds(gap),
        p.len() == 0 || q.len() == 0 || !CharClass::NamePart.holds(p.last())
            || !CharClass::NamePart.holds(q.first()),
    ensures
        title(p.push(gap) + q) == title(p + q),
        ascii_title(p.push(gap) + q) == ascii_title(p + q),
{
    let class = CharClass::NamePart;
    if p.len() == 0 || !class.holds(p.last()) {
        lemma_words_gap(p, gap, q, class);
    } else if q.len() == 0 {
        assert(p.push(gap) + q =~= p.push(gap));
        assert(p + q =~= p);
        assert(p.push(gap).drop_last() =~= p);
    } else {
        let rest = q.drop_first();
        lemma_words_gap(p.push(gap), q.first(), rest, class);
        assert(p.push(gap).push(q.first()) + rest =~= p.push(gap) + q);
        assert(p.push(q.first()) + rest =~= p + q);
        lemma_words_alike(p.push(gap) + rest, p.push(q.first()) + rest, class);
    }
}

/// The first position of a character, and the length where it does not occur.
pub open spec fn position(s: Seq<char>, c: char) -> int
    decreases s.len(),
{
    if s.len() == 0 || s[0] == c {
        0
    } else {
        1 + position(s.drop_first(), c)
    }
}

/// A position with the character, and without it before, is the first one.
pub proof fn lemma_position(s: Seq<char>, c: char, i: int)
    requires
        0 <= i <= s.len(),
        forall|k: int| 0 <= k < i ==> #[trigger] s[k] != c,
        i < s.len() ==> s[i] == c,
    ensures
        position(s, c) == i,
    decreases s.len(),
{
    if i > 0 {
        let rest = s.drop_first();
        assert(s[0] != c);
        assert forall|k: int| 0 <= k < i - 1 implies #[trigger] rest[k] != c by {
            assert(s[k + 1] != c);
        }
        lemma_position(rest, c, i - 1);
    }
}

/// Whether all characters are of the class.
pub open spec fn all_of(s: Seq<char>, class: CharClass) -> bool {
    forall|i: int| 0 <= i < s.len() ==> class.holds(#[trigger] s[i])
}

/// Law: stripping takes off what is of the class at both ends, and stops at the first character that
/// is not.
pub proof fn law_strip(before: Seq<char>, core: Seq<char>, after: Seq<char>, class: CharClass)
    requires
        all_of(before, class),
        all_of(after, class),
        core.len() > 0 ==> !class.holds(core.first()) && !class.holds(core.last()),
    ensures
        stripped(before + core + after, class) == core,
    decreases before.len() + after.len(),
{
    let s = before + core + after;
    if before.len() > 0 {
        assert(class.holds(before[0]));
        assert(s.first() == before[0]);
        let rest = before.drop_first();
        assert(all_of(rest, class)) by {
            assert forall|i: int| 0 <= i < rest.len() implies class.holds(#[trigger] rest[i]) by {
                assert(class.holds(before[i + 1]));
            }
        }
        law_strip(rest, core, after, class);
        assert(s.drop_first() =~= rest + core + after);
    } else if after.len() > 0 {
        assert(class.holds(after[after.len() - 1]));
        assert(s.last() == after.last());
        let rest = after.drop_last();
        assert(all_of(rest, class)) by {
            assert forall|i: int| 0 <= i < rest.len() implies class.holds(#[trigger] rest[i]) by {
                assert(class.holds(after[i]));
            }
        }
        if core.len() > 0 {
            assert(s.first() == core.first());
            law_strip(before, core, rest, class);
            assert(s.drop_last() =~= before + core + rest);
        } else {
            assert(class.holds(after[0]));
            assert(s.first() == after[0]);
            let tail = after.drop_first();
            assert(all_of(tail, class)) by {
                assert forall|i: int| 0 <= i < tail.len() implies class.holds(#[trigger] tail[i]) by {
                    assert(class.holds(after[i + 1]));
                }
            }
            law_strip(before, core, tail, class);
            assert(s.drop_first() =~= before + core + tail);
        }
    } else {
        assert(s =~= core);
    }
}

/// Every text falls into what is stripped before, the core, and what is stripped after.
pub proof fn lemma_strip_parts(s: Seq<char>, class: CharClass) -> (parts: (Seq<char>, Seq<char>))
    ensures
        all_of(parts.0, class),
        all_of(parts.1, class),
        s == parts.0 + stripped(s, class) + parts.1,
        ({
            let core = stripped(s, class);
            core.len() > 0 ==> !class.holds(core.first()) && !class.holds(core.last())
        }),
    decreases s.len(),
{
    let none: Seq<char> = seq![];
    if s.len() == 0 {
        assert(s =~= none + stripped(s, class) + none);
        (none, none)
    } else if class.holds(s.first()) {
        let (before, after) = lemma_strip_parts(s.drop_first(), class);
        let longer = seq![s.first()] + before;
        assert forall|i: int| 0 <= i < longer.len() implies class.holds(#[trigger] longer[i]) by {
            if i > 0 {
                assert(class.holds(before[i - 1]));
            }
        }
        assert(s =~= seq![s.first()] + s.drop_first());
        assert(s =~= longer + stripped(s, class) + after);
        (longer, after)
    } else if class.holds(s.last()) {
        let (before, after) = lemma_strip_parts(s.drop_last(), class);
        let longer = after.push(s.last());
        assert forall|i: int| 0 <= i < longer.len() implies class.holds(#[trigger] longer[i]) by {
            if i < after.len() {
                assert(class.holds(after[i]));
            }
        }
        assert(s =~= s.drop_last().push(s.last()));
        assert(s =~= before + stripped(s, class) + longer);
        (before, longer)
    } else {
        assert(s =~= none + stripped(s, class) + none);
        (none, none)
    }
}

/// Law: the slug of words of ASCII letters and digits, joined by any other character, is these words
/// in lower case, joined by dashes.
pub proof fn law_slug_of_words(ws: Seq<Seq<char>>, sep: char)
    requires
        forall|i: int| 0 <= i < ws.len() ==> is_word(#[trigger] ws[i], CharClass::Alphanumeric),
        !CharClass::Alphanumeric.holds(sep),
    ensures
        slug(joined(ws, sep)) == joined(ws.map_values(|w: Seq<char>| ascii_lowered(w)), '-'),
{
    lemma_words_of_joined(ws, sep, CharClass::Alphanumeric);
}

/// Law: a character that is no ASCII letter or digit, at either end of a name or beside another one,
/// does not change its slug, and which of them stands in a place does not either.
pub proof fn law_slug_separators(p: Seq<char>, gap: char, other: char, q: Seq<char>)
    requires
        !CharClass::Alphanumeric.holds(gap),
        !CharClass::Alphanumeric.holds(other),
    ensures
        slug(p.push(gap) + q) == slug(p.push(other) + q),
        p.len() == 0 || q.len() == 0 || !CharClass::Alphanumeric.holds(p.last())
            || !CharClass::Alphanumeric.holds(q.first()) ==> slug(p.push(gap) + q) == slug(p + q),
{
    let class = CharClass::Alphanumeric;
    lemma_words_alike(p.push(gap) + q, p.push(other) + q, class);
    if p.len() == 0 || !class.holds(p.last()) {
        lemma_words_gap(p, gap, q, class);
    } else if q.len() == 0 {
        assert(p.push(gap) + q =~= p.push(gap));
        assert(p + q =~= p);
        assert(p.push(gap).drop_last() =~= p);
    } else if !class.holds(q.first()) {
        let rest = q.drop_first();
        lemma_words_gap(p.push(gap), q.first(), rest, class);
        assert(p.push(gap).push(q.first()) + rest =~= p.push(gap) + q);
        assert(p.push(q.first()) + rest =~= p + q);
        lemma_words_alike(p.push(gap) + rest, p.push(q.first()) + rest, class);
    }
}

/// Law: the title of words without separators, joined by any separator, is the words' own titles,
/// joined by spaces.
pub proof fn law_title_of_words(ws: Seq<Seq<char>>, sep: char)
    requires
        forall|i: int| 0 <= i < ws.len() ==> is_word(#[trigger] ws[i], CharClass::NamePart),
        sep == '_' || sep == '-' || sep == ' ',
    ensures
        title(joined(ws, sep)) == joined(ws.map_values(|w: Seq<char>| title_word(w)), ' '),
        ascii_title(joined(ws, sep)) == joined(
            ws.map_values(|w: Seq<char>| ascii_title_word(w)),
            ' ',
        ),
{
    lemma_words_of_joined(ws, sep, CharClass::NamePart);
}

/// Decimal digits with zeros before them stand for their number.
pub proof fn lemma_padded_value(n: nat, width: nat)
    ensures
        digits_value(zero_padded(decimal(n), width)) == n,
{
    lemma_decimal_value(n);
    if decimal(n).len() < width {
        lemma_zeros_value((width - decimal(n).len()) as nat, decimal(n));
    }
}

/// Law: a word's title begins with its first character in upper case, and every further character
/// adds itself in lower case.
pub proof fn law_title_of_word(w: Seq<char>, c: char)
    ensures
        w.len() == 0 ==> title_word(w.push(c)) == unicode_upper(c) && ascii_title_word(w.push(c))
            == seq![ascii_upper(c)],
        w.len() > 0 ==> title_word(w.push(c)) == title_word(w) + unicode_lower(c)
            && ascii_title_word(w.push(c)) == ascii_title_word(w).push(ascii_lower(c)),
{
    let longer = w.push(c);
    if w.len() == 0 {
        assert(longer.drop_first() =~= seq![]);
        assert(title_word(longer) =~= unicode_upper(c));
        assert(ascii_title_word(longer) =~= seq![ascii_upper(c)]);
    } else {
        assert(longer.drop_first().drop_last() =~= w.drop_first());
        assert(longer.drop_first().last() == c);
        assert(title_word(longer) =~= title_word(w) + unicode_lower(c));
        assert(ascii_title_word(longer) =~= ascii_title_word(w).push(ascii_lower(c)));
    }
}

/// Law: texts are joined with one separator between neighbours.
pub proof fn law_join(parts: Seq<Seq<char>>, last: Seq<char>, sep: char)
    ensures
        parts.len() == 0 ==> joined(parts.push(last), sep) == last && joined(parts, sep).len() == 0,
        parts.len() > 0 ==> joined(parts.push(last), sep) == joined(parts, sep) + seq![sep] + last,
{
    assert(parts.push(last).drop_last() =~= parts);
    if parts.len() > 0 {
        assert(joined(parts.push(last), sep) =~= joined(parts, sep) + seq![sep] + last);
    }
}

} // verus!
