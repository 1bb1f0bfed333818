//! Strings as sequences of characters: the operations on text that the rest
//! of the library is written and specified with.
use vstd::prelude::*;
use vstd::utf8::encode_utf8;

verus! {

/// `String::push` of std: appends one character.
pub assume_specification[ String::push ](s: &mut String, c: char)
    ensures
        final(s)@ == old(s)@.push(c),
;

/// `String::capacity` of std: how many bytes the string has room for, which are
/// no fewer than it holds. How many more is up to the allocator.
pub assume_specification[ String::capacity ](s: &String) -> (n: usize)
    ensures
        n >= encode_utf8(s@).len(),
;

/// The lower-case form of a text that is not all ASCII, by the Unicode case tables.
pub uninterp spec fn unicode_lowercase(s: Seq<char>) -> Seq<char>;

/// An ASCII letter in lower case; any other character unchanged.
pub open spec fn ascii_lower(c: char) -> char {
    if 'A' <= c && c <= 'Z' {
        ((c as u8 + 32) as u8) as char
    } else {
        c
    }
}

/// Every ASCII letter of a text in lower case.
pub open spec fn ascii_lowercase(s: Seq<char>) -> Seq<char> {
    s.map_values(|c: char| ascii_lower(c))
}

/// Whether every character is below 128.
pub open spec fn all_ascii(s: Seq<char>) -> bool {
    forall|i: int| 0 <= i < s.len() ==> (#[trigger] s[i]) as u32 <= 127
}

/// The lower-case form of a text.
pub open spec fn lowercase(s: Seq<char>) -> Seq<char> {
    if all_ascii(s) {
        ascii_lowercase(s)
    } else {
        unicode_lowercase(s)
    }
}

/// `str::to_lowercase` of std: the Unicode lower-case form, a function of the
/// text alone. In ASCII text it lowers the letters A to Z and nothing else. That
/// a lower-case form is its own lower-case form is said of ASCII text only.
#[verifier::external_body]
pub(crate) fn to_lowercase(s: &str) -> (r: String)
    ensures
        r@ == (if all_ascii(s@) {
            ascii_lowercase(s@)
        } else {
            unicode_lowercase(s@)
        }),
{
    s.to_lowercase()
}

/// The upper-case form of a text that is not all ASCII, by the Unicode case tables.
pub uninterp spec fn unicode_uppercase(s: Seq<char>) -> Seq<char>;

/// An ASCII letter in upper case; any other character unchanged.
pub open spec fn ascii_upper(c: char) -> char {
    if 'a' <= c && c <= 'z' {
        ((c as u8 - 32) as u8) as char
    } else {
        c
    }
}

/// The upper-case form of a text.
pub open spec fn uppercase(s: Seq<char>) -> Seq<char> {
    if all_ascii(s) {
        s.map_values(|c: char| ascii_upper(c))
    } else {
        unicode_uppercase(s)
    }
}

/// `str::to_uppercase` of std: the Unicode upper-case form, a function of the
/// text alone. In ASCII text it raises the letters a to z and nothing else.
#[verifier::external_body]
pub(crate) fn to_uppercase(s: &str) -> (r: String)
    ensures
        r@ == (if all_ascii(s@) {
            s@.map_values(|c: char| ascii_upper(c))
        } else {
            unicode_uppercase(s@)
        }),
{
    s.to_uppercase()
}

/// ASCII text in lower case stays as it is.
pub proof fn lowercase_again(s: Seq<char>)
    requires
        all_ascii(s),
    ensures
        all_ascii(lowercase(s)),
        lowercase(lowercase(s)) == lowercase(s),
{
    let t = lowercase(s);
    assert forall|i: int| 0 <= i < t.len() implies (#[trigger] t[i]) as u32 <= 127 by {
        assert(s[i] as u32 <= 127);
    }
    assert(lowercase(t) =~= t);
}

/// The text between quotes with its escapes, as a Rust string literal.
pub uninterp spec fn quoted_text(s: Seq<char>) -> Seq<char>;

/// The `Debug` form of std's `str`: the text between quotes with its escapes,
/// a function of the text alone.
#[verifier::external_body]
pub(crate) fn quoted(s: &str) -> (r: String)
    ensures
        r@ == quoted_text(s@),
{
    format!("{s:?}")
}

/// The characters of a string.
pub fn chars_of(s: &str) -> (v: Vec<char>)
    ensures
        v@ == s@,
{
    let mut v: Vec<char> = Vec::new();
    for c in it: s.chars()
        invariant
            v@ == it.seq().subrange(0, it.index() as int),
            it.seq() == s@,
    {
        v.push(c);
        assert(it.seq().subrange(0, it.index() as int).push(c) =~= it.seq().subrange(
            0,
            it.index() + 1,
        ));
    }
    assert(s@.subrange(0, s@.len() as int) =~= s@);
    v
}

/// The string that holds the characters `from..to` of a slice.
pub fn string_range(v: &[char], from: usize, to: usize) -> (s: String)
    requires
        from <= to <= v@.len(),
    ensures
        s@ == v@.subrange(from as int, to as int),
{
    let mut s = String::new();
    let mut i: usize = from;
    while i < to
        invariant
            from <= i <= to <= v.len(),
            s@ == v@.subrange(from as int, i as int),
        decreases to - i,
    {
        s.push(v[i]);
        assert(v@.subrange(from as int, i as int).push(v@[i as int]) =~= v@.subrange(
            from as int,
            i + 1,
        ));
        i += 1;
    }
    s
}

/// Whether `p` stands in `s` at position `i`.
pub open spec fn occurs_at(s: Seq<char>, p: Seq<char>, i: int) -> bool {
    0 <= i && i + p.len() <= s.len() && s.subrange(i, i + p.len()) == p
}

/// Whether `s` begins with `p`.
pub open spec fn has_prefix(s: Seq<char>, p: Seq<char>) -> bool {
    occurs_at(s, p, 0)
}

/// Whether `s` ends with `p`.
pub open spec fn has_suffix(s: Seq<char>, p: Seq<char>) -> bool {
    occurs_at(s, p, s.len() - p.len())
}

/// Whether `p` stands somewhere in `s`.
pub open spec fn has_part(s: Seq<char>, p: Seq<char>) -> bool {
    exists|i: int| occurs_at(s, p, i)
}

/// Whether the characters of `p` stand in `s` at position `at`.
pub fn chars_occur_at(s: &[char], p: &[char], at: usize) -> (b: bool)
    ensures
        b == occurs_at(s@, p@, at as int),
{
    if at > s.len() || p.len() > s.len() - at {
        return false;
    }
    let mut i: usize = 0;
    while i < p.len()
        invariant
            i <= p.len(),
            at + p.len() <= s.len(),
            forall|j: int| 0 <= j < i ==> s@[at + j] == p@[j],
        decreases p.len() - i,
    {
        if s[at + i] != p[i] {
            assert(s@.subrange(at as int, at + p@.len())[i as int] != p@[i as int]);
            return false;
        }
        i += 1;
    }
    assert(s@.subrange(at as int, at + p@.len()) =~= p@);
    true
}

/// Whether two strings hold the same text.
pub fn str_eq(a: &str, b: &str) -> (r: bool)
    ensures
        r == (a@ == b@),
{
    let x = chars_of(a);
    let y = chars_of(b);
    if x.len() != y.len() {
        return false;
    }
    let r = chars_occur_at(x.as_slice(), y.as_slice(), 0);
    assert(a@.subrange(0, a@.len() as int) =~= a@);
    r
}

/// Whether a string begins with another.
pub fn starts_with(s: &str, p: &str) -> (r: bool)
    ensures
        r == has_prefix(s@, p@),
{
    chars_occur_at(chars_of(s).as_slice(), chars_of(p).as_slice(), 0)
}

/// Whether a string ends with another.
pub fn ends_with(s: &str, p: &str) -> (r: bool)
    ensures
        r == has_suffix(s@, p@),
{
    let x = chars_of(s);
    let y = chars_of(p);
    if y.len() > x.len() {
        return false;
    }
    chars_occur_at(x.as_slice(), y.as_slice(), x.len() - y.len())
}

/// Whether a string contains another.
pub fn contains(s: &str, p: &str) -> (r: bool)
    ensures
        r == has_part(s@, p@),
{
    let x = chars_of(s);
    let y = chars_of(p);
    if y.len() > x.len() {
        return false;
    }
    let last: usize = x.len() - y.len();
    let mut i: usize = 0;
    while i <= last
        invariant
            x@ == s@,
            y@ == p@,
            y.len() <= x.len(),
            last == x.len() - y.len(),
            i <= last + 1,
            forall|j: int| 0 <= j < i ==> !occurs_at(s@, p@, j),
        decreases last + 1 - i,
    {
        if chars_occur_at(x.as_slice(), y.as_slice(), i) {
            return true;
        }
        if i == last {
            return false;
        }
        i += 1;
    }
    false
}

/// Whether a string holds a character.
pub fn contains_char(s: &str, c: char) -> (r: bool)
    ensures
        r == s@.contains(c),
{
    let x = chars_of(s);
    let mut i: usize = 0;
    while i < x.len()
        invariant
            x@ == s@,
            i <= x.len(),
            forall|j: int| 0 <= j < i ==> s@[j] != c,
        decreases x.len() - i,
    {
        if x[i] == c {
            assert(s@[i as int] == c);
            return true;
        }
        i += 1;
    }
    false
}

/// Whether two texts differ in the case of ASCII letters alone.
pub fn eq_ignore_ascii_case(a: &str, b: &str) -> (r: bool)
    ensures
        r == (ascii_lowercase(a@) == ascii_lowercase(b@)),
{
    let x = chars_of(a);
    let y = chars_of(b);
    if x.len() != y.len() {
        assert(ascii_lowercase(a@).len() != ascii_lowercase(b@).len());
        return false;
    }
    let mut i: usize = 0;
    while i < x.len()
        invariant
            x@ == a@,
            y@ == b@,
            x.len() == y.len(),
            i <= x.len(),
            forall|j: int| 0 <= j < i ==> ascii_lowercase(a@)[j] == ascii_lowercase(b@)[j],
        decreases x.len() - i,
    {
        if lower_char(x[i]) != lower_char(y[i]) {
            assert(ascii_lowercase(a@)[i as int] != ascii_lowercase(b@)[i as int]);
            return false;
        }
        i += 1;
    }
    assert(ascii_lowercase(a@) =~= ascii_lowercase(b@));
    true
}

/// An ASCII letter in lower case; any other character unchanged.
pub fn lower_char(c: char) -> (r: char)
    ensures
        r == ascii_lower(c),
{
    if 'A' <= c && c <= 'Z' {
        (c as u8 + 32) as char
    } else {
        c
    }
}

/// Two texts in a row.
pub fn concat(a: &str, b: &str) -> (s: String)
    ensures
        s@ == a@ + b@,
{
    let mut s = a.to_owned();
    s.append(b);
    s
}

/// Three texts in a row.
pub fn concat3(a: &str, b: &str, c: &str) -> (s: String)
    ensures
        s@ == a@ + b@ + c@,
{
    let mut s = a.to_owned();
    s.append(b);
    s.append(c);
    s
}

// ---------------------------------------------------------------------------
// White space
// ---------------------------------------------------------------------------

/// The characters with the Unicode property White_Space.
pub open spec fn white(c: char) -> bool {
    let u = c as u32;
    ||| 0x09 <= u <= 0x0d
    ||| u == 0x20
    ||| u == 0x85
    ||| u == 0xa0
    ||| u == 0x1680
    ||| 0x2000 <= u <= 0x200a
    ||| u == 0x2028
    ||| u == 0x2029
    ||| u == 0x202f
    ||| u == 0x205f
    ||| u == 0x3000
}

/// Whether a character is white space.
pub fn is_white(c: char) -> (b: bool)
    ensures
        b == white(c),
{
    let u: u32 = c as u32;
    (0x09 <= u && u <= 0x0d) || u == 0x20 || u == 0x85 || u == 0xa0 || u == 0x1680 || (0x2000 <= u
        && u <= 0x200a) || u == 0x2028 || u == 0x2029 || u == 0x202f || u == 0x205f || u == 0x3000
}

/// The text from its first character that is not white space on.
pub open spec fn trimmed_start(s: Seq<char>) -> Seq<char>
    decreases s.len(),
{
    if s.len() > 0 && white(s[0]) {
        trimmed_start(s.subrange(1, s.len() as int))
    } else {
        s
    }
}

/// The text up to its last character that is not white space.
pub open spec fn trimmed_end(s: Seq<char>) -> Seq<char>
    decreases s.len(),
{
    if s.len() > 0 && white(s[s.len() - 1]) {
        trimmed_end(s.subrange(0, s.len() - 1))
    } else {
        s
    }
}

/// The text without the white space at its two ends.
pub open spec fn trimmed(s: Seq<char>) -> Seq<char> {
    trimmed_end(trimmed_start(s))
}

/// The text without the white space at its two ends.
pub fn trim(s: &str) -> (r: String)
    ensures
        r@ == trimmed(s@),
{
    let x = chars_of(s);
    let mut from: usize = 0;
    proof {
        assert(x@.subrange(0, x@.len() as int) =~= x@);
    }
    while from < x.len() && is_white(x[from])
        invariant
            x@ == s@,
            from <= x.len(),
            trimmed_start(x@.subrange(from as int, x@.len() as int)) == trimmed_start(s@),
        decreases x.len() - from,
    {
        proof {
            let rest = x@.subrange(from as int, x@.len() as int);
            assert(rest[0] == x@[from as int]);
            assert(rest.subrange(1, rest.len() as int) =~= x@.subrange(
                from + 1,
                x@.len() as int,
            ));
        }
        from += 1;
    }
    let ghost kept = x@.subrange(from as int, x@.len() as int);
    proof {
        if from < x.len() {
            assert(kept[0] == x@[from as int]);
        }
        assert(trimmed_start(kept) == kept);
        assert(trimmed_start(s@) == kept);
    }
    let mut to: usize = x.len();
    while to > from && is_white(x[to - 1])
        invariant
            x@ == s@,
            from <= to <= x.len(),
            trimmed_end(x@.subrange(from as int, to as int)) == trimmed_end(kept),
        decreases to,
    {
        proof {
            let part = x@.subrange(from as int, to as int);
            assert(part[part.len() - 1] == x@[to - 1]);
            assert(part.subrange(0, part.len() - 1) =~= x@.subrange(from as int, to - 1));
        }
        to -= 1;
    }
    proof {
        let part = x@.subrange(from as int, to as int);
        if to > from {
            assert(part[part.len() - 1] == x@[to - 1]);
        }
        assert(trimmed_end(part) == part);
    }
    string_range(x.as_slice(), from, to)
}

/// The text without any run of `c` at its end.
pub open spec fn without_trailing(s: Seq<char>, c: char) -> Seq<char>
    decreases s.len(),
{
    if s.len() > 0 && s[s.len() - 1] == c {
        without_trailing(s.subrange(0, s.len() - 1), c)
    } else {
        s
    }
}

/// The text without any run of `c` at its beginning.
pub open spec fn without_leading(s: Seq<char>, c: char) -> Seq<char>
    decreases s.len(),
{
    if s.len() > 0 && s[0] == c {
        without_leading(s.subrange(1, s.len() as int), c)
    } else {
        s
    }
}

/// The text without any run of `c` at its end.
pub fn trim_end_char(s: &str, c: char) -> (r: String)
    ensures
        r@ == without_trailing(s@, c),
{
    let x = chars_of(s);
    let mut to: usize = x.len();
    proof {
        assert(x@.subrange(0, x@.len() as int) =~= x@);
    }
    while to > 0 && x[to - 1] == c
        invariant
            x@ == s@,
            to <= x.len(),
            without_trailing(x@.subrange(0, to as int), c) == without_trailing(s@, c),
        decreases to,
    {
        proof {
            let part = x@.subrange(0, to as int);
            assert(part[part.len() - 1] == x@[to - 1]);
            assert(part.subrange(0, part.len() - 1) =~= x@.subrange(0, to - 1));
        }
        to -= 1;
    }
    proof {
        let part = x@.subrange(0, to as int);
        if to > 0 {
            assert(part[part.len() - 1] == x@[to - 1]);
        }
    }
    string_range(x.as_slice(), 0, to)
}

/// The text without any run of `c` at its beginning.
pub fn trim_start_char(s: &str, c: char) -> (r: String)
    ensures
        r@ == without_leading(s@, c),
{
    let x = chars_of(s);
    let mut from: usize = 0;
    proof {
        assert(x@.subrange(0, x@.len() as int) =~= x@);
    }
    while from < x.len() && x[from] == c
        invariant
            x@ == s@,
            from <= x.len(),
            without_leading(x@.subrange(from as int, x@.len() as int), c) == without_leading(
                s@,
                c,
            ),
        decreases x.len() - from,
    {
        proof {
            let rest = x@.subrange(from as int, x@.len() as int);
            assert(rest[0] == x@[from as int]);
            assert(rest.subrange(1, rest.len() as int) =~= x@.subrange(
                from + 1,
                x@.len() as int,
            ));
        }
        from += 1;
    }
    proof {
        let rest = x@.subrange(from as int, x@.len() as int);
        if from < x.len() {
            assert(rest[0] == x@[from as int]);
        }
    }
    string_range(x.as_slice(), from, x.len())
}

// ---------------------------------------------------------------------------
// Splitting
// ---------------------------------------------------------------------------

/// The texts that a sequence of strings holds.
pub open spec fn texts(v: Seq<String>) -> Seq<Seq<char>> {
    v.map_values(|s: String| s@)
}

/// The parts of a text between the occurrences of a separator.
pub open spec fn split_parts(s: Seq<char>, sep: char) -> Seq<Seq<char>>
    decreases s.len(),
{
    if s.len() == 0 {
        seq![Seq::<char>::empty()]
    } else {
        let before = split_parts(s.drop_last(), sep);
        if s.last() == sep {
            before.push(Seq::<char>::empty())
        } else {
            before.drop_last().push(before.last().push(s.last()))
        }
    }
}

pub proof fn split_parts_nonempty(s: Seq<char>, sep: char)
    ensures
        split_parts(s, sep).len() >= 1,
    decreases s.len(),
{
    if s.len() > 0 {
        split_parts_nonempty(s.drop_last(), sep);
    }
}

/// The parts of a text between the occurrences of a separator.
pub fn split(s: &str, sep: char) -> (parts: Vec<String>)
    ensures
        texts(parts@) == split_parts(s@, sep),
        parts@.len() >= 1,
{
    let x = chars_of(s);
    let mut parts: Vec<String> = Vec::new();
    let mut cur = String::new();
    let mut i: usize = 0;
    proof {
        assert(x@.subrange(0, 0) =~= Seq::<char>::empty());
        assert(texts(parts@).push(cur@) =~= seq![Seq::<char>::empty()]);
    }
    while i < x.len()
        invariant
            x@ == s@,
            i <= x.len(),
            texts(parts@).push(cur@) == split_parts(s@.subrange(0, i as int), sep),
        decreases x.len() - i,
    {
        let ghost before = texts(parts@).push(cur@);
        proof {
            let done = s@.subrange(0, i + 1);
            assert(done.drop_last() =~= s@.subrange(0, i as int));
            assert(done.last() == s@[i as int]);
            assert(before.drop_last() =~= texts(parts@));
            assert(before.last() == cur@);
        }
        if x[i] == sep {
            let ghost old_parts = parts@;
            parts.push(cur);
            cur = String::new();
            assert(texts(parts@) =~= texts(old_parts).push(parts@.last()@));
            assert(texts(parts@) =~= before);
        } else {
            cur.push(x[i]);
        }
        i += 1;
    }
    let ghost old_parts = parts@;
    let ghost last = cur@;
    parts.push(cur);
    proof {
        assert(s@.subrange(0, s@.len() as int) =~= s@);
        assert(texts(parts@) =~= texts(old_parts).push(last));
    }
    parts
}

/// A line without the carriage return that ends it, if one does.
pub open spec fn without_return(s: Seq<char>) -> Seq<char> {
    if s.len() > 0 && s.last() == '\r' {
        s.drop_last()
    } else {
        s
    }
}

/// The lines of a text: what stands before each line feed, without a carriage
/// return before it, and what follows the last one, unless that is empty.
pub open spec fn text_lines(s: Seq<char>) -> Seq<Seq<char>> {
    let parts = split_parts(s, '\n');
    let ended = parts.drop_last().map_values(|p: Seq<char>| without_return(p));
    if parts.last().len() == 0 {
        ended
    } else {
        ended.push(parts.last())
    }
}

/// The text without a carriage return at its end.
fn strip_return(s: &str) -> (r: String)
    ensures
        r@ == without_return(s@),
{
    let x = chars_of(s);
    if x.len() > 0 && x[x.len() - 1] == '\r' {
        assert(x@.subrange(0, x@.len() - 1) =~= x@.drop_last());
        string_range(x.as_slice(), 0, x.len() - 1)
    } else {
        s.to_owned()
    }
}

/// The lines of a text.
pub fn lines(s: &str) -> (v: Vec<String>)
    ensures
        texts(v@) == text_lines(s@),
{
    let parts = split(s, '\n');
    let mut v: Vec<String> = Vec::new();
    let ghost model = split_parts(s@, '\n');
    let ghost ended = model.drop_last().map_values(|p: Seq<char>| without_return(p));
    let n: usize = parts.len() - 1;
    let mut i: usize = 0;
    while i < n
        invariant
            i <= n,
            n + 1 == parts.len(),
            model == texts(parts@),
            ended == model.drop_last().map_values(|p: Seq<char>| without_return(p)),
            texts(v@) == ended.subrange(0, i as int),
        decreases n - i,
    {
        let line = strip_return(parts[i].as_str());
        let ghost old_v = v@;
        let ghost text = line@;
        v.push(line);
        proof {
            assert(texts(v@) =~= texts(old_v).push(text));
            assert(ended[i as int] == without_return(model[i as int]));
            assert(model[i as int] == parts@[i as int]@);
            assert(ended.subrange(0, i as int).push(ended[i as int]) =~= ended.subrange(0, i + 1));
        }
        i += 1;
    }
    proof {
        assert(ended.subrange(0, n as int) =~= ended);
        assert(model.last() == parts@[n as int]@);
    }
    let last: &String = &parts[n];
    if !last.as_str().is_empty() {
        let ghost old_v = v@;
        v.push(last.clone());
        assert(texts(v@) =~= texts(old_v).push(last@));
    }
    v
}

/// The finished words of a text and the word that it breaks off in.
pub open spec fn word_state(s: Seq<char>) -> (Seq<Seq<char>>, Seq<char>)
    decreases s.len(),
{
    if s.len() == 0 {
        (Seq::empty(), Seq::empty())
    } else {
        let (done, cur) = word_state(s.drop_last());
        if !white(s.last()) {
            (done, cur.push(s.last()))
        } else if cur.len() > 0 {
            (done.push(cur), Seq::empty())
        } else {
            (done, cur)
        }
    }
}

/// The words of a text: its longest runs without white space.
pub open spec fn words(s: Seq<char>) -> Seq<Seq<char>> {
    let (done, cur) = word_state(s);
    if cur.len() > 0 {
        done.push(cur)
    } else {
        done
    }
}

/// No word is empty.
pub proof fn words_nonempty(s: Seq<char>)
    ensures
        forall|i: int| 0 <= i < words(s).len() ==> (#[trigger] words(s)[i]).len() > 0,
{
    finished_words_nonempty(s);
}

proof fn finished_words_nonempty(s: Seq<char>)
    ensures
        forall|i: int| 0 <= i < word_state(s).0.len() ==> (#[trigger] word_state(s).0[i]).len() > 0,
    decreases s.len(),
{
    if s.len() > 0 {
        finished_words_nonempty(s.drop_last());
        let before = word_state(s.drop_last()).0;
        let done = word_state(s).0;
        assert forall|i: int| 0 <= i < done.len() implies (#[trigger] done[i]).len() > 0 by {
            if i < before.len() {
                assert(done[i] == before[i]);
            }
        }
    }
}

/// The words of a text.
pub fn split_whitespace(s: &str) -> (v: Vec<String>)
    ensures
        texts(v@) == words(s@),
{
    let x = chars_of(s);
    let mut v: Vec<String> = Vec::new();
    let mut cur = String::new();
    let mut i: usize = 0;
    proof {
        assert(x@.subrange(0, 0) =~= Seq::<char>::empty());
        assert(texts(v@) =~= Seq::<Seq<char>>::empty());
    }
    while i < x.len()
        invariant
            x@ == s@,
            i <= x.len(),
            (texts(v@), cur@) == word_state(s@.subrange(0, i as int)),
        decreases x.len() - i,
    {
        proof {
            let done = s@.subrange(0, i + 1);
            assert(done.drop_last() =~= s@.subrange(0, i as int));
            assert(done.last() == s@[i as int]);
        }
        if !is_white(x[i]) {
            cur.push(x[i]);
        } else if !cur.as_str().is_empty() {
            let ghost old_v = v@;
            v.push(cur);
            cur = String::new();
            assert(texts(v@) =~= texts(old_v).push(v@.last()@));
        }
        i += 1;
    }
    assert(s@.subrange(0, s@.len() as int) =~= s@);
    if !cur.as_str().is_empty() {
        let ghost old_v = v@;
        let ghost last = cur@;
        v.push(cur);
        assert(texts(v@) =~= texts(old_v).push(last));
    }
    v
}

/// The same strings again.
pub fn copy_texts(v: &Vec<String>) -> (r: Vec<String>)
    ensures
        texts(r@) == texts(v@),
{
    let mut r: Vec<String> = Vec::new();
    let mut i: usize = 0;
    while i < v.len()
        invariant
            i <= v.len(),
            r@.len() == i,
            forall|j: int| 0 <= j < i ==> (#[trigger] r@[j])@ == v@[j]@,
        decreases v.len() - i,
    {
        r.push(v[i].clone());
        i += 1;
    }
    assert(texts(r@) =~= texts(v@));
    r
}

/// The texts in a row, with a separator between each two.
pub open spec fn joined(parts: Seq<Seq<char>>, sep: Seq<char>) -> Seq<char>
    decreases parts.len(),
{
    if parts.len() == 0 {
        Seq::empty()
    } else if parts.len() == 1 {
        parts[0]
    } else {
        joined(parts.drop_last(), sep) + sep + parts.last()
    }
}

/// The strings in a row, with a separator between each two.
pub fn join(parts: &Vec<String>, sep: &str) -> (s: String)
    ensures
        s@ == joined(texts(parts@), sep@),
{
    let mut s = String::new();
    let mut i: usize = 0;
    while i < parts.len()
        invariant
            i <= parts.len(),
            s@ == joined(texts(parts@).subrange(0, i as int), sep@),
        decreases parts.len() - i,
    {
        proof {
            let done = texts(parts@).subrange(0, i + 1);
            assert(done.drop_last() =~= texts(parts@).subrange(0, i as int));
            assert(done.last() == parts@[i as int]@);
        }
        if i > 0 {
            s.append(sep);
        }
        s.append(parts[i].as_str());
        proof {
            if i == 0 {
                assert(Seq::<char>::empty() + parts@[0]@ =~= parts@[0]@);
            }
        }
        i += 1;
    }
    assert(texts(parts@).subrange(0, parts@.len() as int) =~= texts(parts@));
    s
}

/// A text up to the first occurrence of a character.
pub open spec fn up_to(s: Seq<char>, c: char) -> Seq<char>
    decreases s.len(),
{
    if s.len() == 0 || s[0] == c {
        Seq::empty()
    } else {
        seq![s[0]] + up_to(s.drop_first(), c)
    }
}

/// A text up to the first occurrence of a character.
pub fn cut_at(s: &str, c: char) -> (r: String)
    ensures
        r@ == up_to(s@, c),
{
    let x = chars_of(s);
    let mut i: usize = 0;
    assert(x@.subrange(0, x@.len() as int) =~= x@);
    assert(x@.subrange(0, 0) =~= Seq::<char>::empty());
    assert(up_to(s@, c) =~= x@.subrange(0, 0) + up_to(x@.subrange(0, x@.len() as int), c));
    while i < x.len() && x[i] != c
        invariant
            x@ == s@,
            i <= x.len(),
            up_to(s@, c) == x@.subrange(0, i as int) + up_to(
                x@.subrange(i as int, x@.len() as int),
                c,
            ),
        decreases x.len() - i,
    {
        proof {
            let rest = x@.subrange(i as int, x@.len() as int);
            assert(rest.len() > 0 && rest[0] == x@[i as int]);
            assert(rest.drop_first() =~= x@.subrange(i + 1, x@.len() as int));
            assert(x@.subrange(0, i as int) + (seq![rest[0]] + up_to(rest.drop_first(), c))
                =~= x@.subrange(0, i + 1) + up_to(rest.drop_first(), c));
        }
        i += 1;
    }
    proof {
        let rest = x@.subrange(i as int, x@.len() as int);
        if i < x.len() {
            assert(rest[0] == x@[i as int]);
        }
        assert(x@.subrange(0, i as int) + Seq::<char>::empty() =~= x@.subrange(0, i as int));
    }
    string_range(x.as_slice(), 0, i)
}

/// A text without a prefix, if it has that.
pub open spec fn without_prefix(s: Seq<char>, p: Seq<char>) -> Seq<char> {
    if has_prefix(s, p) {
        s.subrange(p.len() as int, s.len() as int)
    } else {
        s
    }
}

/// A text without a prefix, if it has that.
pub fn drop_prefix(s: &str, p: &str) -> (r: String)
    ensures
        r@ == without_prefix(s@, p@),
{
    if starts_with(s, p) {
        let x = chars_of(s);
        let n: usize = chars_of(p).len();
        string_range(x.as_slice(), n, x.len())
    } else {
        s.to_owned()
    }
}

// ---------------------------------------------------------------------------
// Numbers
// ---------------------------------------------------------------------------

/// The decimal digit of a number below ten.
pub open spec fn digit_char(d: int) -> char {
    ((48 + d) as u8) as char
}

/// A number in decimal, without leading zeros.
pub open spec fn decimal(n: nat) -> Seq<char>
    decreases n,
{
    if n < 10 {
        seq![digit_char(n as int)]
    } else {
        decimal(n / 10).push(digit_char((n % 10) as int))
    }
}

/// A number in decimal, without leading zeros.
pub fn decimal_string(n: u64) -> (s: String)
    ensures
        s@ == decimal(n as nat),
{
    wide_decimal_string(n as u128)
}

/// A number in decimal, without leading zeros.
pub fn wide_decimal_string(n: u128) -> (s: String)
    ensures
        s@ == decimal(n as nat),
    decreases n,
{
    if n < 10 {
        let mut s = String::new();
        s.push((48 + n as u8) as char);
        assert(s@ =~= seq![digit_char(n as int)]);
        s
    } else {
        let mut s = wide_decimal_string(n / 10);
        s.push((48 + (n % 10) as u8) as char);
        s
    }
}

/// Whether a character is an ASCII digit.
pub open spec fn is_digit(c: char) -> bool {
    '0' <= c && c <= '9'
}

/// Whether a text is made of ASCII digits alone.
pub open spec fn all_digits(s: Seq<char>) -> bool {
    forall|i: int| 0 <= i < s.len() ==> is_digit(#[trigger] s[i])
}

/// The number that a run of digits stands for.
pub open spec fn decimal_value(s: Seq<char>) -> nat
    decreases s.len(),
{
    if s.len() == 0 {
        0
    } else {
        decimal_value(s.drop_last()) * 10 + (s.last() as u32 - 48) as nat
    }
}

/// The number that a text stands for: digits, after a plus sign at most.
pub open spec fn parsed_number(s: Seq<char>) -> Option<nat> {
    let digits = if s.len() > 0 && s[0] == '+' {
        s.subrange(1, s.len() as int)
    } else {
        s
    };
    if digits.len() > 0 && all_digits(digits) {
        Some(decimal_value(digits))
    } else {
        None
    }
}

proof fn decimal_value_grows(s: Seq<char>, i: int)
    requires
        all_digits(s),
        0 <= i <= s.len(),
    ensures
        decimal_value(s.subrange(0, i)) <= decimal_value(s),
    decreases s.len() - i,
{
    if i < s.len() {
        decimal_value_grows(s, i + 1);
        assert(s.subrange(0, i + 1).drop_last() =~= s.subrange(0, i));
    } else {
        assert(s.subrange(0, i) =~= s);
    }
}

/// The unsigned number that a text stands for, if it stands for one that fits.
pub fn parse_u64(s: &str) -> (r: Option<u64>)
    ensures
        match r {
            Some(n) => parsed_number(s@) == Some(n as nat),
            None => match parsed_number(s@) {
                Some(n) => n > u64::MAX,
                None => true,
            },
        },
{
    let x = chars_of(s);
    let from: usize = if x.len() > 0 && x[0] == '+' {
        1
    } else {
        0
    };
    let ghost digits = x@.subrange(from as int, x@.len() as int);
    assert(x@.subrange(0, x@.len() as int) =~= x@);
    if from == x.len() {
        return None;
    }
    let mut i: usize = from;
    while i < x.len()
        invariant
            from <= i <= x.len(),
            digits == x@.subrange(from as int, x@.len() as int),
            digits.len() > 0,
            parsed_number(s@) == (if all_digits(digits) {
                Some(decimal_value(digits))
            } else {
                None
            }),
            forall|j: int| from <= j < i ==> is_digit(#[trigger] x@[j]),
        decreases x.len() - i,
    {
        if x[i] < '0' || x[i] > '9' {
            assert(digits[i - from] == x@[i as int]);
            assert(!all_digits(digits));
            return None;
        }
        i += 1;
    }
    assert(all_digits(digits));
    let mut n: u64 = 0;
    i = from;
    while i < x.len()
        invariant
            from <= i <= x.len(),
            digits == x@.subrange(from as int, x@.len() as int),
            all_digits(digits),
            parsed_number(s@) == Some(decimal_value(digits)),
            n as nat == decimal_value(digits.subrange(0, i - from)),
        decreases x.len() - i,
    {
        let ghost done = digits.subrange(0, i + 1 - from);
        proof {
            assert(done.drop_last() =~= digits.subrange(0, i - from));
            assert(done.last() == x@[i as int]);
            assert(is_digit(digits[i - from]));
            decimal_value_grows(digits, i + 1 - from);
        }
        let d: u64 = (x[i] as u32 - 48) as u64;
        if n > (u64::MAX - d) / 10 {
            return None;
        }
        n = n * 10 + d;
        i += 1;
    }
    assert(digits.subrange(0, digits.len() as int) =~= digits);
    Some(n)
}

/// A text without a suffix, if it has that.
pub open spec fn without_suffix(s: Seq<char>, p: Seq<char>) -> Seq<char> {
    if has_suffix(s, p) {
        s.subrange(0, s.len() - p.len())
    } else {
        s
    }
}

/// A text without a suffix, if it has that.
pub fn drop_suffix(s: &str, p: &str) -> (r: String)
    ensures
        r@ == without_suffix(s@, p@),
{
    if ends_with(s, p) {
        let x = chars_of(s);
        let y = chars_of(p);
        string_range(x.as_slice(), 0, x.len() - y.len())
    } else {
        s.to_owned()
    }
}

/// A text with its ASCII letters in lower case.
pub fn to_ascii_lowercase(s: &str) -> (r: String)
    ensures
        r@ == ascii_lowercase(s@),
{
    let x = chars_of(s);
    let mut r = String::new();
    let mut i: usize = 0;
    while i < x.len()
        invariant
            i <= x.len(),
            x@ == s@,
            r@.len() == i,
            forall|j: int| 0 <= j < i ==> #[trigger] r@[j] == ascii_lower(s@[j]),
        decreases x.len() - i,
    {
        r.push(lower_char(x[i]));
        i += 1;
    }
    assert(r@ =~= ascii_lowercase(s@));
    r
}

/// Where a part stands last in a text, at `from` or before; -1 where nowhere.
pub open spec fn last_at(s: Seq<char>, p: Seq<char>, from: int) -> int
    decreases from + 1,
{
    if from < 0 {
        -1
    } else if occurs_at(s, p, from) {
        from
    } else {
        last_at(s, p, from - 1)
    }
}

/// Where a part stands last in a text.
pub fn rfind(s: &[char], p: &[char]) -> (r: Option<usize>)
    ensures
        match r {
            Some(i) => i + p@.len() <= s@.len() && i == last_at(s@, p@, s@.len() as int),
            None => last_at(s@, p@, s@.len() as int) == -1,
        },
{
    let mut i: usize = s.len();
    if chars_occur_at(s, p, i) {
        return Some(i);
    }
    while i > 0
        invariant
            i <= s@.len(),
            last_at(s@, p@, s@.len() as int) == last_at(s@, p@, i - 1),
        decreases i,
    {
        i -= 1;
        if chars_occur_at(s, p, i) {
            return Some(i);
        }
    }
    None
}

/// A number, or the largest that a count can hold.
pub open spec fn at_most_max(n: nat) -> nat {
    if n <= usize::MAX {
        n
    } else {
        usize::MAX as nat
    }
}

/// The number of bytes of a text.
pub open spec fn byte_len(s: Seq<char>) -> nat {
    encode_utf8(s).len()
}

} // verus!
