//! Text helpers: character-level operations specified over `Seq<char>`, and
//! byte-offset slicing of UTF-8 text specified over its bytes.
use vstd::prelude::*;
use vstd::utf8::*;
use vstd::string::*;

verus! {

/// `String::push` appends one character.
pub assume_specification[ String::push ](s: &mut String, ch: char)
    ensures
        final(s)@ == old(s)@.push(ch),
;

/// The characters of a text.
pub fn chars_of(s: &str) -> (r: Vec<char>)
    ensures
        r@ == s@,
{
    let mut r: Vec<char> = Vec::new();
    for c in it: s.chars()
        invariant
            r@ == it.seq().take(it.index() as int),
    {
        r.push(c);
    }
    r
}

/// A text made of the given characters.
pub fn string_from_chars(v: &[char]) -> (r: String)
    ensures
        r@ == v@,
{
    let mut r = String::new();
    let mut i: usize = 0;
    while i < v.len()
        invariant
            i <= v.len(),
            r@ == v@.take(i as int),
        decreases v.len() - i,
    {
        r.push(v[i]);
        assert(v@.take(i + 1) =~= v@.take(i as int).push(v@[i as int]));
        i = i + 1;
    }
    assert(v@.take(v.len() as int) =~= v@);
    r
}

/// The concatenation of two texts.
pub fn concat(a: &str, b: &str) -> (r: String)
    ensures
        r@ == a@ + b@,
{
    let mut r = String::from_str(a);
    r.append(b);
    r
}

/// Whether two texts are equal.
pub fn str_eq(a: &str, b: &str) -> (r: bool)
    ensures
        r == (a@ == b@),
{
    let x = String::from_str(a);
    let y = String::from_str(b);
    x == y
}

/// The concatenation of three texts.
pub fn concat3(a: &str, b: &str, c: &str) -> (r: String)
    ensures
        r@ == a@ + b@ + c@,
{
    let mut r = String::from_str(a);
    r.append(b);
    r.append(c);
    r
}

/// Whether `p` occurs in `s` at character position `i`.
pub open spec fn occurs_at(s: Seq<char>, p: Seq<char>, i: int) -> bool {
    0 <= i && i + p.len() <= s.len() && s.subrange(i, i + p.len()) == p
}

/// Whether `p` occurs anywhere in `s` (as `str::contains` tells).
pub open spec fn contains_spec(s: Seq<char>, p: Seq<char>) -> bool {
    exists|i: int| occurs_at(s, p, i)
}

/// Whether `s` begins with `p` (as `str::starts_with` tells).
pub open spec fn starts_with_spec(s: Seq<char>, p: Seq<char>) -> bool {
    occurs_at(s, p, 0)
}

fn occurs_at_exec(s: &Vec<char>, p: &Vec<char>, i: usize) -> (r: bool)
    ensures
        r == occurs_at(s@, p@, i as int),
{
    if i > s.len() || p.len() > s.len() - i {
        return false;
    }
    let mut j: usize = 0;
    while j < p.len()
        invariant
            j <= p.len(),
            i + p.len() <= s.len(),
            forall|k: int| 0 <= k < j ==> s@[i + k] == p@[k],
        decreases p.len() - j,
    {
        if s[i + j] != p[j] {
            assert(s@.subrange(i as int, i + p.len())[j as int] != p@[j as int]);
            return false;
        }
        j = j + 1;
    }
    assert(s@.subrange(i as int, i + p.len()) =~= p@);
    true
}

/// Whether `p` occurs in `s`.
pub fn contains(s: &str, p: &str) -> (r: bool)
    ensures
        r == contains_spec(s@, p@),
{
    let sc = chars_of(s);
    let pc = chars_of(p);
    if pc.len() > sc.len() {
        assert forall|i: int| !occurs_at(s@, p@, i) by {}
        return false;
    }
    let n: usize = sc.len() - pc.len();
    let mut i: usize = 0;
    loop
        invariant
            pc.len() <= sc.len(),
            n == sc.len() - pc.len(),
            i <= n,
            sc@ == s@,
            pc@ == p@,
            forall|k: int| 0 <= k < i ==> !occurs_at(s@, p@, k),
        ensures
            forall|k: int| 0 <= k <= n ==> !occurs_at(s@, p@, k),
        decreases n - i,
    {
        if occurs_at_exec(&sc, &pc, i) {
            return true;
        }
        if i == n {
            break;
        }
        i = i + 1;
    }
    assert forall|k: int| !occurs_at(s@, p@, k) by {
        if 0 <= k <= n {
        }
    }
    false
}

/// Whether `s` begins with `p`.
pub fn starts_with(s: &str, p: &str) -> (r: bool)
    ensures
        r == starts_with_spec(s@, p@),
{
    let sc = chars_of(s);
    let pc = chars_of(p);
    occurs_at_exec(&sc, &pc, 0)
}

/// The text with every non-overlapping occurrence of `from`, taken from
/// left to right, replaced by `to` (as `str::replace` does).
pub open spec fn replace_spec(s: Seq<char>, from: Seq<char>, to: Seq<char>) -> Seq<char>
    decreases s.len(),
{
    if from.len() == 0 || s.len() == 0 {
        s
    } else if occurs_at(s, from, 0) {
        to + replace_spec(s.subrange(from.len() as int, s.len() as int), from, to)
    } else {
        seq![s[0]] + replace_spec(s.drop_first(), from, to)
    }
}

/// Replaces every occurrence of `from` in `s` by `to`.
pub fn replace(s: &str, from: &str, to: &str) -> (r: String)
    requires
        from@.len() > 0,
    ensures
        r@ == replace_spec(s@, from@, to@),
{
    let sc = chars_of(s);
    let fc = chars_of(from);
    let tc = chars_of(to);
    let mut out: Vec<char> = Vec::new();
    let mut i: usize = 0;
    assert(sc@.subrange(0, sc@.len() as int) =~= sc@);
    assert(out@ + sc@ =~= sc@);
    while i < sc.len()
        invariant
            i <= sc.len(),
            sc@ == s@,
            fc@ == from@,
            tc@ == to@,
            fc@.len() > 0,
            out@ + replace_spec(sc@.subrange(i as int, sc@.len() as int), fc@, tc@) == replace_spec(
                s@,
                from@,
                to@,
            ),
        decreases sc.len() - i,
    {
        let ghost rest = sc@.subrange(i as int, sc@.len() as int);
        let ghost old_out = out@;
        if occurs_at_exec(&sc, &fc, i) {
            assert(rest.subrange(0, fc@.len() as int) =~= sc@.subrange(i as int, i + fc@.len()));
            assert(rest.subrange(fc@.len() as int, rest.len() as int) =~= sc@.subrange(
                i + fc@.len(),
                sc@.len() as int,
            ));
            let mut k: usize = 0;
            while k < tc.len()
                invariant
                    k <= tc.len(),
                    out@ == old_out + tc@.take(k as int),
                decreases tc.len() - k,
            {
                out.push(tc[k]);
                assert(tc@.take(k + 1) =~= tc@.take(k as int).push(tc@[k as int]));
                k = k + 1;
            }
            assert(tc@.take(tc.len() as int) =~= tc@);
            assert(out@ + replace_spec(
                sc@.subrange(i + fc@.len(), sc@.len() as int),
                fc@,
                tc@,
            ) =~= old_out + replace_spec(rest, fc@, tc@));
            i = i + fc.len();
        } else {
            assert(!occurs_at(rest, fc@, 0)) by {
                if occurs_at(rest, fc@, 0) {
                    assert(rest.subrange(0, fc@.len() as int) =~= sc@.subrange(
                        i as int,
                        i + fc@.len(),
                    ));
                }
            }
            out.push(sc[i]);
            assert(rest.drop_first() =~= sc@.subrange(i + 1, sc@.len() as int));
            assert(out@ + replace_spec(sc@.subrange(i + 1, sc@.len() as int), fc@, tc@)
                =~= old_out + replace_spec(rest, fc@, tc@));
            i = i + 1;
        }
    }
    assert(sc@.subrange(i as int, sc@.len() as int) =~= Seq::<char>::empty());
    assert(out@ =~= out@ + Seq::<char>::empty());
    string_from_chars(out.as_slice())
}

/// The pieces of a text between line breaks, as `str::split("\n")` gives
/// them: always at least one, empty pieces included.
pub open spec fn lines_spec(s: Seq<char>) -> Seq<Seq<char>>
    decreases s.len(),
{
    if s.len() == 0 {
        seq![Seq::empty()]
    } else {
        let p = lines_spec(s.drop_last());
        if s.last() == '\n' {
            p.push(Seq::empty())
        } else {
            p.update(p.len() - 1, p[p.len() - 1].push(s.last()))
        }
    }
}

pub proof fn lemma_lines_len(s: Seq<char>)
    ensures
        lines_spec(s).len() >= 1,
    decreases s.len(),
{
    if s.len() > 0 {
        lemma_lines_len(s.drop_last());
    }
}

/// Splits a text at its line breaks.
pub fn split_lines(s: &str) -> (r: Vec<String>)
    ensures
        r@.map_values(|x: String| x@) == lines_spec(s@),
{
    let sc = chars_of(s);
    let mut lines: Vec<String> = Vec::new();
    let mut cur = String::new();
    let mut i: usize = 0;
    assert(sc@.subrange(0, 0) =~= Seq::<char>::empty());
    assert(lines@.map_values(|x: String| x@).push(cur@) =~= lines_spec(Seq::empty()));
    while i < sc.len()
        invariant
            i <= sc.len(),
            sc@ == s@,
            lines@.map_values(|x: String| x@).push(cur@) == lines_spec(sc@.subrange(0, i as int)),
        decreases sc.len() - i,
    {
        let ghost before = lines@.map_values(|x: String| x@).push(cur@);
        let c = sc[i];
        assert(sc@.subrange(0, i + 1).drop_last() =~= sc@.subrange(0, i as int));
        assert(sc@.subrange(0, i + 1).last() == c);
        proof {
            lemma_lines_len(sc@.subrange(0, i as int));
        }
        if c == '\n' {
            let done = cur;
            lines.push(done);
            cur = String::new();
            assert(lines@.map_values(|x: String| x@).push(cur@) =~= before.push(Seq::empty()));
        } else {
            let ghost l0 = lines@.map_values(|x: String| x@);
            cur.push(c);
            assert(lines@.map_values(|x: String| x@).push(cur@) =~= before.update(
                before.len() - 1,
                before[before.len() - 1].push(c),
            ));
        }
        i = i + 1;
    }
    assert(sc@.subrange(0, i as int) =~= sc@);
    lines.push(cur);
    lines
}

/// The pieces joined with `sep` between them, as `[..].join(sep)` does.
pub open spec fn join_spec(parts: Seq<Seq<char>>, sep: Seq<char>) -> Seq<char>
    decreases parts.len(),
{
    if parts.len() == 0 {
        Seq::empty()
    } else if parts.len() == 1 {
        parts[0]
    } else {
        join_spec(parts.drop_last(), sep) + sep + parts.last()
    }
}

/// Joins texts with `sep` between them.
pub fn join(parts: &Vec<String>, sep: &str) -> (r: String)
    ensures
        r@ == join_spec(parts@.map_values(|x: String| x@), sep@),
{
    let ghost v = parts@.map_values(|x: String| x@);
    let mut out = String::new();
    let mut i: usize = 0;
    while i < parts.len()
        invariant
            i <= parts.len(),
            v == parts@.map_values(|x: String| x@),
            out@ == join_spec(v.subrange(0, i as int), sep@),
        decreases parts.len() - i,
    {
        assert(v.subrange(0, i + 1).drop_last() =~= v.subrange(0, i as int));
        if i > 0 {
            out.append(sep);
        }
        out.append(parts[i].as_str());
        assert(v[i as int] == parts@[i as int]@);
        if i == 0 {
            assert(out@ =~= v.subrange(0, 1)[0]);
        }
        i = i + 1;
    }
    assert(v.subrange(0, i as int) =~= v);
    out
}

/// The pieces that are not empty, in order.
pub open spec fn nonempty_only(parts: Seq<Seq<char>>) -> Seq<Seq<char>>
    decreases parts.len(),
{
    if parts.len() == 0 {
        Seq::empty()
    } else if parts.last().len() > 0 {
        nonempty_only(parts.drop_last()).push(parts.last())
    } else {
        nonempty_only(parts.drop_last())
    }
}

/// The texts that are not empty, in order.
pub fn keep_nonempty(parts: &Vec<String>) -> (r: Vec<String>)
    ensures
        r@.map_values(|x: String| x@) == nonempty_only(parts@.map_values(|x: String| x@)),
{
    let ghost v = parts@.map_values(|x: String| x@);
    let mut out: Vec<String> = Vec::new();
    let mut i: usize = 0;
    while i < parts.len()
        invariant
            i <= parts.len(),
            v == parts@.map_values(|x: String| x@),
            out@.map_values(|x: String| x@) == nonempty_only(v.subrange(0, i as int)),
        decreases parts.len() - i,
    {
        assert(v.subrange(0, i + 1).drop_last() =~= v.subrange(0, i as int));
        assert(v[i as int] == parts@[i as int]@);
        if parts[i].as_str().unicode_len() > 0 {
            let ghost before = out@.map_values(|x: String| x@);
            out.push(parts[i].clone());
            assert(out@.map_values(|x: String| x@) =~= before.push(v[i as int]));
        }
        i = i + 1;
    }
    assert(v.subrange(0, i as int) =~= v);
    out
}

/// Whether `w` occurs in `s` at `i` as a whole word: bounded by white
/// space or the ends of the text.
pub open spec fn word_at(s: Seq<char>, w: Seq<char>, i: int) -> bool {
    &&& occurs_at(s, w, i)
    &&& (i == 0 || is_space(s[i - 1]))
    &&& (i + w.len() == s.len() || is_space(s[i + w.len()]))
}

/// Whether `w` is one of the words of `s`, as
/// `s.split_whitespace().any(|e| e == w)` tells: words are the maximal
/// runs of characters other than white space.
pub open spec fn has_word_spec(s: Seq<char>, w: Seq<char>) -> bool {
    &&& w.len() > 0
    &&& forall|k: int| 0 <= k < w.len() ==> !is_space(#[trigger] w[k])
    &&& exists|i: int| word_at(s, w, i)
}

/// Whether `w` is one of the white-space separated words of `s`.
pub fn has_word(s: &str, w: &str) -> (r: bool)
    ensures
        r == has_word_spec(s@, w@),
{
    let sc = chars_of(s);
    let wc = chars_of(w);
    if wc.len() == 0 {
        return false;
    }
    let mut k: usize = 0;
    while k < wc.len()
        invariant
            k <= wc.len(),
            wc@ == w@,
            forall|j: int| 0 <= j < k ==> !is_space(#[trigger] w@[j]),
        decreases wc.len() - k,
    {
        if is_space_exec(wc[k]) {
            return false;
        }
        k = k + 1;
    }
    if wc.len() > sc.len() {
        assert forall|i: int| !word_at(s@, w@, i) by {}
        return false;
    }
    let n: usize = sc.len() - wc.len();
    let mut i: usize = 0;
    loop
        invariant
            wc.len() <= sc.len(),
            n == sc.len() - wc.len(),
            i <= n,
            sc@ == s@,
            wc@ == w@,
            wc.len() > 0,
            forall|j: int| 0 <= j < w@.len() ==> !is_space(#[trigger] w@[j]),
            forall|j: int| 0 <= j < i ==> !word_at(s@, w@, j),
        ensures
            forall|j: int| 0 <= j <= n ==> !word_at(s@, w@, j),
        decreases n - i,
    {
        let left = i == 0 || is_space_exec(sc[i - 1]);
        let right = i + wc.len() == sc.len() || is_space_exec(sc[i + wc.len()]);
        if left && right && occurs_at_exec(&sc, &wc, i) {
            assert(word_at(s@, w@, i as int));
            return true;
        }
        if i == n {
            break;
        }
        i = i + 1;
    }
    assert forall|j: int| !word_at(s@, w@, j) by {
        if 0 <= j <= n {
        }
    }
    false
}

/// Whether a character is white space in Unicode (as `char::is_whitespace` tells).
pub open spec fn is_space(c: char) -> bool {
    ||| ('\u{9}' <= c <= '\u{d}')
    ||| c == ' '
    ||| c == '\u{85}'
    ||| c == '\u{a0}'
    ||| c == '\u{1680}'
    ||| ('\u{2000}' <= c <= '\u{200a}')
    ||| c == '\u{2028}'
    ||| c == '\u{2029}'
    ||| c == '\u{202f}'
    ||| c == '\u{205f}'
    ||| c == '\u{3000}'
}

fn is_space_exec(c: char) -> (r: bool)
    ensures
        r == is_space(c),
{
    ('\u{9}' <= c && c <= '\u{d}') || c == ' ' || c == '\u{85}' || c == '\u{a0}' || c == '\u{1680}'
        || ('\u{2000}' <= c && c <= '\u{200a}') || c == '\u{2028}' || c == '\u{2029}' || c
        == '\u{202f}' || c == '\u{205f}' || c == '\u{3000}'
}

/// The text without its leading white space.
pub open spec fn trim_start_spec(s: Seq<char>) -> Seq<char>
    decreases s.len(),
{
    if s.len() > 0 && is_space(s[0]) {
        trim_start_spec(s.drop_first())
    } else {
        s
    }
}

/// The text without its trailing white space.
pub open spec fn trim_end_spec(s: Seq<char>) -> Seq<char>
    decreases s.len(),
{
    if s.len() > 0 && is_space(s.last()) {
        trim_end_spec(s.drop_last())
    } else {
        s
    }
}

/// The text without leading and trailing white space (as `str::trim` gives).
pub open spec fn trim_spec(s: Seq<char>) -> Seq<char> {
    trim_end_spec(trim_start_spec(s))
}

/// The text without leading and trailing white space.
pub fn trim(s: &str) -> (r: String)
    ensures
        r@ == trim_spec(s@),
{
    let sc = chars_of(s);
    let mut a: usize = 0;
    assert(sc@.subrange(0, sc@.len() as int) =~= sc@);
    while a < sc.len() && is_space_exec(sc[a])
        invariant
            a <= sc.len(),
            sc@ == s@,
            trim_start_spec(s@) == trim_start_spec(sc@.subrange(a as int, sc@.len() as int)),
        decreases sc.len() - a,
    {
        assert(sc@.subrange(a as int, sc@.len() as int).drop_first() =~= sc@.subrange(
            a + 1,
            sc@.len() as int,
        ));
        a = a + 1;
    }
    let ghost st = sc@.subrange(a as int, sc@.len() as int);
    assert(trim_start_spec(s@) == st);
    let mut b: usize = sc.len();
    while b > a && is_space_exec(sc[b - 1])
        invariant
            a <= b <= sc.len(),
            sc@ == s@,
            st == sc@.subrange(a as int, sc@.len() as int),
            trim_end_spec(st) == trim_end_spec(sc@.subrange(a as int, b as int)),
        decreases b,
    {
        assert(sc@.subrange(a as int, b as int).drop_last() =~= sc@.subrange(
            a as int,
            b - 1,
        ));
        b = b - 1;
    }
    let mut out: Vec<char> = Vec::new();
    let mut i: usize = a;
    while i < b
        invariant
            a <= i <= b <= sc.len(),
            out@ == sc@.subrange(a as int, i as int),
        decreases b - i,
    {
        out.push(sc[i]);
        assert(sc@.subrange(a as int, i + 1) =~= sc@.subrange(a as int, i as int).push(
            sc@[i as int],
        ));
        i = i + 1;
    }
    string_from_chars(out.as_slice())
}

/// Whether a character is an ASCII decimal digit.
pub open spec fn is_digit(c: char) -> bool {
    '0' <= c <= '9'
}

/// The value of a run of decimal digits.
pub open spec fn digits_value(d: Seq<char>) -> nat
    decreases d.len(),
{
    if d.len() == 0 {
        0
    } else {
        digits_value(d.drop_last()) * 10 + (d.last() as nat - '0' as nat) as nat
    }
}

/// The digits part of a number text: without one leading `+`.
pub open spec fn digits_part(s: Seq<char>) -> Seq<char> {
    if s.len() > 0 && s[0] == '+' {
        s.drop_first()
    } else {
        s
    }
}

/// Whether every character is an ASCII digit.
pub open spec fn all_digits(d: Seq<char>) -> bool {
    forall|i: int| 0 <= i < d.len() ==> is_digit(#[trigger] d[i])
}

/// What `u32::from_str_radix(s, 10)` gives: an optional `+` and then one or
/// more ASCII digits whose value fits in a `u32`.
pub open spec fn parse_u32_spec(s: Seq<char>) -> Option<u32> {
    let d = digits_part(s);
    if d.len() == 0 || !all_digits(d) || digits_value(d) > u32::MAX {
        None
    } else {
        Some(digits_value(d) as u32)
    }
}

/// Parses a decimal `u32` as `u32::from_str_radix(s, 10)` does.
pub fn parse_u32(s: &str) -> (r: Option<u32>)
    ensures
        r == parse_u32_spec(s@),
{
    let sc = chars_of(s);
    let start: usize = if sc.len() > 0 && sc[0] == '+' {
        1
    } else {
        0
    };
    let ghost d = digits_part(s@);
    assert(d =~= sc@.subrange(start as int, sc@.len() as int));
    if start == sc.len() {
        return None;
    }
    let mut v: u64 = 0;
    let mut over = false;
    let mut i: usize = start;
    while i < sc.len()
        invariant
            start <= i <= sc.len(),
            sc@ == s@,
            d == digits_part(s@),
            d == sc@.subrange(start as int, sc@.len() as int),
            forall|k: int| 0 <= k < i - start ==> is_digit(#[trigger] d[k]),
            !over ==> v == digits_value(d.take(i - start)) && v <= u32::MAX,
            over ==> digits_value(d.take(i - start)) > u32::MAX,
        decreases sc.len() - i,
    {
        let c = sc[i];
        if c < '0' || c > '9' {
            assert(!is_digit(d[i - start]));
            return None;
        }
        let dig: u64 = (c as u32 - '0' as u32) as u64;
        assert(d.take(i - start + 1).drop_last() =~= d.take(i - start));
        assert(d.take(i - start + 1).last() == c);
        if !over {
            let nv = v * 10 + dig;
            if nv > 0xffff_ffffu64 {
                over = true;
            } else {
                v = nv;
            }
        }
        i = i + 1;
    }
    assert(d.take(d.len() as int) =~= d);
    if over {
        None
    } else {
        Some(v as u32)
    }
}

/// The character of a decimal digit.
pub open spec fn digit_char(d: nat) -> char {
    ((d + 48) as u8) as char
}

/// The decimal text of a number.
pub open spec fn dec_spec(n: nat) -> Seq<char>
    decreases n,
{
    if n < 10 {
        seq![digit_char(n)]
    } else {
        dec_spec(n / 10).push(digit_char(n % 10))
    }
}

/// A decimal digit's character is the digit.
pub proof fn lemma_digit_char(d: nat)
    requires
        d < 10,
    ensures
        digit_char(d) as nat == d + 48,
{
    assert(((d + 48) as u8) as nat == d + 48);
}

/// The decimal text of a number reads back as the number.
pub proof fn lemma_dec_value(n: nat)
    ensures
        digits_value(dec_spec(n)) == n,
    decreases n,
{
    assert('0' as nat == 48);
    if n < 10 {
        lemma_digit_char(n);
        assert(dec_spec(n).drop_last() =~= Seq::<char>::empty());
        assert(dec_spec(n).last() == digit_char(n));
        assert(digits_value(dec_spec(n)) == digits_value(Seq::<char>::empty()) * 10 + (digit_char(n) as nat - '0' as nat) as nat);
    } else {
        lemma_dec_value(n / 10);
        lemma_digit_char(n % 10);
        assert(dec_spec(n).drop_last() =~= dec_spec(n / 10));
        assert(dec_spec(n).last() == digit_char(n % 10));
        vstd::arithmetic::div_mod::lemma_fundamental_div_mod(n as int, 10);
        assert(digits_value(dec_spec(n)) == digits_value(dec_spec(n / 10)) * 10 + (digit_char(n % 10) as nat - '0' as nat) as nat);
    }
}

/// Different numbers have different decimal texts, and only 0 is `0`.
pub proof fn lemma_dec_injective(a: nat, b: nat)
    ensures
        dec_spec(a) == dec_spec(b) ==> a == b,
        dec_spec(0) == "0"@,
{
    lemma_dec_value(a);
    lemma_dec_value(b);
    reveal_strlit("0");
    lemma_digit_char(0);
    assert(dec_spec(0) =~= "0"@);
}

/// The decimal text of a number, as its `to_string` gives.
pub fn u32_to_string(n: u32) -> (r: String)
    ensures
        r@ == dec_spec(n as nat),
    decreases n,
{
    let d: u8 = (n % 10) as u8;
    let c: char = (d + 48u8) as char;
    if n < 10 {
        let mut s = String::new();
        s.push(c);
        assert(s@ =~= seq![digit_char(n as nat)]);
        s
    } else {
        let mut s = u32_to_string(n / 10);
        s.push(c);
        s
    }
}

/// The decimal text of a 64-bit number, as its `to_string` gives.
pub fn u64_to_string(n: u64) -> (r: String)
    ensures
        r@ == dec_spec(n as nat),
    decreases n,
{
    let d: u8 = (n % 10) as u8;
    let c: char = (d + 48u8) as char;
    if n < 10 {
        let mut s = String::new();
        s.push(c);
        assert(s@ =~= seq![digit_char(n as nat)]);
        s
    } else {
        let mut s = u64_to_string(n / 10);
        s.push(c);
        s
    }
}

/// The decimal text of a length, as its `to_string` gives.
pub fn usize_to_string(n: usize) -> (r: String)
    ensures
        r@ == dec_spec(n as nat),
    decreases n,
{
    let d: u8 = (n % 10) as u8;
    let c: char = (d + 48u8) as char;
    if n < 10 {
        let mut s = String::new();
        s.push(c);
        assert(s@ =~= seq![digit_char(n as nat)]);
        s
    } else {
        let mut s = usize_to_string(n / 10);
        s.push(c);
        s
    }
}

/// The UTF-8 bytes of a text.
pub open spec fn bytes_of(s: Seq<char>) -> Seq<u8> {
    encode_utf8(s)
}

/// The UTF-8 encoding of a concatenation is the concatenation of the encodings.
pub proof fn lemma_encode_concat(a: Seq<char>, b: Seq<char>)
    ensures
        encode_utf8(a + b) == encode_utf8(a) + encode_utf8(b),
    decreases a.len(),
{
    if a.len() == 0 {
        assert(a + b =~= b);
        assert(encode_utf8(a) + encode_utf8(b) =~= encode_utf8(b));
    } else {
        lemma_encode_concat(a.drop_first(), b);
        assert((a + b).drop_first() =~= a.drop_first() + b);
        assert(encode_utf8(a + b) =~= encode_utf8(a) + encode_utf8(b));
    }
}

/// Character boundaries of a suffix that starts at a boundary are the
/// boundaries of the whole, moved by the suffix's start.
pub proof fn lemma_boundary_suffix(bytes: Seq<u8>, a: int, i: int)
    requires
        valid_utf8(bytes),
        0 <= a <= bytes.len(),
        is_char_boundary(bytes, a),
        0 <= i <= bytes.len() - a,
    ensures
        valid_utf8(bytes.subrange(a, bytes.len() as int)),
        is_char_boundary(bytes.subrange(a, bytes.len() as int), i) <==> is_char_boundary(
            bytes,
            a + i,
        ),
{
    let rest = bytes.subrange(a, bytes.len() as int);
    valid_utf8_split(bytes, a);
    if i == 0 {
    } else if a + i == bytes.len() {
        is_char_boundary_start_end_of_seq(bytes);
        is_char_boundary_start_end_of_seq(rest);
    } else {
        is_char_boundary_iff_not_is_continuation_byte(bytes, a + i);
        is_char_boundary_iff_not_is_continuation_byte(rest, i);
    }
}

/// The bytes of a text are valid UTF-8 that decodes back to the text.
pub proof fn lemma_bytes_valid(s: Seq<char>)
    ensures
        valid_utf8(encode_utf8(s)),
        decode_utf8(encode_utf8(s)) == s,
{
    encode_utf8_valid_utf8(s);
    encode_utf8_decode_utf8(s);
}

/// The part of a text between two byte offsets that fall on character
/// boundaries (as `&s[a..b]` gives).
pub fn substr(s: &str, a: usize, b: usize) -> (r: &str)
    requires
        a <= b <= s.spec_bytes().len(),
        is_char_boundary(s.spec_bytes(), a as int),
        is_char_boundary(s.spec_bytes(), b as int),
    ensures
        r.spec_bytes() == s.spec_bytes().subrange(a as int, b as int),
{
    let ghost bytes = s.spec_bytes();
    proof {
        lemma_bytes_valid(s@);
        lemma_boundary_suffix(bytes, a as int, (b - a) as int);
    }
    let (_, rest) = s.split_at(a);
    let (mid, _) = rest.split_at(b - a);
    assert(mid.spec_bytes() =~= bytes.subrange(a as int, b as int));
    mid
}

/// The part of a text from a byte offset on a character boundary to its end.
pub fn suffix(s: &str, a: usize) -> (r: &str)
    requires
        a <= s.spec_bytes().len(),
        is_char_boundary(s.spec_bytes(), a as int),
    ensures
        r.spec_bytes() == s.spec_bytes().subrange(a as int, s.spec_bytes().len() as int),
{
    let (_, rest) = s.split_at(a);
    rest
}

/// The text that some bytes encode, when they are valid UTF-8.
///
/// Claims of `String::from_utf8`: it succeeds exactly on valid UTF-8, and the
/// text it gives is what the bytes encode.
#[verifier::external_body]
pub fn from_utf8(bytes: &[u8]) -> (r: Option<String>)
    ensures
        r is Some <==> valid_utf8(bytes@),
        r matches Some(t) ==> t@ == decode_utf8(bytes@),
{
    String::from_utf8(bytes.to_vec()).ok()
}

/// What `String::from_utf8_lossy` makes of some bytes.
pub uninterp spec fn utf8_lossy_spec(bytes: Seq<u8>) -> Seq<char>;

/// The text that some bytes encode, with U+FFFD in place of invalid sequences.
///
/// Claims of `String::from_utf8_lossy`: its text is a function of the bytes,
/// named `utf8_lossy_spec`, and valid UTF-8 comes out as the text it encodes.
#[verifier::external_body]
pub fn from_utf8_lossy(bytes: &[u8]) -> (r: String)
    ensures
        r@ == utf8_lossy_spec(bytes@),
        valid_utf8(bytes@) ==> r@ == decode_utf8(bytes@),
{
    String::from_utf8_lossy(bytes).into_owned()
}

/// The UTF-8 bytes of a text.
pub fn to_bytes(s: &str) -> (r: Vec<u8>)
    ensures
        r@ == s.spec_bytes(),
{
    s.as_bytes_vec()
}

} // verus!
