use vstd::prelude::*;

verus! {

/// Unicode `White_Space` property, as used by `char::is_whitespace`.
pub open spec fn is_space(c: char) -> bool {
    ||| ('\u{9}' <= c && c <= '\u{d}')
    ||| c == ' '
    ||| c == '\u{85}'
    ||| c == '\u{a0}'
    ||| c == '\u{1680}'
    ||| ('\u{2000}' <= c && c <= '\u{200a}')
    ||| c == '\u{2028}'
    ||| c == '\u{2029}'
    ||| c == '\u{202f}'
    ||| c == '\u{205f}'
    ||| c == '\u{3000}'
}

/// Executable counterpart of [`is_space`].
pub fn char_is_space(c: char) -> (b: bool)
    ensures
        b == is_space(c),
{
    ('\u{9}' <= c && c <= '\u{d}') || c == ' ' || c == '\u{85}' || c == '\u{a0}' || c == '\u{1680}'
        || ('\u{2000}' <= c && c <= '\u{200a}') || c == '\u{2028}' || c == '\u{2029}' || c
        == '\u{202f}' || c == '\u{205f}' || c == '\u{3000}'
}

/// Appends one character to a string (`String::push`).
#[verifier::external_body]
fn push_char(s: &mut String, c: char)
    ensures
        final(s)@ == old(s)@.push(c),
{
    s.push(c);
}

/// The characters of a string slice, in order.
pub fn chars_of(s: &str) -> (v: Vec<char>)
    ensures
        v@ == s@,
{
    let mut v: Vec<char> = Vec::new();
    for c in it: s.chars()
        invariant
            v@ == it.seq().take(it.index() as int),
            it.seq() == s@,
    {
        v.push(c);
    }
    v
}

/// Builds a string from characters.
pub fn string_of(v: &Vec<char>) -> (s: String)
    ensures
        s@ == v@,
{
    let mut s = String::new();
    let mut i: usize = 0;
    while i < v.len()
        invariant
            i <= v.len(),
            s@ == v@.take(i as int),
        decreases v.len() - i,
    {
        push_char(&mut s, v[i]);
        assert(v@.take(i as int).push(v@[i as int]) =~= v@.take(i + 1));
        i = i + 1;
    }
    assert(v@.take(v.len() as int) =~= v@);
    s
}


/// The replacement text for one character when escaping MiniMessage markup.
pub open spec fn escape_char(c: char) -> Seq<char> {
    if c == '&' {
        seq!['&', 'a', 'm', 'p', ';']
    } else if c == '<' {
        seq!['&', 'l', 't', ';']
    } else if c == '>' {
        seq!['&', 'g', 't', ';']
    } else {
        seq![c]
    }
}

/// `s` with `&`, `<` and `>` replaced by their entities, so that user text
/// is shown verbatim instead of being read as MiniMessage tags.
pub open spec fn escape_markup(s: Seq<char>) -> Seq<char>
    decreases s.len(),
{
    if s.len() == 0 {
        seq![]
    } else {
        escape_markup(s.drop_last()) + escape_char(s.last())
    }
}

/// Escaped text never holds a tag delimiter.
pub proof fn lemma_escape_has_no_tag_delimiters(s: Seq<char>)
    ensures
        forall|k: int|
            0 <= k < escape_markup(s).len() ==> #[trigger] escape_markup(s)[k] != '<'
                && escape_markup(s)[k] != '>',
    decreases s.len(),
{
    if s.len() > 0 {
        lemma_escape_has_no_tag_delimiters(s.drop_last());
        let a = escape_markup(s.drop_last());
        let b = escape_char(s.last());
        assert forall|k: int| 0 <= k < escape_markup(s).len() implies #[trigger] escape_markup(
            s,
        )[k] != '<' && escape_markup(s)[k] != '>' by {
            if k < a.len() {
                assert(escape_markup(s)[k] == a[k]);
            } else {
                assert(escape_markup(s)[k] == b[k - a.len()]);
            }
        }
    }
}

/// Number of occurrences of `c` in `s`.
pub open spec fn count_char(s: Seq<char>, c: char) -> nat
    decreases s.len(),
{
    if s.len() == 0 {
        0
    } else {
        count_char(s.drop_last(), c) + if s.last() == c { 1nat } else { 0nat }
    }
}

/// Law (escaping): escaping text piece by piece gives the escape of the
/// whole; text without `&`, `<` and `>` is left as it is; each `&` grows
/// the text by four characters and each `<` or `>` by three.
pub proof fn lemma_escape_laws(a: Seq<char>, b: Seq<char>)
    ensures
        escape_markup(a + b) == escape_markup(a) + escape_markup(b),
        (forall|i: int| 0 <= i < a.len() ==> #[trigger] a[i] != '&' && a[i] != '<' && a[i] != '>')
            ==> escape_markup(a) == a,
        escape_markup(a).len() == a.len() + 4 * count_char(a, '&') + 3 * (count_char(a, '<') + count_char(a, '>')),
    decreases a.len() + b.len(),
{
    if b.len() == 0 {
        assert(a + b =~= a);
        assert(escape_markup(a) + escape_markup(b) =~= escape_markup(a));
    } else {
        lemma_escape_laws(a, b.drop_last());
        assert((a + b).drop_last() =~= a + b.drop_last());
        assert((a + b).last() == b.last());
        assert(escape_markup(a + b) =~= escape_markup(a) + escape_markup(b));
    }
    if a.len() > 0 {
        lemma_escape_laws(a.drop_last(), seq![]);
        if forall|i: int| 0 <= i < a.len() ==> #[trigger] a[i] != '&' && a[i] != '<' && a[i] != '>' {
            assert forall|i: int| 0 <= i < a.drop_last().len() implies #[trigger] a.drop_last()[i] != '&'
                && a.drop_last()[i] != '<' && a.drop_last()[i] != '>' by {
                assert(a.drop_last()[i] == a[i]);
            }
            assert(a[a.len() - 1] == a.last());
            assert(escape_markup(a) =~= a.drop_last().push(a.last()));
            assert(a.drop_last().push(a.last()) =~= a);
        }
    } else {
        assert(escape_markup(a) =~= a);
    }
}

/// Escapes MiniMessage markup in user text (`&` first, then `<` and `>`).
pub fn escape_minimessage_text(input: &str) -> (out: String)
    ensures
        out@ == escape_markup(input@),
{
    let chars = chars_of(input);
    let mut out = String::new();
    let mut i: usize = 0;
    while i < chars.len()
        invariant
            i <= chars.len(),
            chars@ == input@,
            out@ == escape_markup(chars@.take(i as int)),
        decreases chars.len() - i,
    {
        let c = chars[i];
        assert(chars@.take(i + 1).drop_last() =~= chars@.take(i as int));
        if c == '&' {
            push_char(&mut out, '&');
            push_char(&mut out, 'a');
            push_char(&mut out, 'm');
            push_char(&mut out, 'p');
            push_char(&mut out, ';');
        } else if c == '<' {
            push_char(&mut out, '&');
            push_char(&mut out, 'l');
            push_char(&mut out, 't');
            push_char(&mut out, ';');
        } else if c == '>' {
            push_char(&mut out, '&');
            push_char(&mut out, 'g');
            push_char(&mut out, 't');
            push_char(&mut out, ';');
        } else {
            push_char(&mut out, c);
        }
        assert(out@ =~= escape_markup(chars@.take(i + 1)));
        i = i + 1;
    }
    assert(chars@.take(chars.len() as int) =~= chars@);
    out
}

/// Non-overlapping, left-to-right replacement of every `pat` in `s` by `rep`
/// (`str::replace` with a non-empty pattern).
pub open spec fn replace_all(s: Seq<char>, pat: Seq<char>, rep: Seq<char>) -> Seq<char>
    decreases s.len(),
{
    if pat.len() == 0 || s.len() < pat.len() {
        s
    } else if s.take(pat.len() as int) == pat {
        rep + replace_all(s.skip(pat.len() as int), pat, rep)
    } else {
        seq![s[0]] + replace_all(s.skip(1), pat, rep)
    }
}

/// `true` when `pat` occurs in `s` at position `at`.
fn matches_at(s: &Vec<char>, at: usize, pat: &Vec<char>) -> (b: bool)
    requires
        at + pat.len() <= s.len(),
    ensures
        b == (s@.subrange(at as int, at + pat.len()) == pat@),
{
    let mut k: usize = 0;
    while k < pat.len()
        invariant
            k <= pat.len(),
            at + pat.len() <= s.len(),
            forall|j: int| 0 <= j < k ==> s@[at + j] == pat@[j],
        decreases pat.len() - k,
    {
        if s[at + k] != pat[k] {
            assert(s@.subrange(at as int, at + pat.len())[k as int] != pat@[k as int]);
            return false;
        }
        k = k + 1;
    }
    assert(s@.subrange(at as int, at + pat.len()) =~= pat@);
    true
}

/// Whether `c` occurs nowhere in `s`.
pub open spec fn lacks(s: Seq<char>, c: char) -> bool {
    forall|i: int| 0 <= i < s.len() ==> #[trigger] s[i] != c
}

/// Text that lacks the pattern's first character is left as it is.
pub(crate) proof fn lemma_replace_absent(s: Seq<char>, pat: Seq<char>, rep: Seq<char>)
    requires
        pat.len() > 0,
        lacks(s, pat[0]),
    ensures
        replace_all(s, pat, rep) == s,
    decreases s.len(),
{
    if s.len() >= pat.len() {
        assert(s.take(pat.len() as int)[0] != pat[0]);
        assert(lacks(s.skip(1), pat[0])) by {
            assert forall|i: int| 0 <= i < s.skip(1).len() implies #[trigger] s.skip(1)[i] != pat[0] by {
                assert(s.skip(1)[i] == s[i + 1]);
            }
        }
        lemma_replace_absent(s.skip(1), pat, rep);
        assert(seq![s[0]] + s.skip(1) =~= s);
    }
}

/// A leading stretch that lacks the pattern's first character passes
/// through replacement unchanged.
pub(crate) proof fn lemma_replace_after(p: Seq<char>, x: Seq<char>, pat: Seq<char>, rep: Seq<char>)
    requires
        pat.len() > 0,
        lacks(p, pat[0]),
    ensures
        replace_all(p + x, pat, rep) == p + replace_all(x, pat, rep),
    decreases p.len(),
{
    if p.len() == 0 {
        assert(p + x =~= x);
    } else if (p + x).len() < pat.len() {
        assert(replace_all(x, pat, rep) == x);
    } else {
        assert((p + x).take(pat.len() as int)[0] == p[0]);
        assert((p + x).skip(1) =~= p.skip(1) + x);
        assert(lacks(p.skip(1), pat[0])) by {
            assert forall|i: int| 0 <= i < p.skip(1).len() implies #[trigger] p.skip(1)[i] != pat[0] by {
                assert(p.skip(1)[i] == p[i + 1]);
            }
        }
        lemma_replace_after(p.skip(1), x, pat, rep);
        assert(seq![p[0]] + (p.skip(1) + replace_all(x, pat, rep)) =~= p + replace_all(x, pat, rep));
    }
}

/// Text that starts with the pattern has it replaced first.
pub(crate) proof fn lemma_replace_head(pat: Seq<char>, x: Seq<char>, rep: Seq<char>)
    requires
        pat.len() > 0,
    ensures
        replace_all(pat + x, pat, rep) == rep + replace_all(x, pat, rep),
{
    assert((pat + x).take(pat.len() as int) =~= pat);
    assert((pat + x).skip(pat.len() as int) =~= x);
}

/// Text that starts like the pattern but differs from it at its second
/// character, and holds the pattern's first character nowhere else, is
/// left as it is.
pub(crate) proof fn lemma_replace_near_miss(ph: Seq<char>, x: Seq<char>, pat: Seq<char>, rep: Seq<char>)
    requires
        pat.len() >= 2,
        ph.len() >= 2,
        ph[1] != pat[1],
        lacks(ph.skip(1), pat[0]),
        lacks(x, pat[0]),
    ensures
        replace_all(ph + x, pat, rep) == ph + x,
{
    let s = ph + x;
    if s.len() >= pat.len() {
        assert(s.take(pat.len() as int)[1] == ph[1]);
        assert(s.take(pat.len() as int) != pat);
        assert(s.skip(1) =~= ph.skip(1) + x);
        assert(lacks(s.skip(1), pat[0])) by {
            assert forall|i: int| 0 <= i < s.skip(1).len() implies #[trigger] s.skip(1)[i] != pat[0] by {
                if i < ph.skip(1).len() {
                    assert(s.skip(1)[i] == ph.skip(1)[i]);
                } else {
                    assert(s.skip(1)[i] == x[i - ph.skip(1).len()]);
                }
            }
        }
        lemma_replace_absent(s.skip(1), pat, rep);
        assert(seq![s[0]] + s.skip(1) =~= s);
    }
}

/// Escaping adds no `{`.
pub(crate) proof fn lemma_escape_lacks_brace(s: Seq<char>)
    requires
        lacks(s, '{'),
    ensures
        lacks(escape_markup(s), '{'),
    decreases s.len(),
{
    if s.len() > 0 {
        assert(lacks(s.drop_last(), '{')) by {
            assert forall|i: int| 0 <= i < s.drop_last().len() implies #[trigger] s.drop_last()[i] != '{' by {
                assert(s.drop_last()[i] == s[i]);
            }
        }
        lemma_escape_lacks_brace(s.drop_last());
        let a = escape_markup(s.drop_last());
        let b = escape_char(s.last());
        assert(s.last() == s[s.len() - 1]);
        assert forall|k: int| 0 <= k < escape_markup(s).len() implies #[trigger] escape_markup(s)[k] != '{' by {
            if k < a.len() {
                assert(escape_markup(s)[k] == a[k]);
            } else {
                assert(escape_markup(s)[k] == b[k - a.len()]);
            }
        }
    }
}

/// Replaces every occurrence of `pat` in `s` by `rep`, scanning left to right.
pub fn replace_str(s: &str, pat: &str, rep: &str) -> (out: String)
    requires
        pat@.len() > 0,
    ensures
        out@ == replace_all(s@, pat@, rep@),
{
    let sv = chars_of(s);
    let pv = chars_of(pat);
    let rv = chars_of(rep);
    let mut out: Vec<char> = Vec::new();
    let mut i: usize = 0;
    assert(sv@.skip(0) =~= sv@);
    while i < sv.len()
        invariant
            i <= sv.len(),
            sv@ == s@,
            pv@ == pat@,
            rv@ == rep@,
            pv.len() > 0,
            out@ + replace_all(sv@.skip(i as int), pv@, rv@) == replace_all(s@, pat@, rep@),
        decreases sv.len() - i,
    {
        let ghost rest = sv@.skip(i as int);
        if sv.len() - i >= pv.len() && matches_at(&sv, i, &pv) {
            assert(rest.take(pv.len() as int) =~= sv@.subrange(i as int, i + pv.len()));
            assert(rest.skip(pv.len() as int) =~= sv@.skip(i + pv.len()));
            let mut k: usize = 0;
            let ghost out0 = out@;
            while k < rv.len()
                invariant
                    k <= rv.len(),
                    out@ == out0 + rv@.take(k as int),
                decreases rv.len() - k,
            {
                out.push(rv[k]);
                assert(out0 + rv@.take(k + 1) =~= (out0 + rv@.take(k as int)).push(rv@[k as int]));
                k = k + 1;
            }
            assert(rv@.take(rv.len() as int) =~= rv@);
            assert(out0 + (rv@ + replace_all(sv@.skip(i + pv.len()), pv@, rv@)) =~= out@
                + replace_all(sv@.skip(i + pv.len()), pv@, rv@));
            i = i + pv.len();
        } else {
            assert(rest.skip(1) =~= sv@.skip(i + 1));
            if sv.len() - i < pv.len() {
                assert(replace_all(rest, pv@, rv@) == rest);
                assert(replace_all(rest.skip(1), pv@, rv@) == rest.skip(1));
                assert(rest =~= seq![rest[0]] + rest.skip(1));
            } else {
                assert(rest.take(pv.len() as int) =~= sv@.subrange(i as int, i + pv.len()));
            }
            let ghost out0 = out@;
            out.push(sv[i]);
            assert(out0 + (seq![rest[0]] + replace_all(rest.skip(1), pv@, rv@)) =~= out@
                + replace_all(rest.skip(1), pv@, rv@));
            i = i + 1;
        }
    }
    assert(replace_all(sv@.skip(i as int), pv@, rv@) =~= Seq::<char>::empty());
    assert(out@ + Seq::<char>::empty() =~= out@);
    string_of(&out)
}

/// `s` without leading whitespace.
pub open spec fn trim_start(s: Seq<char>) -> Seq<char>
    decreases s.len(),
{
    if s.len() > 0 && is_space(s[0]) {
        trim_start(s.drop_first())
    } else {
        s
    }
}

/// `s` without trailing whitespace.
pub open spec fn trim_end(s: Seq<char>) -> Seq<char>
    decreases s.len(),
{
    if s.len() > 0 && is_space(s.last()) {
        trim_end(s.drop_last())
    } else {
        s
    }
}

/// `s` without leading and trailing whitespace (`str::trim`).
pub open spec fn trim(s: Seq<char>) -> Seq<char> {
    trim_end(trim_start(s))
}

/// Characters of `s` with surrounding whitespace removed.
pub fn trimmed_chars(s: &str) -> (out: Vec<char>)
    ensures
        out@ == trim(s@),
{
    let v = chars_of(s);
    let mut a: usize = 0;
    assert(v@.skip(0) =~= v@);
    while a < v.len() && char_is_space(v[a])
        invariant
            a <= v.len(),
            v@ == s@,
            trim_start(s@) == trim_start(v@.skip(a as int)),
        decreases v.len() - a,
    {
        assert(v@.skip(a as int).drop_first() =~= v@.skip(a + 1));
        a = a + 1;
    }
    let ghost t = v@.skip(a as int);
    assert(trim_start(s@) == t);
    let mut b: usize = v.len();
    assert(t.take(t.len() as int) =~= t);
    while b > a && char_is_space(v[b - 1])
        invariant
            a <= b <= v.len(),
            v@ == s@,
            t == v@.skip(a as int),
            trim_end(t) == trim_end(t.take(b - a)),
        decreases b,
    {
        assert(t.take(b - a).drop_last() =~= t.take(b - 1 - a));
        b = b - 1;
    }
    let mut out: Vec<char> = Vec::new();
    let mut k: usize = a;
    while k < b
        invariant
            a <= k <= b <= v.len(),
            out@ == v@.subrange(a as int, k as int),
        decreases b - k,
    {
        out.push(v[k]);
        assert(v@.subrange(a as int, k + 1) =~= v@.subrange(a as int, k as int).push(v@[k as int]));
        k = k + 1;
    }
    assert(t.take(b - a) =~= v@.subrange(a as int, b as int));
    out
}

/// Whether two string slices hold the same characters.
pub fn str_equal(a: &str, b: &str) -> (r: bool)
    ensures
        r == (a@ == b@),
{
    let av = chars_of(a);
    let bv = chars_of(b);
    if av.len() != bv.len() {
        return false;
    }
    let mut i: usize = 0;
    while i < av.len()
        invariant
            i <= av.len(),
            av.len() == bv.len(),
            av@ == a@,
            bv@ == b@,
            forall|j: int| 0 <= j < i ==> av@[j] == bv@[j],
        decreases av.len() - i,
    {
        if av[i] != bv[i] {
            return false;
        }
        i = i + 1;
    }
    assert(av@ =~= bv@);
    true
}

/// ASCII lower-casing of one character; other characters are unchanged.
pub open spec fn ascii_lower(c: char) -> int {
    if 'A' <= c && c <= 'Z' {
        (c as u32) + 32
    } else {
        c as u32 as int
    }
}

/// `str::eq_ignore_ascii_case` on character sequences.
pub open spec fn eq_ignore_ascii_case(a: Seq<char>, b: Seq<char>) -> bool {
    &&& a.len() == b.len()
    &&& forall|i: int| 0 <= i < a.len() ==> #[trigger] ascii_lower(a[i]) == ascii_lower(b[i])
}

fn lower_code(c: char) -> (r: u32)
    ensures
        r == ascii_lower(c),
{
    if 'A' <= c && c <= 'Z' {
        (c as u32) + 32
    } else {
        c as u32
    }
}

/// Compares two strings, ignoring the case of ASCII letters.
pub fn str_eq_ignore_ascii_case(a: &str, b: &str) -> (r: bool)
    ensures
        r == eq_ignore_ascii_case(a@, b@),
{
    let av = chars_of(a);
    let bv = chars_of(b);
    if av.len() != bv.len() {
        return false;
    }
    let mut i: usize = 0;
    while i < av.len()
        invariant
            i <= av.len(),
            av.len() == bv.len(),
            av@ == a@,
            bv@ == b@,
            forall|j: int| 0 <= j < i ==> #[trigger] ascii_lower(av@[j]) == ascii_lower(bv@[j]),
        decreases av.len() - i,
    {
        if lower_code(av[i]) != lower_code(bv[i]) {
            return false;
        }
        i = i + 1;
    }
    true
}

/// Decimal digits of a natural number, most significant first.
pub open spec fn decimal(n: nat) -> Seq<char>
    decreases n,
{
    if n < 10 {
        seq![digit_char(n)]
    } else {
        decimal(n / 10).push(digit_char(n % 10))
    }
}

/// The character of one decimal digit.
pub open spec fn digit_char(d: nat) -> char {
    if d == 0 {
        '0'
    } else if d == 1 {
        '1'
    } else if d == 2 {
        '2'
    } else if d == 3 {
        '3'
    } else if d == 4 {
        '4'
    } else if d == 5 {
        '5'
    } else if d == 6 {
        '6'
    } else if d == 7 {
        '7'
    } else if d == 8 {
        '8'
    } else {
        '9'
    }
}

fn digit(d: u64) -> (c: char)
    requires
        d < 10,
    ensures
        c == digit_char(d as nat),
{
    if d == 0 {
        '0'
    } else if d == 1 {
        '1'
    } else if d == 2 {
        '2'
    } else if d == 3 {
        '3'
    } else if d == 4 {
        '4'
    } else if d == 5 {
        '5'
    } else if d == 6 {
        '6'
    } else if d == 7 {
        '7'
    } else if d == 8 {
        '8'
    } else {
        '9'
    }
}

/// Decimal rendering of an unsigned number (`u64::to_string`).
pub fn decimal_string(n: u64) -> (s: String)
    ensures
        s@ == decimal(n as nat),
    decreases n,
{
    if n < 10 {
        let mut s = String::new();
        push_char(&mut s, digit(n));
        assert(s@ =~= seq![digit_char(n as nat)]);
        s
    } else {
        let mut s = decimal_string(n / 10);
        push_char(&mut s, digit(n % 10));
        s
    }
}

} // verus!
