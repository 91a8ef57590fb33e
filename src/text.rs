//! Character-level helpers: turning strings into characters and back,
//! whitespace classes, escaping and the SGF text renderings.
use vstd::prelude::*;
use vstd::std_specs::iter::IteratorSpec;

verus! {

broadcast use vstd::string::axiom_spec_iter, vstd::string::next_postcondition;

/// Relies on `String::push`: it appends the one character to the string.
pub assume_specification[ String::push ](s: &mut String, ch: char)
    ensures
        final(s)@ == old(s)@.push(ch),
;

/// The characters of `s`, in order.
pub fn chars_of(s: &str) -> (r: Vec<char>)
    ensures
        r@ == s@,
{
    let mut it = s.chars();
    let mut out: Vec<char> = Vec::new();
    loop
        invariant
            out@ + it.remaining() == s@,
            it.obeys_prophetic_iter_laws(),
            it.decrease() is Some,
        decreases it.decrease()->0,
    {
        match it.next() {
            Some(c) => {
                out.push(c);
                assert(out@ + it.remaining() == s@);
            },
            None => {
                return out;
            },
        }
    }
}

/// The characters `s[from..to]` as a string.
pub fn string_of_range(s: &Vec<char>, from: usize, to: usize) -> (r: String)
    requires
        from <= to <= s@.len(),
    ensures
        r@ == s@.subrange(from as int, to as int),
{
    let mut out = String::new();
    let mut i = from;
    while i < to
        invariant
            from <= i <= to <= s@.len(),
            out@ == s@.subrange(from as int, i as int),
        decreases to - i,
    {
        out.push(s[i]);
        assert(out@ =~= s@.subrange(from as int, i + 1));
        i = i + 1;
    }
    out
}

/// The characters of `s` as a string.
pub fn string_of(s: &Vec<char>) -> (r: String)
    ensures
        r@ == s@,
{
    let r = string_of_range(s, 0, s.len());
    assert(s@.subrange(0, s@.len() as int) =~= s@);
    r
}

/// A copy of a string slice as an owned string.
pub fn owned(s: &str) -> (r: String)
    ensures
        r@ == s@,
{
    let cs = chars_of(s);
    string_of(&cs)
}

/// Appends the characters of `t` to `out`.
pub fn push_all(out: &mut String, t: &str)
    ensures
        final(out)@ == old(out)@ + t@,
{
    let cs = chars_of(t);
    let mut i: usize = 0;
    while i < cs.len()
        invariant
            i <= cs@.len(),
            cs@ == t@,
            out@ == old(out)@ + cs@.subrange(0, i as int),
        decreases cs.len() - i,
    {
        out.push(cs[i]);
        assert(out@ =~= old(out)@ + cs@.subrange(0, i + 1));
        i = i + 1;
    }
    assert(cs@.subrange(0, cs@.len() as int) =~= cs@);
}

/// ASCII whitespace: space, tab, line feed, form feed and carriage return.
pub open spec fn is_ascii_ws(c: char) -> bool {
    c == ' ' || c == '\t' || c == '\n' || c == '\x0C' || c == '\r'
}

/// Unicode `White_Space`, the class that `char::is_whitespace` and `str::trim` use.
pub open spec fn is_unicode_ws(c: char) -> bool {
    let n = c as u32;
    (0x09 <= n <= 0x0D) || n == 0x20 || n == 0x85 || n == 0xA0 || n == 0x1680 || (0x2000 <= n
        <= 0x200A) || n == 0x2028 || n == 0x2029 || n == 0x202F || n == 0x205F || n == 0x3000
}

pub fn ascii_ws(c: char) -> (r: bool)
    ensures
        r == is_ascii_ws(c),
{
    c == ' ' || c == '\t' || c == '\n' || c == '\x0C' || c == '\r'
}

pub fn unicode_ws(c: char) -> (r: bool)
    ensures
        r == is_unicode_ws(c),
{
    let n = c as u32;
    (0x09 <= n && n <= 0x0D) || n == 0x20 || n == 0x85 || n == 0xA0 || n == 0x1680 || (0x2000 <= n
        && n <= 0x200A) || n == 0x2028 || n == 0x2029 || n == 0x202F || n == 0x205F || n == 0x3000
}

/// Index of the first character of `s` that is not Unicode whitespace (or `s.len()`).
pub open spec fn trim_start_index(s: Seq<char>) -> int
    decreases s.len(),
{
    if s.len() > 0 && is_unicode_ws(s[0]) {
        1 + trim_start_index(s.drop_first())
    } else {
        0
    }
}

/// Index just past the last character of `s` that is not Unicode whitespace (or 0).
pub open spec fn trim_end_index(s: Seq<char>) -> int
    decreases s.len(),
{
    if s.len() > 0 && is_unicode_ws(s.last()) {
        trim_end_index(s.drop_last())
    } else {
        s.len() as int
    }
}

/// `s` with leading and trailing Unicode whitespace removed.
pub open spec fn trimmed(s: Seq<char>) -> Seq<char> {
    let e = trim_end_index(s);
    s.subrange(0, e).subrange(trim_start_index(s.subrange(0, e)), e)
}

proof fn lemma_trim_start_step(s: Seq<char>, i: int)
    requires
        0 <= i < s.len(),
        forall|k: int| 0 <= k < i ==> is_unicode_ws(#[trigger] s[k]),
    ensures
        trim_start_index(s) == i + trim_start_index(s.subrange(i, s.len() as int)),
    decreases i,
{
    if i > 0 {
        assert(is_unicode_ws(s[0]));
        assert forall|k: int| 0 <= k < i - 1 implies is_unicode_ws(#[trigger] s.drop_first()[k]) by {
            assert(is_unicode_ws(s[k + 1]));
        }
        lemma_trim_start_step(s.drop_first(), i - 1);
        assert(s.drop_first().subrange(i - 1, s.len() - 1) =~= s.subrange(i, s.len() as int));
    } else {
        assert(s.subrange(0, s.len() as int) =~= s);
    }
}

proof fn lemma_trim_end_step(s: Seq<char>, e: int)
    requires
        0 <= e <= s.len(),
        forall|k: int| e <= k < s.len() ==> is_unicode_ws(#[trigger] s[k]),
    ensures
        trim_end_index(s) == trim_end_index(s.subrange(0, e)),
    decreases s.len() - e,
{
    if e < s.len() {
        lemma_trim_end_step(s.drop_last(), e);
        assert(s.drop_last().subrange(0, e) =~= s.subrange(0, e));
    } else {
        assert(s.subrange(0, e) =~= s);
    }
}

/// The characters of `s` without leading and trailing Unicode whitespace.
pub fn trim_chars(s: &Vec<char>) -> (r: Vec<char>)
    ensures
        r@ == trimmed(s@),
{
    let mut e = s.len();
    while e > 0 && unicode_ws(s[e - 1])
        invariant
            e <= s@.len(),
            forall|k: int| e <= k < s@.len() ==> is_unicode_ws(#[trigger] s@[k]),
        decreases e,
    {
        e = e - 1;
    }
    proof {
        lemma_trim_end_step(s@, e as int);
        let t = s@.subrange(0, e as int);
        if e > 0 {
            assert(t.drop_last() =~= s@.subrange(0, e - 1));
            assert(trim_end_index(t) == e);
        }
    }
    let ghost t = s@.subrange(0, e as int);
    let mut b: usize = 0;
    while b < e && unicode_ws(s[b])
        invariant
            b <= e <= s@.len(),
            t == s@.subrange(0, e as int),
            forall|k: int| 0 <= k < b ==> is_unicode_ws(#[trigger] t[k]),
        decreases e - b,
    {
        b = b + 1;
    }
    proof {
        if b < e {
            lemma_trim_start_step(t, b as int);
            assert(trim_start_index(t.subrange(b as int, e as int)) == 0);
        } else {
            lemma_trim_start_step_end(t);
        }
    }
    let mut out: Vec<char> = Vec::new();
    let mut i = b;
    while i < e
        invariant
            b <= i <= e <= s@.len(),
            out@ == s@.subrange(b as int, i as int),
        decreases e - i,
    {
        out.push(s[i]);
        assert(out@ =~= s@.subrange(b as int, i + 1));
        i = i + 1;
    }
    assert(out@ =~= trimmed(s@));
    out
}

proof fn lemma_trim_start_step_end(t: Seq<char>)
    requires
        forall|k: int| 0 <= k < t.len() ==> is_unicode_ws(#[trigger] t[k]),
    ensures
        trim_start_index(t) == t.len(),
    decreases t.len(),
{
    if t.len() > 0 {
        lemma_trim_start_step_end(t.drop_first());
    }
}

/// The SGF escaping of `s`: a backslash before each `\`, `]` and `:`.
pub open spec fn escaped(s: Seq<char>) -> Seq<char>
    decreases s.len(),
{
    if s.len() == 0 {
        Seq::empty()
    } else {
        let c = s.last();
        escaped(s.drop_last()) + if c == '\\' || c == ']' || c == ':' {
            seq!['\\', c]
        } else {
            seq![c]
        }
    }
}

/// Escapes `s` for use inside a bracketed SGF value.
pub fn escape_string(s: &str) -> (r: String)
    ensures
        r@ == escaped(s@),
{
    let cs = chars_of(s);
    let mut out = String::new();
    let mut i: usize = 0;
    while i < cs.len()
        invariant
            i <= cs@.len(),
            cs@ == s@,
            out@ == escaped(cs@.subrange(0, i as int)),
        decreases cs.len() - i,
    {
        let c = cs[i];
        if c == '\\' || c == ']' || c == ':' {
            out.push('\\');
        }
        out.push(c);
        assert(cs@.subrange(0, i + 1).drop_last() =~= cs@.subrange(0, i as int));
        i = i + 1;
    }
    assert(cs@.subrange(0, cs@.len() as int) =~= cs@);
    out
}

/// The rendering of SGF Text from position `i` on: a backslash is dropped and
/// the character after it kept, except that an escaped line break (with an
/// optional complementary second break character) is removed entirely; other
/// whitespace that is not a line break becomes a space.
pub open spec fn format_from(s: Seq<char>, i: int) -> Seq<char>
    decreases s.len() - i,
{
    if i < 0 || i >= s.len() {
        Seq::empty()
    } else if s[i] == '\\' && i + 1 < s.len() {
        let j = i + 1;
        if s[j] == '\n' {
            if j + 1 < s.len() && s[j + 1] == '\r' {
                format_from(s, j + 2)
            } else {
                format_from(s, j + 1)
            }
        } else if s[j] == '\r' {
            if j + 1 < s.len() && s[j + 1] == '\n' {
                format_from(s, j + 2)
            } else {
                format_from(s, j + 1)
            }
        } else {
            seq![s[j]] + format_from(s, j + 1)
        }
    } else if is_unicode_ws(s[i]) && s[i] != '\r' && s[i] != '\n' {
        seq![' '] + format_from(s, i + 1)
    } else {
        seq![s[i]] + format_from(s, i + 1)
    }
}

/// The rendering of the SGF Text `s`.
pub open spec fn formatted(s: Seq<char>) -> Seq<char> {
    format_from(s, 0)
}

/// Renders SGF Text: escapes decoded, soft line breaks removed, other
/// non-line-break whitespace turned into spaces.
pub fn format_text(s: &str) -> (r: Vec<char>)
    ensures
        r@ == formatted(s@),
{
    let cs = chars_of(s);
    let n = cs.len();
    let mut out: Vec<char> = Vec::new();
    let mut i: usize = 0;
    while i < n
        invariant
            n == cs@.len(),
            cs@ == s@,
            i <= n,
            out@ + format_from(cs@, i as int) == formatted(cs@),
        decreases n - i,
    {
        let c = cs[i];
        if c == '\\' && i + 1 < n {
            i = i + 1;
            if cs[i] == '\n' {
                if i + 1 < n && cs[i + 1] == '\r' {
                    i = i + 1;
                }
            } else if cs[i] == '\r' {
                if i + 1 < n && cs[i + 1] == '\n' {
                    i = i + 1;
                }
            } else {
                out.push(cs[i]);
                assert(out@ + format_from(cs@, i + 1) =~= formatted(cs@));
            }
        } else if unicode_ws(c) && c != '\r' && c != '\n' {
            out.push(' ');
            assert(out@ + format_from(cs@, i + 1) =~= formatted(cs@));
        } else {
            out.push(c);
            assert(out@ + format_from(cs@, i + 1) =~= formatted(cs@));
        }
        i = i + 1;
    }
    assert(out@ =~= formatted(s@));
    out
}

/// `s` with every non-overlapping occurrence of the pair `a b`, taken left to
/// right, replaced by one space.
pub open spec fn replace_pair(s: Seq<char>, a: char, b: char) -> Seq<char>
    decreases s.len(),
{
    if s.len() == 0 {
        Seq::empty()
    } else if s.len() >= 2 && s[0] == a && s[1] == b {
        seq![' '] + replace_pair(s.subrange(2, s.len() as int), a, b)
    } else {
        seq![s[0]] + replace_pair(s.drop_first(), a, b)
    }
}

/// `s` with every `a` replaced by a space.
pub open spec fn replace_one(s: Seq<char>, a: char) -> Seq<char> {
    s.map_values(|c: char| if c == a { ' ' } else { c })
}

/// The rendering of SGF SimpleText: the Text rendering, after which the line
/// breaks `\r\n`, `\n\r`, `\n` and `\r` (in that order) become spaces.
pub open spec fn formatted_simple(s: Seq<char>) -> Seq<char> {
    replace_one(
        replace_one(replace_pair(replace_pair(formatted(s), '\r', '\n'), '\n', '\r'), '\n'),
        '\r',
    )
}

fn replace_pair_exec(s: &Vec<char>, a: char, b: char) -> (r: Vec<char>)
    ensures
        r@ == replace_pair(s@, a, b),
{
    let n = s.len();
    let mut out: Vec<char> = Vec::new();
    let mut i: usize = 0;
    assert(s@.subrange(0, n as int) =~= s@);
    while i < n
        invariant
            n == s@.len(),
            i <= n,
            out@ + replace_pair(s@.subrange(i as int, n as int), a, b) == replace_pair(s@, a, b),
        decreases n - i,
    {
        let ghost rest = s@.subrange(i as int, n as int);
        if i + 1 < n && s[i] == a && s[i + 1] == b {
            out.push(' ');
            assert(rest.subrange(2, rest.len() as int) =~= s@.subrange(i + 2, n as int));
            i = i + 2;
        } else {
            out.push(s[i]);
            assert(rest.drop_first() =~= s@.subrange(i + 1, n as int));
            i = i + 1;
        }
        assert(out@ + replace_pair(s@.subrange(i as int, n as int), a, b) =~= replace_pair(
            s@,
            a,
            b,
        ));
    }
    assert(s@.subrange(0, n as int) =~= s@);
    assert(out@ =~= replace_pair(s@, a, b));
    out
}

fn replace_one_exec(s: &Vec<char>, a: char) -> (r: Vec<char>)
    ensures
        r@ == replace_one(s@, a),
{
    let mut out: Vec<char> = Vec::new();
    let mut i: usize = 0;
    while i < s.len()
        invariant
            i <= s@.len(),
            out@ == replace_one(s@.subrange(0, i as int), a),
        decreases s.len() - i,
    {
        if s[i] == a {
            out.push(' ');
        } else {
            out.push(s[i]);
        }
        assert(out@ =~= replace_one(s@.subrange(0, i + 1), a));
        i = i + 1;
    }
    assert(s@.subrange(0, s@.len() as int) =~= s@);
    out
}

/// Renders SGF SimpleText: the Text rendering with every line break as a space.
pub fn format_simple_text(s: &str) -> (r: Vec<char>)
    ensures
        r@ == formatted_simple(s@),
{
    let t = format_text(s);
    let t = replace_pair_exec(&t, '\r', '\n');
    let t = replace_pair_exec(&t, '\n', '\r');
    let t = replace_one_exec(&t, '\n');
    replace_one_exec(&t, '\r')
}

} // verus!
