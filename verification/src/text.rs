//! Text helpers: decimal rendering of numbers and joining strings.

use vstd::prelude::*;

verus! {

/// The decimal digit character for `d` (`0 <= d < 10`).
pub open spec fn digit_char(d: nat) -> char {
    ((d + 48) as u8) as char
}

/// Decimal rendering of a natural number, without sign or leading zeros.
pub open spec fn decimal(n: nat) -> Seq<char>
    decreases n,
{
    if n < 10 {
        seq![digit_char(n)]
    } else {
        decimal(n / 10).push(digit_char(n % 10))
    }
}

/// The one-character text of decimal digit `d`.
fn digit_text(d: u64) -> (s: &'static str)
    requires
        d < 10,
    ensures
        s@ == seq![digit_char(d as nat)],
{
    proof {
        reveal_strlit("0");
        reveal_strlit("1");
        reveal_strlit("2");
        reveal_strlit("3");
        reveal_strlit("4");
        reveal_strlit("5");
        reveal_strlit("6");
        reveal_strlit("7");
        reveal_strlit("8");
        reveal_strlit("9");
    }
    let s = if d == 0 {
        "0"
    } else if d == 1 {
        "1"
    } else if d == 2 {
        "2"
    } else if d == 3 {
        "3"
    } else if d == 4 {
        "4"
    } else if d == 5 {
        "5"
    } else if d == 6 {
        "6"
    } else if d == 7 {
        "7"
    } else if d == 8 {
        "8"
    } else {
        "9"
    };
    assert(s@ =~= seq![digit_char(d as nat)]);
    s
}

/// The decimal digits of `n`.
fn u64_to_string(n: u64) -> (s: String)
    ensures
        s@ == decimal(n as nat),
    decreases n,
{
    if n < 10 {
        String::from_str(digit_text(n))
    } else {
        let mut s = u64_to_string(n / 10);
        s.append(digit_text(n % 10));
        s
    }
}

/// The decimal digits of a `u32`, as its `Display` writes them.
pub fn u32_to_string(n: u32) -> (s: String)
    ensures
        s@ == decimal(n as nat),
{
    u64_to_string(n as u64)
}

/// The decimal digits of a `usize`, as its `Display` writes them.
pub fn usize_to_string(n: usize) -> (s: String)
    ensures
        s@ == decimal(n as nat),
{
    u64_to_string(n as u64)
}

/// The parts joined with `sep` between consecutive parts.
pub open spec fn seq_join(parts: Seq<Seq<char>>, sep: Seq<char>) -> Seq<char>
    decreases parts.len(),
{
    if parts.len() == 0 {
        Seq::empty()
    } else if parts.len() == 1 {
        parts[0]
    } else {
        seq_join(parts.drop_last(), sep) + sep + parts.last()
    }
}

/// The views of a sequence of strings.
pub open spec fn string_views(v: Seq<String>) -> Seq<Seq<char>> {
    v.map_values(|s: String| s@)
}

/// The strings joined with `sep` between consecutive ones.
pub fn join_strings(parts: &Vec<String>, sep: &str) -> (r: String)
    ensures
        r@ == seq_join(string_views(parts@), sep@),
{
    let ghost views = string_views(parts@);
    let mut r = String::new();
    let mut i: usize = 0;
    while i < parts.len()
        invariant
            i <= parts@.len(),
            views == string_views(parts@),
            r@ == seq_join(views.take(i as int), sep@),
        decreases parts@.len() - i,
    {
        assert(views.take(i + 1).drop_last() =~= views.take(i as int));
        if i > 0 {
            r.append(sep);
        } else {
            assert(r@ + parts@[0]@ =~= parts@[0]@);
        }
        r.append(parts[i].as_str());
        i = i + 1;
    }
    assert(views.take(i as int) =~= views);
    r
}

/// Unicode `White_Space` characters, which `char::is_whitespace` and
/// `str::trim` treat as whitespace.
pub open spec fn is_unicode_whitespace(c: char) -> bool {
    let u = c as u32;
    ||| 0x09 <= u <= 0x0D
    ||| u == 0x20
    ||| u == 0x85
    ||| u == 0xA0
    ||| u == 0x1680
    ||| 0x2000 <= u <= 0x200A
    ||| u == 0x2028
    ||| u == 0x2029
    ||| u == 0x202F
    ||| u == 0x205F
    ||| u == 0x3000
}

/// `s` without its leading whitespace.
pub open spec fn trim_start_spec(s: Seq<char>) -> Seq<char>
    decreases s.len(),
{
    if s.len() > 0 && is_unicode_whitespace(s[0]) {
        trim_start_spec(s.drop_first())
    } else {
        s
    }
}

/// `s` without its trailing whitespace.
pub open spec fn trim_end_spec(s: Seq<char>) -> Seq<char>
    decreases s.len(),
{
    if s.len() > 0 && is_unicode_whitespace(s.last()) {
        trim_end_spec(s.drop_last())
    } else {
        s
    }
}

/// `s` without leading and trailing whitespace.
pub open spec fn trim_spec(s: Seq<char>) -> Seq<char> {
    trim_end_spec(trim_start_spec(s))
}

/// Whether `c` is whitespace (Unicode `White_Space`).
pub fn is_whitespace_char(c: char) -> (b: bool)
    ensures
        b == is_unicode_whitespace(c),
{
    let u = c as u32;
    (0x09 <= u && u <= 0x0D) || u == 0x20 || u == 0x85 || u == 0xA0 || u == 0x1680 || (0x2000 <= u
        && u <= 0x200A) || u == 0x2028 || u == 0x2029 || u == 0x202F || u == 0x205F || u == 0x3000
}

proof fn lemma_trim_start_skip(s: Seq<char>, i: int)
    requires
        0 <= i <= s.len(),
        forall|k: int| 0 <= k < i ==> is_unicode_whitespace(#[trigger] s[k]),
    ensures
        trim_start_spec(s) == trim_start_spec(s.skip(i)),
    decreases i,
{
    if i == 0 {
        assert(s.skip(0) =~= s);
    } else {
        let t = s.drop_first();
        assert forall|k: int| 0 <= k < i - 1 implies is_unicode_whitespace(#[trigger] t[k]) by {
            assert(t[k] == s[k + 1]);
        }
        lemma_trim_start_skip(t, i - 1);
        assert(t.skip(i - 1) =~= s.skip(i));
    }
}

proof fn lemma_trim_end_take(s: Seq<char>, j: int)
    requires
        0 <= j <= s.len(),
        forall|k: int| j <= k < s.len() ==> is_unicode_whitespace(#[trigger] s[k]),
    ensures
        trim_end_spec(s) == trim_end_spec(s.take(j)),
    decreases s.len() - j,
{
    if j == s.len() {
        assert(s.take(j) =~= s);
    } else {
        let t = s.drop_last();
        assert forall|k: int| j <= k < t.len() implies is_unicode_whitespace(#[trigger] t[k]) by {
            assert(t[k] == s[k]);
        }
        lemma_trim_end_take(t, j);
        assert(t.take(j) =~= s.take(j));
    }
}

/// `s` without leading and trailing whitespace (Unicode `White_Space`), as
/// `str::trim` does.
pub fn trim(s: &str) -> (r: &str)
    ensures
        r@ == trim_spec(s@),
{
    let n = s.unicode_len();
    let mut i: usize = 0;
    while i < n
        invariant
            n == s@.len(),
            i <= n,
            forall|k: int| 0 <= k < i ==> is_unicode_whitespace(#[trigger] s@[k]),
        ensures
            i <= n,
            forall|k: int| 0 <= k < i ==> is_unicode_whitespace(#[trigger] s@[k]),
            i == n || !is_unicode_whitespace(s@[i as int]),
        decreases n - i,
    {
        if !is_whitespace_char(s.get_char(i)) {
            break;
        }
        i = i + 1;
    }
    let mut j: usize = n;
    while j > i
        invariant
            n == s@.len(),
            i <= j <= n,
            forall|k: int| j <= k < n ==> is_unicode_whitespace(#[trigger] s@[k]),
        ensures
            i <= j <= n,
            forall|k: int| j <= k < n ==> is_unicode_whitespace(#[trigger] s@[k]),
            j == i || !is_unicode_whitespace(s@[j - 1]),
        decreases j - i,
    {
        if !is_whitespace_char(s.get_char(j - 1)) {
            break;
        }
        j = j - 1;
    }
    proof {
        lemma_trim_start_skip(s@, i as int);
        let t = s@.skip(i as int);
        if i < n {
            assert(!is_unicode_whitespace(t[0]));
        }
        assert(trim_start_spec(t) == t);
        assert forall|k: int| j - i <= k < t.len() implies is_unicode_whitespace(#[trigger] t[k]) by {
            assert(t[k] == s@[k + i]);
        }
        lemma_trim_end_take(t, j - i);
        let u = t.take(j - i);
        if j > i {
            assert(u.last() == s@[j - 1]);
            assert(!is_unicode_whitespace(u.last()));
        }
        assert(trim_end_spec(u) == u);
        assert(u =~= s@.subrange(i as int, j as int));
    }
    s.substring_char(i, j)
}

/// `s` trimmed, as an owned string.
pub fn trimmed(s: &str) -> (r: String)
    ensures
        r@ == trim_spec(s@),
{
    String::from_str(trim(s))
}

/// Whether two strings hold the same characters.
pub fn str_eq(a: &str, b: &str) -> (r: bool)
    ensures
        r == (a@ == b@),
{
    let n = a.unicode_len();
    if n != b.unicode_len() {
        return false;
    }
    let mut i: usize = 0;
    while i < n
        invariant
            n == a@.len(),
            n == b@.len(),
            i <= n,
            forall|k: int| 0 <= k < i ==> a@[k] == b@[k],
        decreases n - i,
    {
        if a.get_char(i) != b.get_char(i) {
            return false;
        }
        i = i + 1;
    }
    assert(a@ =~= b@);
    true
}

/// The pieces of `s` between commas (like `str::split(',')`): at least one
/// piece, empty pieces included.
pub open spec fn comma_pieces(s: Seq<char>) -> Seq<Seq<char>>
    decreases s.len(),
{
    if s.len() == 0 {
        seq![Seq::<char>::empty()]
    } else {
        let p = comma_pieces(s.drop_last());
        if s.last() == ',' {
            p.push(Seq::empty())
        } else {
            p.update(p.len() - 1, p.last().push(s.last()))
        }
    }
}

/// The pieces trimmed, with the empty ones left out.
pub open spec fn trimmed_nonempty(ps: Seq<Seq<char>>) -> Seq<Seq<char>>
    decreases ps.len(),
{
    if ps.len() == 0 {
        Seq::empty()
    } else {
        let r = trimmed_nonempty(ps.drop_last());
        let t = trim_spec(ps.last());
        if t.len() > 0 {
            r.push(t)
        } else {
            r
        }
    }
}

/// A comma-separated list: the pieces between commas, trimmed, empty ones
/// dropped.
pub open spec fn comma_list(s: Seq<char>) -> Seq<Seq<char>> {
    trimmed_nonempty(comma_pieces(s))
}

/// Parse a comma-separated list: split at commas, trim each piece, drop the
/// empty ones.
pub fn parse_comma_list(s: &str) -> (r: Vec<String>)
    ensures
        string_views(r@) == comma_list(s@),
{
    let n = s.unicode_len();
    let mut out: Vec<String> = Vec::new();
    let mut start: usize = 0;
    let mut i: usize = 0;
    proof {
        assert(s@.take(0) =~= Seq::<char>::empty());
        assert(s@.subrange(0, 0) =~= Seq::<char>::empty());
    }
    while i < n
        invariant
            n == s@.len(),
            start <= i <= n,
            ({
                let ps = comma_pieces(s@.take(i as int));
                &&& ps.len() >= 1
                &&& ps.last() == s@.subrange(start as int, i as int)
                &&& string_views(out@) == trimmed_nonempty(ps.drop_last())
            }),
        decreases n - i,
    {
        let ghost ps = comma_pieces(s@.take(i as int));
        proof {
            assert(s@.take(i + 1).drop_last() =~= s@.take(i as int));
            assert(s@.take(i + 1).last() == s@[i as int]);
        }
        let c = s.get_char(i);
        if c == ',' {
            let piece = s.substring_char(start, i);
            let t = trim(piece);
            let ghost before = out@;
            if t.unicode_len() > 0 {
                out.push(String::from_str(t));
                assert(string_views(out@) =~= string_views(before).push(t@));
            }
            proof {
                let ps2 = comma_pieces(s@.take(i + 1));
                assert(ps2 == ps.push(Seq::<char>::empty()));
                assert(ps2.drop_last() =~= ps);
                assert(ps.drop_last().push(ps.last()) =~= ps);
                assert(s@.subrange(i + 1, i + 1) =~= Seq::<char>::empty());
            }
            start = i + 1;
        } else {
            proof {
                let ps2 = comma_pieces(s@.take(i + 1));
                assert(ps2.drop_last() =~= ps.drop_last());
                assert(ps2.last() =~= s@.subrange(start as int, i + 1));
            }
        }
        i = i + 1;
    }
    let piece = s.substring_char(start, n);
    let t = trim(piece);
    let ghost before = out@;
    proof {
        let ps = comma_pieces(s@.take(n as int));
        assert(s@.take(n as int) =~= s@);
        assert(ps.drop_last().push(ps.last()) =~= ps);
    }
    if t.unicode_len() > 0 {
        out.push(String::from_str(t));
        assert(string_views(out@) =~= string_views(before).push(t@));
    }
    out
}

/// The HTML text for one character: `&`, `<`, `>` and `"` become entities.
pub open spec fn escape_char(c: char) -> Seq<char> {
    if c == '&' {
        "&amp;"@
    } else if c == '<' {
        "&lt;"@
    } else if c == '>' {
        "&gt;"@
    } else if c == '"' {
        "&quot;"@
    } else {
        seq![c]
    }
}

/// `s` escaped for HTML text and attribute values.
pub open spec fn html_escaped(s: Seq<char>) -> Seq<char>
    decreases s.len(),
{
    if s.len() == 0 {
        Seq::empty()
    } else {
        html_escaped(s.drop_last()) + escape_char(s.last())
    }
}

/// Escape `&`, `<`, `>` and `"` for HTML. The result holds no `<`, `>` or `"`.
pub fn html_escape(s: &str) -> (r: String)
    ensures
        r@ == html_escaped(s@),
        forall|i: int| 0 <= i < r@.len() ==> r@[i] != '<' && r@[i] != '>' && r@[i] != '"',
{
    let n = s.unicode_len();
    let mut r = String::new();
    let mut i: usize = 0;
    while i < n
        invariant
            n == s@.len(),
            i <= n,
            r@ == html_escaped(s@.take(i as int)),
            forall|k: int| 0 <= k < r@.len() ==> r@[k] != '<' && r@[k] != '>' && r@[k] != '"',
        decreases n - i,
    {
        assert(s@.take(i + 1).drop_last() =~= s@.take(i as int));
        let c = s.get_char(i);
        let piece: &str = if c == '&' {
            proof {
                reveal_strlit("&amp;");
            }
            "&amp;"
        } else if c == '<' {
            proof {
                reveal_strlit("&lt;");
            }
            "&lt;"
        } else if c == '>' {
            proof {
                reveal_strlit("&gt;");
            }
            "&gt;"
        } else if c == '"' {
            proof {
                reveal_strlit("&quot;");
            }
            "&quot;"
        } else {
            s.substring_char(i, i + 1)
        };
        assert(piece@ =~= escape_char(s@[i as int]));
        r.append(piece);
        i = i + 1;
    }
    assert(s@.take(i as int) =~= s@);
    r
}

} // verus!
