use vstd::prelude::*;

verus! {

/// The character views of a sequence of character vectors.
pub open spec fn views(s: Seq<Vec<char>>) -> Seq<Seq<char>> {
    s.map_values(|v: Vec<char>| v@)
}

/// The characters of a string, one slot per character.
pub fn str_to_chars(s: &str) -> (r: Vec<char>)
    ensures
        r@ == s@,
{
    let n = s.unicode_len();
    let mut r: Vec<char> = Vec::new();
    let mut i: usize = 0;
    while i < n
        invariant
            i <= n,
            n == s@.len(),
            r@ == s@.take(i as int),
        decreases n - i,
    {
        let c = s.get_char(i);
        r.push(c);
        proof {
            assert(r@ =~= s@.take(i + 1));
        }
        i = i + 1;
    }
    proof {
        assert(s@.take(n as int) =~= s@);
    }
    r
}

/// Whether a character vector holds exactly the characters of a string.
pub fn chars_eq_str(v: &Vec<char>, s: &str) -> (r: bool)
    ensures
        r == (v@ == s@),
{
    let n = s.unicode_len();
    if v.len() != n {
        return false;
    }
    let mut i: usize = 0;
    while i < n
        invariant
            i <= n,
            n == s@.len() == v@.len(),
            forall|j: int| 0 <= j < i ==> v@[j] == s@[j],
        decreases n - i,
    {
        if v[i] != s.get_char(i) {
            return false;
        }
        i = i + 1;
    }
    proof {
        assert(v@ =~= s@);
    }
    true
}

/// The index of the first occurrence of a character, or -1 if it is absent.
pub open spec fn spec_find(s: Seq<char>, c: char) -> int
    decreases s.len(),
{
    if s.len() == 0 {
        -1
    } else if s[0] == c {
        0
    } else {
        let r = spec_find(s.drop_first(), c);
        if r < 0 {
            -1
        } else {
            r + 1
        }
    }
}

/// Where the first occurrence sits: within bounds, holding `c`, with no `c`
/// before it; or -1 with no `c` at all.
pub proof fn lemma_spec_find(s: Seq<char>, c: char)
    ensures
        spec_find(s, c) >= 0 ==> spec_find(s, c) < s.len() && s[spec_find(s, c)] == c && (forall|
            j: int,
        | 0 <= j < spec_find(s, c) ==> s[j] != c),
        spec_find(s, c) < 0 ==> forall|j: int| 0 <= j < s.len() ==> s[j] != c,
    decreases s.len(),
{
    if s.len() > 0 && s[0] != c {
        lemma_spec_find(s.drop_first(), c);
        let t = s.drop_first();
        assert(forall|j: int| 1 <= j < s.len() ==> s[j] == t[j - 1]);
    }
}

/// The index of the first occurrence of a character, if any.
pub fn find_char(v: &Vec<char>, c: char) -> (r: Option<usize>)
    ensures
        r matches Some(i) ==> spec_find(v@, c) == i as int,
        r is None ==> spec_find(v@, c) < 0,
{
    let mut i: usize = 0;
    let n = v.len();
    while i < n
        invariant
            i <= n,
            n == v@.len(),
            forall|j: int| 0 <= j < i ==> v@[j] != c,
        decreases n - i,
    {
        if v[i] == c {
            proof {
                lemma_spec_find(v@, c);
            }
            return Some(i);
        }
        i = i + 1;
    }
    proof {
        lemma_spec_find(v@, c);
    }
    None
}

/// The characters of `v` from `from` (inclusive) to `to` (exclusive).
pub fn sub_chars(v: &Vec<char>, from: usize, to: usize) -> (r: Vec<char>)
    requires
        from <= to <= v@.len(),
    ensures
        r@ == v@.subrange(from as int, to as int),
{
    let mut r: Vec<char> = Vec::new();
    let mut i = from;
    while i < to
        invariant
            from <= i <= to <= v@.len(),
            r@ == v@.subrange(from as int, i as int),
        decreases to - i,
    {
        r.push(v[i]);
        proof {
            assert(r@ =~= v@.subrange(from as int, i + 1));
        }
        i = i + 1;
    }
    r
}

/// Splitting, built up one character at a time from the left: the finished
/// pieces together with the piece still being gathered.
pub open spec fn split_state(s: Seq<char>, sep: char) -> (Seq<Seq<char>>, Seq<char>)
    decreases s.len(),
{
    if s.len() == 0 {
        (Seq::empty(), Seq::empty())
    } else {
        let (done, cur) = split_state(s.drop_last(), sep);
        if s.last() == sep {
            (done.push(cur), Seq::empty())
        } else {
            (done, cur.push(s.last()))
        }
    }
}

/// The pieces of `s` between occurrences of `sep`: one piece more than there
/// are separators, empty pieces kept.
pub open spec fn spec_split(s: Seq<char>, sep: char) -> Seq<Seq<char>> {
    split_state(s, sep).0.push(split_state(s, sep).1)
}

/// Split a character vector at every occurrence of a separator, keeping
/// empty pieces.
pub fn split_char(v: &Vec<char>, sep: char) -> (r: Vec<Vec<char>>)
    ensures
        views(r@) == spec_split(v@, sep),
{
    let mut done: Vec<Vec<char>> = Vec::new();
    let mut cur: Vec<char> = Vec::new();
    let n = v.len();
    let mut i: usize = 0;
    while i < n
        invariant
            i <= n,
            n == v@.len(),
            views(done@) == split_state(v@.take(i as int), sep).0,
            cur@ == split_state(v@.take(i as int), sep).1,
        decreases n - i,
    {
        let c = v[i];
        proof {
            assert(v@.take(i + 1).drop_last() =~= v@.take(i as int));
        }
        let ghost prev_done = views(done@);
        let ghost prev_cur = cur@;
        if c == sep {
            done.push(cur);
            cur = Vec::new();
            proof {
                assert(views(done@) =~= prev_done.push(prev_cur));
            }
        } else {
            cur.push(c);
        }
        i = i + 1;
    }
    proof {
        assert(v@.take(n as int) =~= v@);
    }
    done.push(cur);
    proof {
        assert(views(done@) =~= split_state(v@, sep).0.push(split_state(v@, sep).1));
    }
    done
}

/// Whether a character separates tokens: space, tab or carriage return.
pub open spec fn is_ws(c: char) -> bool {
    c == ' ' || c == '\t' || c == '\r'
}

/// Tokenizing, built up one character at a time from the left: the finished
/// tokens together with the token still being gathered. Runs of whitespace
/// yield no empty tokens.
pub open spec fn tok_state(s: Seq<char>) -> (Seq<Seq<char>>, Seq<char>)
    decreases s.len(),
{
    if s.len() == 0 {
        (Seq::empty(), Seq::empty())
    } else {
        let (done, cur) = tok_state(s.drop_last());
        if is_ws(s.last()) {
            if cur.len() > 0 {
                (done.push(cur), Seq::empty())
            } else {
                (done, cur)
            }
        } else {
            (done, cur.push(s.last()))
        }
    }
}

/// The whitespace-separated tokens of a line, in order, each nonempty.
pub open spec fn spec_tokens(s: Seq<char>) -> Seq<Seq<char>> {
    let (done, cur) = tok_state(s);
    if cur.len() > 0 {
        done.push(cur)
    } else {
        done
    }
}

/// Split a line into its whitespace-separated tokens, dropping empty ones.
pub fn tokens_of(v: &Vec<char>) -> (r: Vec<Vec<char>>)
    ensures
        views(r@) == spec_tokens(v@),
{
    let mut done: Vec<Vec<char>> = Vec::new();
    let mut cur: Vec<char> = Vec::new();
    let n = v.len();
    let mut i: usize = 0;
    while i < n
        invariant
            i <= n,
            n == v@.len(),
            views(done@) == tok_state(v@.take(i as int)).0,
            cur@ == tok_state(v@.take(i as int)).1,
        decreases n - i,
    {
        let c = v[i];
        proof {
            assert(v@.take(i + 1).drop_last() =~= v@.take(i as int));
        }
        let ghost prev_done = views(done@);
        let ghost prev_cur = cur@;
        if c == ' ' || c == '\t' || c == '\r' {
            if cur.len() > 0 {
                done.push(cur);
                cur = Vec::new();
                proof {
                    assert(views(done@) =~= prev_done.push(prev_cur));
                }
            }
        } else {
            cur.push(c);
        }
        i = i + 1;
    }
    proof {
        assert(v@.take(n as int) =~= v@);
    }
    if cur.len() > 0 {
        done.push(cur);
        proof {
            assert(views(done@) =~= tok_state(v@).0.push(tok_state(v@).1));
        }
    }
    done
}

/// A line with a trailing carriage return stripped.
pub open spec fn strip_cr(s: Seq<char>) -> Seq<char> {
    if s.len() > 0 && s.last() == '\r' {
        s.drop_last()
    } else {
        s
    }
}

/// The lines of a text: the pieces between newlines, without a final empty
/// piece after a trailing newline, each with a trailing carriage return
/// stripped.
pub open spec fn spec_lines(s: Seq<char>) -> Seq<Seq<char>> {
    let ps = spec_split(s, '\n');
    let ps2 = if ps.len() > 0 && ps.last().len() == 0 {
        ps.drop_last()
    } else {
        ps
    };
    ps2.map_values(|l: Seq<char>| strip_cr(l))
}

/// Split a text into lines, as `spec_lines` describes.
pub fn to_lines(v: &Vec<char>) -> (r: Vec<Vec<char>>)
    ensures
        views(r@) == spec_lines(v@),
{
    let mut parts = split_char(v, '\n');
    let np = parts.len();
    if np > 0 && parts[np - 1].len() == 0 {
        let _ = parts.pop();
        proof {
            assert(views(parts@) =~= spec_split(v@, '\n').drop_last());
        }
    }
    let mut r: Vec<Vec<char>> = Vec::new();
    let n = parts.len();
    let mut i: usize = 0;
    while i < n
        invariant
            i <= n,
            n == parts@.len(),
            r@.len() == i,
            forall|j: int| 0 <= j < i ==> views(r@)[j] == strip_cr(views(parts@)[j]),
        decreases n - i,
    {
        let ghost prev_views = views(r@);
        let p = &parts[i];
        let pl = p.len();
        if pl > 0 && p[pl - 1] == '\r' {
            let stripped = sub_chars(p, 0, pl - 1);
            proof {
                assert(stripped@ =~= p@.drop_last());
            }
            r.push(stripped);
            proof {
                assert(views(r@) =~= prev_views.push(strip_cr(p@)));
            }
        } else {
            let mut copy: Vec<char> = Vec::new();
            let mut k: usize = 0;
            while k < pl
                invariant
                    k <= pl,
                    pl == p@.len(),
                    copy@ == p@.take(k as int),
                decreases pl - k,
            {
                copy.push(p[k]);
                proof {
                    assert(copy@ =~= p@.take(k + 1));
                }
                k = k + 1;
            }
            proof {
                assert(copy@ =~= p@);
            }
            r.push(copy);
            proof {
                assert(views(r@) =~= prev_views.push(strip_cr(p@)));
            }
        }
        i = i + 1;
    }
    proof {
        assert(views(r@) =~= views(parts@).map_values(|l: Seq<char>| strip_cr(l)));
    }
    r
}

/// The numeric worth of a character as a digit: 0 to 9 for `0`-`9`, 10 to 15
/// for `A`-`F` and `a`-`f`, and -1 for anything else.
pub open spec fn digit_val(c: char) -> int {
    let u = c as u32;
    if 48 <= u && u <= 57 {
        u - 48
    } else if 65 <= u && u <= 70 {
        u - 55
    } else if 97 <= u && u <= 102 {
        u - 87
    } else {
        -1
    }
}

/// Whether a character is a digit of the given base.
pub open spec fn digit_ok(c: char, base: int) -> bool {
    0 <= digit_val(c) && digit_val(c) < base
}

/// Whether every character is a digit of the given base.
pub open spec fn all_digits(s: Seq<char>, base: int) -> bool {
    forall|i: int| 0 <= i < s.len() ==> digit_ok(s[i], base)
}

/// The unbounded value of a digit string read in the given base.
pub open spec fn digits_val(s: Seq<char>, base: int) -> int
    decreases s.len(),
{
    if s.len() == 0 {
        0
    } else {
        digits_val(s.drop_last(), base) * base + digit_val(s.last())
    }
}

/// What parsing an unsigned numeral yields: its value, provided the string
/// is nonempty, all digits of the base, and the value fits 16 bits.
pub open spec fn spec_parse_uint(s: Seq<char>, base: int) -> Option<u16> {
    if s.len() > 0 && all_digits(s, base) && digits_val(s, base) <= 0xFFFF {
        Some(digits_val(s, base) as u16)
    } else {
        None
    }
}

/// A digit string of valid digits has a non-negative value.
pub proof fn lemma_digits_val_nonneg(s: Seq<char>, base: int)
    requires
        all_digits(s, base),
        base >= 2,
    ensures
        digits_val(s, base) >= 0,
    decreases s.len(),
{
    if s.len() > 0 {
        lemma_digits_val_nonneg(s.drop_last(), base);
        assert(digits_val(s.drop_last(), base) * base >= 0) by (nonlinear_arith)
            requires
                digits_val(s.drop_last(), base) >= 0 && base >= 2,
        ;
    }
}

/// Once a prefix of a digit string exceeds 16 bits, the whole string does.
pub proof fn lemma_digits_prefix_overflow(s: Seq<char>, base: int, i: int)
    requires
        all_digits(s, base),
        base >= 2,
        0 <= i <= s.len(),
        digits_val(s.take(i), base) > 0xFFFF,
    ensures
        digits_val(s, base) > 0xFFFF,
    decreases s.len() - i,
{
    if i < s.len() {
        let p = s.take(i);
        let q = s.take(i + 1);
        assert(q.drop_last() =~= p);
        assert(digit_ok(s[i], base));
        assert(digits_val(p, base) * base > 0xFFFF) by (nonlinear_arith)
            requires
                digits_val(p, base) > 0xFFFF && base >= 2,
        ;
        lemma_digits_prefix_overflow(s, base, i + 1);
    } else {
        assert(s.take(i) =~= s);
    }
}

/// The digit worth of a character, with 255 for a non-digit.
pub fn exec_digit_val(c: char) -> (d: u32)
    ensures
        digit_val(c) >= 0 ==> d == digit_val(c),
        digit_val(c) < 0 ==> d == 255,
{
    let u = c as u32;
    if 48 <= u && u <= 57 {
        u - 48
    } else if 65 <= u && u <= 70 {
        u - 55
    } else if 97 <= u && u <= 102 {
        u - 87
    } else {
        255
    }
}

/// Parse an unsigned numeral in base 10 or 16 into a 16-bit value: `None`
/// on an empty string, a non-digit, or a value over 16 bits.
pub fn parse_uint(v: &Vec<char>, base: u32) -> (r: Option<u16>)
    requires
        base == 10 || base == 16,
    ensures
        r == spec_parse_uint(v@, base as int),
{
    let n = v.len();
    if n == 0 {
        return None;
    }
    let mut acc: u32 = 0;
    let mut i: usize = 0;
    while i < n
        invariant
            i <= n,
            n == v@.len(),
            base == 10 || base == 16,
            all_digits(v@.take(i as int), base as int),
            acc <= 0x10000,
            digits_val(v@.take(i as int), base as int) <= 0xFFFF ==> acc == digits_val(
                v@.take(i as int),
                base as int,
            ),
            digits_val(v@.take(i as int), base as int) > 0xFFFF ==> acc == 0x10000,
        decreases n - i,
    {
        let c = v[i];
        let d = exec_digit_val(c);
        if d >= base {
            assert(!digit_ok(v@[i as int], base as int));
            return None;
        }
        proof {
            assert(v@.take(i + 1).drop_last() =~= v@.take(i as int));
            lemma_digits_val_nonneg(v@.take(i as int), base as int);
        }
        let ghost pval = digits_val(v@.take(i as int), base as int);
        let na = acc * base + d;
        proof {
            if pval > 0xFFFF {
                assert(pval * base + digit_val(v@[i as int]) > 0xFFFF) by (nonlinear_arith)
                    requires
                        pval > 0xFFFF && base >= 2 && digit_val(v@[i as int]) >= 0,
                ;
            }
        }
        if na > 0xFFFF {
            acc = 0x10000;
        } else {
            acc = na;
        }
        i = i + 1;
    }
    proof {
        assert(v@.take(n as int) =~= v@);
    }
    if acc <= 0xFFFF {
        Some(acc as u16)
    } else {
        None
    }
}

/// The uppercase hexadecimal digit for a worth below 16.
pub open spec fn spec_hex_digit(d: int) -> char {
    if d == 0 {
        '0'
    } else if d == 1 {
        '1'
    } else if d == 2 {
        '2'
    } else if d == 3 {
        '3'
    } else if d == 4 {
        '4'
    } else if d == 5 {
        '5'
    } else if d == 6 {
        '6'
    } else if d == 7 {
        '7'
    } else if d == 8 {
        '8'
    } else if d == 9 {
        '9'
    } else if d == 10 {
        'A'
    } else if d == 11 {
        'B'
    } else if d == 12 {
        'C'
    } else if d == 13 {
        'D'
    } else if d == 14 {
        'E'
    } else {
        'F'
    }
}

/// The uppercase hexadecimal numeral of a value, shortest form (no leading
/// zeroes except for the value zero itself).
pub open spec fn spec_hex(v: int) -> Seq<char>
    decreases v,
{
    if v < 16 {
        seq![spec_hex_digit(v)]
    } else {
        spec_hex(v / 16).push(spec_hex_digit(v % 16))
    }
}

/// The uppercase hexadecimal digit character of a worth below 16.
pub fn exec_hex_digit(d: u16) -> (c: char)
    requires
        d < 16,
    ensures
        c == spec_hex_digit(d as int),
{
    match d {
        0 => '0',
        1 => '1',
        2 => '2',
        3 => '3',
        4 => '4',
        5 => '5',
        6 => '6',
        7 => '7',
        8 => '8',
        9 => '9',
        10 => 'A',
        11 => 'B',
        12 => 'C',
        13 => 'D',
        14 => 'E',
        _ => 'F',
    }
}

/// The uppercase hexadecimal numeral of a 16-bit value, shortest form.
pub fn hex_chars(v: u16) -> (r: Vec<char>)
    ensures
        r@ == spec_hex(v as int),
    decreases v,
{
    if v < 16 {
        let mut r: Vec<char> = Vec::new();
        r.push(exec_hex_digit(v));
        proof {
            assert(r@ =~= seq![spec_hex_digit(v as int)]);
        }
        r
    } else {
        let mut r = hex_chars(v / 16);
        r.push(exec_hex_digit(v % 16));
        r
    }
}

/// Whether two character vectors hold the same characters.
pub fn chars_eq_chars(a: &Vec<char>, b: &Vec<char>) -> (r: bool)
    ensures
        r == (a@ == b@),
{
    let n = a.len();
    if b.len() != n {
        return false;
    }
    let mut i: usize = 0;
    while i < n
        invariant
            i <= n,
            n == a@.len() == b@.len(),
            forall|j: int| 0 <= j < i ==> a@[j] == b@[j],
        decreases n - i,
    {
        if a[i] != b[i] {
            return false;
        }
        i = i + 1;
    }
    proof {
        assert(a@ =~= b@);
    }
    true
}

/// A copy of a character vector.
pub fn clone_chars(v: &Vec<char>) -> (r: Vec<char>)
    ensures
        r@ == v@,
{
    let n = v.len();
    let mut r: Vec<char> = Vec::new();
    let mut i: usize = 0;
    while i < n
        invariant
            i <= n,
            n == v@.len(),
            r@ == v@.take(i as int),
        decreases n - i,
    {
        r.push(v[i]);
        proof {
            assert(r@ =~= v@.take(i + 1));
        }
        i = i + 1;
    }
    proof {
        assert(v@.take(n as int) =~= v@);
    }
    r
}

/// A line with everything from the first `;` on cut away: the part that the
/// assembler reads, before any comment.
pub open spec fn spec_strip_comment(s: Seq<char>) -> Seq<char> {
    if spec_find(s, ';') >= 0 {
        s.take(spec_find(s, ';'))
    } else {
        s
    }
}

/// Cut a line at its first `;`, as `spec_strip_comment` describes.
pub fn strip_comment(v: &Vec<char>) -> (r: Vec<char>)
    ensures
        r@ == spec_strip_comment(v@),
{
    match find_char(v, ';') {
        Some(i) => {
            proof {
                lemma_spec_find(v@, ';');
            }
            sub_chars(v, 0, i)
        },
        None => clone_chars(v),
    }
}

/// The tokens of one source line, comments cut away first.
pub open spec fn line_tokens(s: Seq<char>) -> Seq<Seq<char>> {
    spec_tokens(spec_strip_comment(s))
}

/// Tokenize one source line, comments cut away first.
pub fn exec_line_tokens(v: &Vec<char>) -> (r: Vec<Vec<char>>)
    ensures
        views(r@) == line_tokens(v@),
{
    let stripped = strip_comment(v);
    tokens_of(&stripped)
}

} // verus!

